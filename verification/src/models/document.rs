//! A parsed document.
use vstd::prelude::*;
use crate::models::block::{Block, BlockV, blocks_view};

verus! {

#[derive(Debug, Default, PartialEq, Eq)]
pub struct Document {
    pub blocks: Vec<Block>,
}

impl View for Document {
    type V = Seq<BlockV>;

    open spec fn view(&self) -> Seq<BlockV> {
        blocks_view(self.blocks@)
    }
}

} // verus!
