//! The small parts of an HWPX package: its media type and the settings part with
//! the caret position.
use vstd::prelude::*;
use crate::generators::hwpx::section::CaretPosition;
use crate::utils::text::{decimal, decimal_string, owned, replace_all, spec_replace};

verus! {

/// The media type that the `mimetype` entry of a package holds.
pub fn mimetype() -> (s: &'static str)
    ensures
        s@ == "application/hwp+zip"@,
{
    "application/hwp+zip"
}

/// The settings part: the template with its caret paragraph reference and caret
/// offset set, by replacing `paraIDRef="0"` and then `pos="45"` wherever they
/// occur.
pub open spec fn spec_settings_xml(template: Seq<char>, para_id_ref: nat, pos: nat) -> Seq<char> {
    spec_replace(
        spec_replace(template, "paraIDRef=\"0\""@, "paraIDRef=\""@ + decimal(para_id_ref) + "\""@),
        "pos=\"45\""@,
        "pos=\""@ + decimal(pos) + "\""@,
    )
}

/// The settings part for a caret position, from the settings template.
pub fn settings_xml(template: &str, caret: &CaretPosition) -> (s: String)
    ensures
        s@ == spec_settings_xml(template@, caret.para_id_ref as nat, caret.pos as nat),
{
    let mut para_attr = owned("paraIDRef=\"");
    let para_digits = decimal_string(caret.para_id_ref as u64);
    para_attr.append(para_digits.as_str());
    para_attr.append("\"");
    let with_para = replace_all(template, "paraIDRef=\"0\"", para_attr.as_str());
    let mut pos_attr = owned("pos=\"");
    let pos_digits = decimal_string(caret.pos as u64);
    pos_attr.append(pos_digits.as_str());
    pos_attr.append("\"");
    replace_all(with_para.as_str(), "pos=\"45\"", pos_attr.as_str())
}

} // verus!
