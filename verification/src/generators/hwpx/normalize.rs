//! The adjustment that markdown gets before lenient HWPX conversion: an ordered
//! list item indented by two spaces is indented by three, so that it nests under
//! the item above it.
use vstd::prelude::*;
use crate::parser::markdown::data_image::lemma_find_from_range;
use crate::utils::text::{chars_of, find_from, owned, push_char, spec_find_from, substring};

verus! {

/// Whether a character is an ASCII digit.
pub open spec fn is_ascii_digit(c: char) -> bool {
    '0' <= c && c <= '9'
}

/// The number of ASCII digits that the text starts with.
pub open spec fn leading_digits(v: Seq<char>) -> nat
    decreases v.len(),
{
    if v.len() > 0 && is_ascii_digit(v[0]) {
        1 + leading_digits(v.skip(1))
    } else {
        0
    }
}

/// Whether the text starts with an ordered list marker: one or more ASCII digits,
/// a full stop and a space.
pub open spec fn spec_is_ordered_list_marker(v: Seq<char>) -> bool {
    let d = leading_digits(v);
    d > 0 && d + 2 <= v.len() && v[d as int] == '.' && v[(d + 1) as int] == ' '
}

proof fn lemma_leading_digits(v: Seq<char>, k: int)
    requires
        0 <= k <= v.len(),
        forall|m: int| 0 <= m < k ==> is_ascii_digit(#[trigger] v[m]),
    ensures
        leading_digits(v) == k + leading_digits(v.skip(k)),
        leading_digits(v) <= v.len(),
    decreases k,
{
    lemma_leading_digits_bound(v);
    if k > 0 {
        assert(is_ascii_digit(v[0]));
        assert forall|m: int| 0 <= m < k - 1 implies is_ascii_digit(#[trigger] v.skip(1)[m]) by {
            assert(v.skip(1)[m] == v[m + 1]);
        }
        lemma_leading_digits(v.skip(1), k - 1);
        assert(v.skip(1).skip(k - 1) =~= v.skip(k));
    } else {
        assert(v.skip(0) =~= v);
    }
}

proof fn lemma_leading_digits_bound(v: Seq<char>)
    ensures
        leading_digits(v) <= v.len(),
    decreases v.len(),
{
    if v.len() > 0 && is_ascii_digit(v[0]) {
        lemma_leading_digits_bound(v.skip(1));
    }
}

/// Whether the text starts with an ordered list marker.
fn is_ordered_list_marker(value: &str) -> (b: bool)
    ensures
        b == spec_is_ordered_list_marker(value@),
{
    let cs = chars_of(value);
    let mut d: usize = 0;
    while d < cs.len() && '0' <= cs[d] && cs[d] <= '9'
        invariant
            d <= cs@.len(),
            cs@ == value@,
            forall|m: int| 0 <= m < d ==> is_ascii_digit(#[trigger] cs@[m]),
        decreases cs.len() - d,
    {
        d += 1;
    }
    proof {
        lemma_leading_digits(cs@, d as int);
        if d < cs@.len() {
            assert(cs@.skip(d as int)[0] == cs@[d as int]);
        }
    }
    d > 0 && cs.len() >= 2 && d <= cs.len() - 2 && cs[d] == '.' && cs[d + 1] == ' '
}

/// A line, indented by one more space where it is an ordered list item indented
/// by two.
pub open spec fn spec_normalize_line(l: Seq<char>) -> Seq<char> {
    if l.len() >= 2 && l[0] == ' ' && l[1] == ' ' && spec_is_ordered_list_marker(l.skip(2)) {
        seq![' '] + l
    } else {
        l
    }
}

fn normalize_line(line: &str) -> (r: String)
    ensures
        r@ == spec_normalize_line(line@),
{
    let cs = chars_of(line);
    if cs.len() >= 2 && cs[0] == ' ' && cs[1] == ' ' {
        let rest = substring(&cs, 2, cs.len());
        assert(rest@ =~= line@.skip(2));
        if is_ordered_list_marker(rest.as_str()) {
            let mut r = String::new();
            push_char(&mut r, ' ');
            r.append(line);
            assert(r@ =~= seq![' '] + line@);
            return r;
        }
    }
    owned(line)
}

/// The lines from index `i` on, each normalized and followed by the line break
/// that ended it (the last line may have none).
pub open spec fn spec_normalize_from(s: Seq<char>, i: int) -> Seq<char>
    decreases s.len() - i,
{
    if i < 0 || i >= s.len() {
        seq![]
    } else {
        match spec_find_from(s, i, '\n') {
            Some(j) => {
                proof { lemma_find_from_range(s, i, '\n'); }
                spec_normalize_line(s.subrange(i, j)) + seq!['\n'] + spec_normalize_from(s, j + 1)
            },
            None => spec_normalize_line(s.subrange(i, s.len() as int)),
        }
    }
}

/// The markdown with every ordered list item that is indented by two spaces
/// indented by three.
pub open spec fn spec_normalize_markdown(s: Seq<char>) -> Seq<char> {
    spec_normalize_from(s, 0)
}

/// The markdown as lenient HWPX conversion reads it.
pub fn normalize_hwpx_markdown(markdown: &str) -> (r: String)
    ensures
        r@ == spec_normalize_markdown(markdown@),
{
    let cs = chars_of(markdown);
    let ghost whole = cs@;
    let mut out = String::new();
    let mut i: usize = 0;
    assert(out@ + spec_normalize_from(whole, 0) =~= spec_normalize_from(whole, 0));
    while i < cs.len()
        invariant
            cs@ == whole,
            i <= cs@.len(),
            out@ + spec_normalize_from(whole, i as int) == spec_normalize_from(whole, 0),
        decreases cs@.len() - i,
    {
        proof { lemma_find_from_range(whole, i as int, '\n'); }
        match find_from(&cs, i, '\n') {
            Some(j) => {
                let line = substring(&cs, i, j);
                let normalized = normalize_line(line.as_str());
                let ghost before = out@;
                out.append(normalized.as_str());
                push_char(&mut out, '\n');
                assert(out@ =~= before + (spec_normalize_line(whole.subrange(i as int, j as int)) + seq!['\n']));
                i = j + 1;
            },
            None => {
                let line = substring(&cs, i, cs.len());
                let normalized = normalize_line(line.as_str());
                let ghost before = out@;
                out.append(normalized.as_str());
                assert(spec_normalize_from(whole, cs@.len() as int) == Seq::<char>::empty());
                assert(out@ + spec_normalize_from(whole, cs@.len() as int) =~= before + spec_normalize_from(whole, i as int));
                i = cs.len();
            },
        }
    }
    assert(out@ + spec_normalize_from(whole, i as int) =~= out@);
    out
}

} // verus!
