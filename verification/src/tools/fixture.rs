//! Fixture settings: the conversion options and the comparison settings that a
//! fixture's `fixture.toml` records, read from its text.
use vstd::prelude::*;
use crate::generators::docx::markup::spec_lines;
use crate::generators::docx::render::lines_of;
use crate::generators::hwpx::items::strings_view;
use crate::generators::hwpx::normalize::is_ascii_digit;
use crate::generators::hwpx::style::{HwpxOptions, HwpxParagraphAlign, HwpxStyleOptions, opt_view};
use crate::tools::decode_hwpx::{args_view, spec_split, split_at_char};
use crate::utils::text::{
    chars_of, find_from, owned, spec_find_from, spec_starts_with, spec_trim, starts_with, str_eq,
    substring, trim,
};

verus! {

/// The value of a run of decimal digits read from the left, or the error that
/// `u32`'s parser reports: a character that is no digit, or a value past `u32::MAX`
/// (whichever comes first).
pub open spec fn spec_parse_digits(d: Seq<char>, acc: nat) -> Result<u32, Seq<char>>
    decreases d.len(),
{
    if d.len() == 0 {
        Ok(acc as u32)
    } else if !is_ascii_digit(d[0]) {
        Err("invalid digit found in string"@)
    } else {
        let n = acc * 10 + (d[0] as nat - 48);
        if n > u32::MAX {
            Err("number too large to fit in target type"@)
        } else {
            spec_parse_digits(d.skip(1), n as nat)
        }
    }
}

/// A `u32` read as `str::parse` reads it: decimal digits after an optional `+`.
pub open spec fn spec_parse_u32(s: Seq<char>) -> Result<u32, Seq<char>> {
    if s.len() == 0 {
        Err("cannot parse integer from empty string"@)
    } else if s[0] == '+' && s.len() == 1 {
        Err("invalid digit found in string"@)
    } else if s[0] == '+' {
        spec_parse_digits(s.skip(1), 0)
    } else {
        spec_parse_digits(s, 0)
    }
}

/// A `u32` read from text.
pub fn parse_u32(s: &str) -> (r: Result<u32, String>)
    ensures
        match spec_parse_u32(s@) {
            Ok(n) => r == Ok::<u32, String>(n),
            Err(m) => r matches Err(x) && x@ == m,
        },
{
    let cs = chars_of(s);
    if cs.len() == 0 {
        return Err(owned("cannot parse integer from empty string"));
    }
    if cs[0] == '+' && cs.len() == 1 {
        return Err(owned("invalid digit found in string"));
    }
    let start: usize = if cs[0] == '+' { 1 } else { 0 };
    let ghost digits = s@.skip(start as int);
    let mut acc: u64 = 0;
    let mut i: usize = start;
    assert(s@.skip(start as int) =~= cs@.skip(start as int));
    assert(cs@.skip(0) =~= s@);
    while i < cs.len()
        invariant
            start <= i <= cs@.len(),
            cs@ == s@,
            acc <= u32::MAX,
            spec_parse_u32(s@) == spec_parse_digits(cs@.skip(i as int), acc as nat),
        decreases cs@.len() - i,
    {
        let c = cs[i];
        assert(cs@.skip(i as int)[0] == c);
        if !('0' <= c && c <= '9') {
            return Err(owned("invalid digit found in string"));
        }
        let n = acc * 10 + ((c as u32) - 48) as u64;
        if n > 4294967295 {
            return Err(owned("number too large to fit in target type"));
        }
        assert(cs@.skip(i as int).skip(1) =~= cs@.skip(i + 1));
        acc = n;
        i += 1;
    }
    assert(cs@.skip(i as int) =~= Seq::<char>::empty());
    Ok(acc as u32)
}

/// A `bool` read as `str::parse` reads it.
pub open spec fn spec_parse_bool(s: Seq<char>) -> Result<bool, Seq<char>> {
    if s == "true"@ {
        Ok(true)
    } else if s == "false"@ {
        Ok(false)
    } else {
        Err("provided string was not `true` or `false`"@)
    }
}

fn parse_bool(s: &str) -> (r: Result<bool, String>)
    ensures
        match spec_parse_bool(s@) {
            Ok(b) => r == Ok::<bool, String>(b),
            Err(m) => r matches Err(x) && x@ == m,
        },
{
    if str_eq(s, "true") {
        Ok(true)
    } else if str_eq(s, "false") {
        Ok(false)
    } else {
        Err(owned("provided string was not `true` or `false`"))
    }
}

/// A setting's value: trimmed, and without the double quotes around it.
pub open spec fn spec_unquote(value: Seq<char>) -> Seq<char> {
    let t = spec_trim(value);
    if t.len() >= 2 && t[0] == '"' && t.last() == '"' {
        t.subrange(1, t.len() - 1)
    } else {
        t
    }
}

fn parse_string(value: &str) -> (r: String)
    ensures
        r@ == spec_unquote(value@),
{
    let t = trim(value);
    let cs = chars_of(t.as_str());
    if cs.len() >= 2 && cs[0] == '"' && cs[cs.len() - 1] == '"' {
        substring(&cs, 1, cs.len() - 1)
    } else {
        t
    }
}

/// A paragraph alignment by its name.
pub open spec fn spec_parse_align(v: Seq<char>) -> Result<HwpxParagraphAlign, Seq<char>> {
    if v == "left"@ {
        Ok(HwpxParagraphAlign::Left)
    } else if v == "center"@ {
        Ok(HwpxParagraphAlign::Center)
    } else if v == "right"@ {
        Ok(HwpxParagraphAlign::Right)
    } else if v == "justify"@ {
        Ok(HwpxParagraphAlign::Justify)
    } else {
        Err("unsupported paragraph_align: "@ + v)
    }
}

fn parse_align(v: &str) -> (r: Result<HwpxParagraphAlign, String>)
    ensures
        match spec_parse_align(v@) {
            Ok(a) => r == Ok::<HwpxParagraphAlign, String>(a),
            Err(m) => r matches Err(x) && x@ == m,
        },
{
    if str_eq(v, "left") {
        Ok(HwpxParagraphAlign::Left)
    } else if str_eq(v, "center") {
        Ok(HwpxParagraphAlign::Center)
    } else if str_eq(v, "right") {
        Ok(HwpxParagraphAlign::Right)
    } else if str_eq(v, "justify") {
        Ok(HwpxParagraphAlign::Justify)
    } else {
        let mut m = owned("unsupported paragraph_align: ");
        m.append(v);
        Err(m)
    }
}

/// The settings read so far: the options, and whether the lines are inside the
/// `[style]` table.
pub struct FixtureV {
    pub title: Option<Seq<char>>,
    pub author: Option<Seq<char>>,
    pub strict: bool,
    pub in_style: bool,
    pub body_font: Option<Seq<char>>,
    pub heading_font: Option<Seq<char>>,
    pub body_font_size: Option<u32>,
    pub heading_font_size: Option<u32>,
    pub text_color: Option<Seq<char>>,
    pub heading_color: Option<Seq<char>>,
    pub link_color: Option<Seq<char>>,
    pub paragraph_align: Option<HwpxParagraphAlign>,
}

pub open spec fn fixture_view(o: HwpxOptions, in_style: bool) -> FixtureV {
    FixtureV {
        title: opt_view(o.title),
        author: opt_view(o.author),
        strict: o.strict_mode,
        in_style,
        body_font: opt_view(o.style.body_font),
        heading_font: opt_view(o.style.heading_font),
        body_font_size: o.style.body_font_size,
        heading_font_size: o.style.heading_font_size,
        text_color: opt_view(o.style.text_color),
        heading_color: opt_view(o.style.heading_color),
        link_color: opt_view(o.style.link_color),
        paragraph_align: o.style.paragraph_align,
    }
}

/// Nothing read yet: no title or author, strict mode, no style settings.
pub open spec fn initial_fixture() -> FixtureV {
    FixtureV {
        title: None,
        author: None,
        strict: true,
        in_style: false,
        body_font: None,
        heading_font: None,
        body_font_size: None,
        heading_font_size: None,
        text_color: None,
        heading_color: None,
        link_color: None,
        paragraph_align: None,
    }
}

/// A `key = value` setting inside the `[style]` table.
pub open spec fn spec_style_setting(st: FixtureV, key: Seq<char>, value: Seq<char>) -> Result<FixtureV, Seq<char>> {
    if key == "body_font"@ {
        Ok(FixtureV { body_font: Some(spec_unquote(value)), ..st })
    } else if key == "heading_font"@ {
        Ok(FixtureV { heading_font: Some(spec_unquote(value)), ..st })
    } else if key == "body_font_size"@ {
        match spec_parse_u32(value) {
            Ok(n) => Ok(FixtureV { body_font_size: Some(n), ..st }),
            Err(m) => Err(m),
        }
    } else if key == "heading_font_size"@ {
        match spec_parse_u32(value) {
            Ok(n) => Ok(FixtureV { heading_font_size: Some(n), ..st }),
            Err(m) => Err(m),
        }
    } else if key == "text_color"@ {
        Ok(FixtureV { text_color: Some(spec_unquote(value)), ..st })
    } else if key == "heading_color"@ {
        Ok(FixtureV { heading_color: Some(spec_unquote(value)), ..st })
    } else if key == "link_color"@ {
        Ok(FixtureV { link_color: Some(spec_unquote(value)), ..st })
    } else if key == "paragraph_align"@ {
        match spec_parse_align(spec_unquote(value)) {
            Ok(a) => Ok(FixtureV { paragraph_align: Some(a), ..st }),
            Err(m) => Err(m),
        }
    } else {
        Ok(st)
    }
}

/// A `key = value` setting outside the `[style]` table.
pub open spec fn spec_top_setting(st: FixtureV, key: Seq<char>, value: Seq<char>) -> Result<FixtureV, Seq<char>> {
    if key == "title"@ {
        Ok(FixtureV { title: Some(spec_unquote(value)), ..st })
    } else if key == "author"@ {
        Ok(FixtureV { author: Some(spec_unquote(value)), ..st })
    } else if key == "strict_mode"@ {
        match spec_parse_bool(value) {
            Ok(b) => Ok(FixtureV { strict: b, ..st }),
            Err(m) => Err(m),
        }
    } else {
        Ok(st)
    }
}

/// One line of settings: blank lines and comments are skipped, a table header
/// opens or closes the `[style]` table, a line without `=` is skipped, and a
/// `key = value` line sets what its key names.
pub open spec fn spec_fixture_line(st: FixtureV, line: Seq<char>) -> Result<FixtureV, Seq<char>> {
    let l = spec_trim(line);
    if l.len() == 0 || l[0] == '#' {
        Ok(st)
    } else if l[0] == '[' && l.last() == ']' {
        Ok(FixtureV { in_style: l == "[style]"@, ..st })
    } else {
        match spec_find_from(l, 0, '=') {
            None => Ok(st),
            Some(i) => {
                let key = spec_trim(l.take(i));
                let value = spec_trim(l.skip(i + 1));
                if st.in_style {
                    spec_style_setting(st, key, value)
                } else {
                    spec_top_setting(st, key, value)
                }
            },
        }
    }
}

/// The settings of lines read in order; the first error stops the reading.
pub open spec fn spec_fixture_lines(lines: Seq<Seq<char>>) -> Result<FixtureV, Seq<char>>
    decreases lines.len(),
{
    if lines.len() == 0 {
        Ok(initial_fixture())
    } else {
        match spec_fixture_lines(lines.drop_last()) {
            Ok(st) => spec_fixture_line(st, lines.last()),
            Err(m) => Err(m),
        }
    }
}

fn apply_style_setting(options: &mut HwpxOptions, key: &str, value: &str) -> (r: Result<(), String>)
    ensures
        match spec_style_setting(fixture_view(*old(options), true), key@, value@) {
            Ok(st) => r is Ok && fixture_view(*final(options), true) == st,
            Err(m) => r matches Err(x) && x@ == m,
        },
{
    if str_eq(key, "body_font") {
        options.style.body_font = Some(parse_string(value));
    } else if str_eq(key, "heading_font") {
        options.style.heading_font = Some(parse_string(value));
    } else if str_eq(key, "body_font_size") {
        options.style.body_font_size = Some(parse_u32(value)?);
    } else if str_eq(key, "heading_font_size") {
        options.style.heading_font_size = Some(parse_u32(value)?);
    } else if str_eq(key, "text_color") {
        options.style.text_color = Some(parse_string(value));
    } else if str_eq(key, "heading_color") {
        options.style.heading_color = Some(parse_string(value));
    } else if str_eq(key, "link_color") {
        options.style.link_color = Some(parse_string(value));
    } else if str_eq(key, "paragraph_align") {
        let name = parse_string(value);
        options.style.paragraph_align = Some(parse_align(name.as_str())?);
    }
    Ok(())
}

fn apply_top_setting(options: &mut HwpxOptions, key: &str, value: &str) -> (r: Result<(), String>)
    ensures
        match spec_top_setting(fixture_view(*old(options), false), key@, value@) {
            Ok(st) => r is Ok && fixture_view(*final(options), false) == st,
            Err(m) => r matches Err(x) && x@ == m,
        },
{
    if str_eq(key, "title") {
        options.title = Some(parse_string(value));
    } else if str_eq(key, "author") {
        options.author = Some(parse_string(value));
    } else if str_eq(key, "strict_mode") {
        options.strict_mode = parse_bool(value)?;
    }
    Ok(())
}

/// The conversion options that a fixture's settings give: title, author and
/// strict mode at the top, style options in the `[style]` table; a number, a flag
/// or an alignment that does not read is an error.
pub fn read_fixture_options(contents: &str) -> (r: Result<HwpxOptions, String>)
    ensures
        match spec_fixture_lines(spec_lines(contents@)) {
            Ok(st) => r matches Ok(o) && fixture_view(o, st.in_style) == st,
            Err(m) => r matches Err(x) && x@ == m,
        },
{
    let lines = lines_of(contents);
    let ghost lv = strings_view(lines@);
    let mut options = HwpxOptions {
        title: None,
        author: None,
        strict_mode: true,
        style: HwpxStyleOptions {
            body_font: None,
            heading_font: None,
            body_font_size: None,
            heading_font_size: None,
            text_color: None,
            heading_color: None,
            link_color: None,
            paragraph_align: None,
        },
    };
    let mut in_style = false;
    let mut i: usize = 0;
    while i < lines.len()
        invariant
            i <= lines.len(),
            lv == strings_view(lines@),
            lv == spec_lines(contents@),
            spec_fixture_lines(lv.take(i as int)) == Ok::<FixtureV, Seq<char>>(fixture_view(options, in_style)),
        decreases lines.len() - i,
    {
        assert(lv.take(i + 1).drop_last() == lv.take(i as int));
        assert(lv.take(i + 1).last() == lines@[i as int]@);
        let l = trim(lines[i].as_str());
        let cs = chars_of(l.as_str());
        if cs.len() == 0 || cs[0] == '#' {
        } else if cs[0] == '[' && cs[cs.len() - 1] == ']' {
            in_style = str_eq(l.as_str(), "[style]");
        } else {
            match find_from(&cs, 0, '=') {
                None => {},
                Some(k) => {
                    proof { crate::parser::markdown::data_image::lemma_find_from_range(cs@, 0, '='); }
                    let key_raw = substring(&cs, 0, k);
                    let value_raw = substring(&cs, k + 1, cs.len());
                    assert(key_raw@ =~= l@.take(k as int));
                    assert(value_raw@ =~= l@.skip(k + 1));
                    let key = trim(key_raw.as_str());
                    let value = trim(value_raw.as_str());
                    let applied = if in_style {
                        apply_style_setting(&mut options, key.as_str(), value.as_str())
                    } else {
                        apply_top_setting(&mut options, key.as_str(), value.as_str())
                    };
                    match applied {
                        Ok(()) => {},
                        Err(m) => {
                            proof { lemma_fixture_err(lv, i + 1); }
                            assert(lv.take(lv.len() as int) == lv);
                            return Err(m);
                        },
                    }
                },
            }
        }
        i += 1;
    }
    assert(lv.take(lv.len() as int) == lv);
    Ok(options)
}

proof fn lemma_fixture_err(lines: Seq<Seq<char>>, k: int)
    requires
        0 <= k <= lines.len(),
        spec_fixture_lines(lines.take(k)) is Err,
    ensures
        spec_fixture_lines(lines) == spec_fixture_lines(lines.take(k)),
    decreases lines.len() - k,
{
    if k < lines.len() {
        assert(lines.take(k + 1).drop_last() == lines.take(k));
        lemma_fixture_err(lines, k + 1);
    } else {
        assert(lines.take(k) == lines);
    }
}

/// Whether a fixture's output must come out the same on every run: unless some
/// line reads `determinism = false`.
pub open spec fn spec_is_deterministic(contents: Seq<char>) -> bool {
    !exists|k: int| 0 <= k < spec_lines(contents).len() && spec_trim(#[trigger] spec_lines(contents)[k]) == "determinism = false"@
}

/// Whether a fixture's settings ask for deterministic output.
pub fn fixture_is_deterministic(config: &str) -> (b: bool)
    ensures
        b == spec_is_deterministic(config@),
{
    let lines = lines_of(config);
    let ghost lv = strings_view(lines@);
    let mut i: usize = 0;
    while i < lines.len()
        invariant
            i <= lines.len(),
            lv == strings_view(lines@),
            lv == spec_lines(config@),
            forall|k: int| 0 <= k < i ==> spec_trim(#[trigger] lv[k]) != "determinism = false"@,
        decreases lines.len() - i,
    {
        let t = trim(lines[i].as_str());
        assert(lv[i as int] == lines@[i as int]@);
        if str_eq(t.as_str(), "determinism = false") {
            return false;
        }
        i += 1;
    }
    true
}

/// The first line (trimmed) that sets `comparison_excludes`, if any.
pub open spec fn spec_excludes_line(lines: Seq<Seq<char>>) -> Option<Seq<char>>
    decreases lines.len(),
{
    if lines.len() == 0 {
        None
    } else if spec_starts_with(spec_trim(lines[0]), "comparison_excludes = ["@) {
        Some(spec_trim(lines[0]))
    } else {
        spec_excludes_line(lines.drop_first())
    }
}

proof fn lemma_excludes_line(lines: Seq<Seq<char>>)
    ensures
        spec_excludes_line(lines) matches Some(l) ==> spec_starts_with(l, "comparison_excludes = ["@),
    decreases lines.len(),
{
    if lines.len() > 0 && !spec_starts_with(spec_trim(lines[0]), "comparison_excludes = ["@) {
        lemma_excludes_line(lines.drop_first());
    }
}

/// A piece without the double quotes at either end.
pub open spec fn spec_strip_quotes(s: Seq<char>) -> Seq<char>
    decreases s.len(),
{
    if s.len() > 0 && s[0] == '"' {
        spec_strip_quotes(s.drop_first())
    } else if s.len() > 0 && s.last() == '"' {
        spec_strip_quotes(s.drop_last())
    } else {
        s
    }
}

/// The entry paths that the `comparison_excludes = [..]` setting lists: none
/// without the setting or with an empty list, an error where the line does not
/// end with `]`, else the comma-separated pieces trimmed and unquoted.
pub open spec fn spec_comparison_excludes(contents: Seq<char>) -> Result<Seq<Seq<char>>, Seq<char>> {
    match spec_excludes_line(spec_lines(contents)) {
        None => Ok(seq![]),
        Some(line) => {
            let rest = line.skip("comparison_excludes = ["@.len() as int);
            if rest.len() == 0 || rest.last() != ']' {
                Err("invalid comparison_excludes syntax"@)
            } else if spec_trim(rest.drop_last()).len() == 0 {
                Ok(seq![])
            } else {
                Ok(spec_split(rest.drop_last(), ',').map_values(|p: Seq<char>| spec_strip_quotes(spec_trim(p))))
            }
        },
    }
}

fn strip_quotes(s: &str) -> (r: String)
    ensures
        r@ == spec_strip_quotes(s@),
{
    let cs = chars_of(s);
    let mut a: usize = 0;
    let mut b: usize = cs.len();
    assert(cs@.subrange(0, cs@.len() as int) =~= s@);
    while a < b && cs[a] == '"'
        invariant
            a <= b <= cs@.len(),
            b == cs@.len(),
            cs@ == s@,
            spec_strip_quotes(s@) == spec_strip_quotes(cs@.subrange(a as int, b as int)),
        decreases b - a,
    {
        assert(cs@.subrange(a as int, b as int).drop_first() =~= cs@.subrange(a + 1, b as int));
        a += 1;
    }
    while a < b && cs[b - 1] == '"'
        invariant
            a <= b <= cs@.len(),
            cs@ == s@,
            a < b ==> cs@[a as int] != '"',
            spec_strip_quotes(s@) == spec_strip_quotes(cs@.subrange(a as int, b as int)),
        decreases b - a,
    {
        assert(cs@.subrange(a as int, b as int).drop_last() =~= cs@.subrange(a as int, b - 1));
        b -= 1;
    }
    substring(&cs, a, b)
}

fn excludes_line(lines: &Vec<String>) -> (r: Option<String>)
    ensures
        match spec_excludes_line(strings_view(lines@)) {
            Some(l) => r matches Some(x) && x@ == l,
            None => r is None,
        },
{
    let ghost lv = strings_view(lines@);
    let mut i: usize = 0;
    assert(lv.skip(0) =~= lv);
    while i < lines.len()
        invariant
            i <= lines.len(),
            lv == strings_view(lines@),
            spec_excludes_line(lv) == spec_excludes_line(lv.skip(i as int)),
        decreases lines.len() - i,
    {
        let t = trim(lines[i].as_str());
        assert(lv.skip(i as int)[0] == lines@[i as int]@);
        assert(lv.skip(i as int).drop_first() =~= lv.skip(i + 1));
        if starts_with(t.as_str(), "comparison_excludes = [") {
            return Some(t);
        }
        i += 1;
    }
    None
}

/// The entry paths that a fixture's settings exclude from comparison.
fn parse_comparison_excludes(contents: &str) -> (r: Result<Vec<String>, String>)
    ensures
        match spec_comparison_excludes(contents@) {
            Ok(v) => r matches Ok(x) && strings_view(x@) == v,
            Err(m) => r matches Err(x) && x@ == m,
        },
{
    let lines = lines_of(contents);
    let line = match excludes_line(&lines) {
        None => {
            let v: Vec<String> = Vec::new();
            assert(strings_view(v@) =~= Seq::<Seq<char>>::empty());
            return Ok(v);
        },
        Some(l) => l,
    };
    let cs = chars_of(line.as_str());
    let p = chars_of("comparison_excludes = [");
    proof {
        lemma_excludes_line(strings_view(lines@));
    }
    let rest = substring(&cs, p.len(), cs.len());
    assert(rest@ =~= line@.skip("comparison_excludes = ["@.len() as int));
    let rc = chars_of(rest.as_str());
    if rc.len() == 0 || rc[rc.len() - 1] != ']' {
        return Err(owned("invalid comparison_excludes syntax"));
    }
    let values = substring(&rc, 0, rc.len() - 1);
    assert(values@ =~= rest@.drop_last());
    let trimmed = trim(values.as_str());
    if chars_of(trimmed.as_str()).len() == 0 {
        let v: Vec<String> = Vec::new();
        assert(strings_view(v@) =~= Seq::<Seq<char>>::empty());
        return Ok(v);
    }
    let pieces = split_at_char(values.as_str(), ',');
    let ghost pv = args_view(pieces@);
    let mut out: Vec<String> = Vec::new();
    let mut i: usize = 0;
    while i < pieces.len()
        invariant
            i <= pieces.len(),
            pv == args_view(pieces@),
            strings_view(out@) == pv.take(i as int).map_values(|q: Seq<char>| spec_strip_quotes(spec_trim(q))),
        decreases pieces.len() - i,
    {
        let t = trim(pieces[i].as_str());
        let q = strip_quotes(t.as_str());
        let ghost before = out@;
        out.push(q);
        assert(pv[i as int] == pieces@[i as int]@);
        assert(strings_view(out@) =~= strings_view(before).push(spec_strip_quotes(spec_trim(pv[i as int]))));
        assert(pv.take(i + 1).map_values(|q: Seq<char>| spec_strip_quotes(spec_trim(q))) =~= pv.take(i as int).map_values(|q: Seq<char>| spec_strip_quotes(spec_trim(q))).push(spec_strip_quotes(spec_trim(pv[i as int]))));
        i += 1;
    }
    assert(pv.take(pv.len() as int) == pv);
    Ok(out)
}

/// The entries whose contents change from run to run.
pub open spec fn nondeterministic_excludes() -> Seq<Seq<char>> {
    seq!["Contents/content.hpf"@, "Preview/PrvImage.png"@, "version.xml"@]
}

/// Paths added in order, each unless it is there already.
pub open spec fn spec_add_unique(base: Seq<Seq<char>>, paths: Seq<Seq<char>>) -> Seq<Seq<char>>
    decreases paths.len(),
{
    if paths.len() == 0 {
        base
    } else {
        let before = spec_add_unique(base, paths.drop_last());
        if before.contains(paths.last()) {
            before
        } else {
            before.push(paths.last())
        }
    }
}

/// The entry paths that comparing a fixture's output skips: for a fixture that is
/// not deterministic, the entries that change from run to run; then the paths its
/// settings list, each once.
pub open spec fn spec_fixture_excludes(contents: Seq<char>) -> Result<Seq<Seq<char>>, Seq<char>> {
    match spec_comparison_excludes(contents) {
        Ok(listed) => Ok(spec_add_unique(
            if spec_is_deterministic(contents) { seq![] } else { nondeterministic_excludes() },
            listed,
        )),
        Err(m) => Err(m),
    }
}

fn contains_string(v: &Vec<String>, s: &str) -> (b: bool)
    ensures
        b == strings_view(v@).contains(s@),
{
    let mut i: usize = 0;
    while i < v.len()
        invariant
            i <= v.len(),
            forall|k: int| 0 <= k < i ==> v@[k]@ != s@,
        decreases v.len() - i,
    {
        if str_eq(v[i].as_str(), s) {
            assert(strings_view(v@)[i as int] == s@);
            return true;
        }
        i += 1;
    }
    assert forall|k: int| 0 <= k < strings_view(v@).len() implies strings_view(v@)[k] != s@ by {
        assert(strings_view(v@)[k] == v@[k]@);
    }
    false
}

/// The entry paths that comparing a fixture's output skips, from its settings.
pub fn comparison_excludes_for_fixture(config: &str) -> (r: Result<Vec<String>, String>)
    ensures
        match spec_fixture_excludes(config@) {
            Ok(v) => r matches Ok(x) && strings_view(x@) == v,
            Err(m) => r matches Err(x) && x@ == m,
        },
{
    let deterministic = fixture_is_deterministic(config);
    let listed = parse_comparison_excludes(config)?;
    let mut excludes: Vec<String> = Vec::new();
    if !deterministic {
        excludes.push(owned("Contents/content.hpf"));
        excludes.push(owned("Preview/PrvImage.png"));
        excludes.push(owned("version.xml"));
    }
    let ghost base = strings_view(excludes@);
    assert(base =~= if spec_is_deterministic(config@) { seq![] } else { nondeterministic_excludes() });
    let ghost lv = strings_view(listed@);
    let mut i: usize = 0;
    while i < listed.len()
        invariant
            i <= listed.len(),
            lv == strings_view(listed@),
            strings_view(excludes@) == spec_add_unique(base, lv.take(i as int)),
        decreases listed.len() - i,
    {
        assert(lv.take(i + 1).drop_last() == lv.take(i as int));
        assert(lv.take(i + 1).last() == listed@[i as int]@);
        if !contains_string(&excludes, listed[i].as_str()) {
            let ghost before = excludes@;
            excludes.push(listed[i].clone());
            assert(strings_view(excludes@) =~= strings_view(before).push(listed@[i as int]@));
        }
        i += 1;
    }
    assert(lv.take(lv.len() as int) == lv);
    Ok(excludes)
}

} // verus!
