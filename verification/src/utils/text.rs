//! Small string building blocks shared by the generators.
use vstd::prelude::*;

verus! {

/// Appends one character to a string.
///
/// Trusted: calls `String::push`, which appends the character at the end.
#[verifier::external_body]
pub fn push_char(s: &mut String, c: char)
    ensures
        final(s)@ == old(s)@.push(c),
{
    s.push(c);
}

/// The ASCII digit for a value below ten.
pub open spec fn digit_char(d: nat) -> char {
    ((48 + d) as u8) as char
}

/// The decimal representation of a natural number, without leading zeros.
pub open spec fn decimal(n: nat) -> Seq<char>
    decreases n,
{
    if n < 10 {
        seq![digit_char(n)]
    } else {
        decimal(n / 10).push(digit_char(n % 10))
    }
}

/// The decimal rendering of `n`.
pub fn decimal_string(n: u64) -> (s: String)
    ensures
        s@ == decimal(n as nat),
    decreases n,
{
    if n < 10 {
        let mut s = String::new();
        push_char(&mut s, ((48 + n) as u8) as char);
        s
    } else {
        let mut s = decimal_string(n / 10);
        let d = n % 10;
        push_char(&mut s, ((48 + d) as u8) as char);
        s
    }
}

/// The decimal representation of an integer, with a minus sign when negative.
pub open spec fn signed_decimal(i: int) -> Seq<char> {
    if i < 0 {
        seq!['-'] + decimal((-i) as nat)
    } else {
        decimal(i as nat)
    }
}

/// The decimal rendering of a signed integer.
pub fn signed_decimal_string(i: i64) -> (s: String)
    ensures
        s@ == signed_decimal(i as int),
{
    if i < 0 {
        let magnitude: u64 = (0i128 - i as i128) as u64;
        let mut s = String::new();
        push_char(&mut s, '-');
        let digits = decimal_string(magnitude);
        s.append(digits.as_str());
        s
    } else {
        decimal_string(i as u64)
    }
}

/// The characters of a string slice, in order.
pub fn chars_of(s: &str) -> (v: Vec<char>)
    ensures
        v@ == s@,
{
    let mut v: Vec<char> = Vec::new();
    let ghost cs = s@;
    for c in it: s.chars()
        invariant
            it.seq() == cs,
            v@ == cs.take(it.index() as int),
    {
        v.push(c);
        assert(v@ == cs.take(it.index() + 1));
    }
    assert(cs.take(cs.len() as int) == cs);
    v
}

/// A string holding the given characters.
pub fn string_of(cs: &[char]) -> (s: String)
    ensures
        s@ == cs@,
{
    let mut s = String::new();
    let mut i: usize = 0;
    while i < cs.len()
        invariant
            i <= cs.len(),
            s@ == cs@.take(i as int),
        decreases cs.len() - i,
    {
        push_char(&mut s, cs[i]);
        i += 1;
        assert(s@ == cs@.take(i as int));
    }
    assert(cs@.take(cs@.len() as int) == cs@);
    s
}

/// A copy of a string slice.
pub fn owned(s: &str) -> (r: String)
    ensures
        r@ == s@,
{
    String::from_str(s)
}

pub open spec fn spec_starts_with(s: Seq<char>, p: Seq<char>) -> bool {
    p.len() <= s.len() && s.subrange(0, p.len() as int) == p
}

pub open spec fn spec_ends_with(s: Seq<char>, p: Seq<char>) -> bool {
    p.len() <= s.len() && s.subrange(s.len() - p.len(), s.len() as int) == p
}

pub open spec fn occurs_at(s: Seq<char>, n: Seq<char>, i: int) -> bool {
    0 <= i && i + n.len() <= s.len() && s.subrange(i, i + n.len()) == n
}

pub open spec fn spec_contains(s: Seq<char>, n: Seq<char>) -> bool {
    exists|i: int| #[trigger] occurs_at(s, n, i)
}

/// Whether `n` occurs in `s` at position `i` (character indices).
pub fn matches_at(s: &[char], n: &[char], i: usize) -> (b: bool)
    ensures
        b == occurs_at(s@, n@, i as int),
{
    if i > s.len() || n.len() > s.len() - i {
        return false;
    }
    let mut k: usize = 0;
    while k < n.len()
        invariant
            i + n.len() <= s.len(),
            k <= n.len(),
            forall|j: int| 0 <= j < k ==> s@[i + j] == n@[j],
        decreases n.len() - k,
    {
        if s[i + k] != n[k] {
            assert(s@.subrange(i as int, i + n.len())[k as int] != n@[k as int]);
            return false;
        }
        k += 1;
    }
    assert(s@.subrange(i as int, i + n.len()) =~= n@);
    true
}

/// Whether two strings hold the same characters.
pub fn str_eq(a: &str, b: &str) -> (r: bool)
    ensures
        r == (a@ == b@),
{
    let x = chars_of(a);
    let y = chars_of(b);
    if x.len() != y.len() {
        return false;
    }
    let r = matches_at(&x, &y, 0);
    assert(r ==> x@.subrange(0, y@.len() as int) == y@);
    assert(x@.subrange(0, x@.len() as int) == x@);
    r
}

/// Whether `s` begins with `p`.
pub fn starts_with(s: &str, p: &str) -> (r: bool)
    ensures
        r == spec_starts_with(s@, p@),
{
    let x = chars_of(s);
    let y = chars_of(p);
    matches_at(&x, &y, 0)
}

/// Whether `s` ends with `p`.
pub fn ends_with(s: &str, p: &str) -> (r: bool)
    ensures
        r == spec_ends_with(s@, p@),
{
    let x = chars_of(s);
    let y = chars_of(p);
    if y.len() > x.len() {
        return false;
    }
    matches_at(&x, &y, x.len() - y.len())
}

/// Whether `n` occurs somewhere in `s`.
pub fn contains(s: &str, n: &str) -> (r: bool)
    ensures
        r == spec_contains(s@, n@),
{
    let x = chars_of(s);
    let y = chars_of(n);
    if y.len() > x.len() {
        assert forall|i: int| !occurs_at(s@, n@, i) by {}
        return false;
    }
    let last = x.len() - y.len();
    let mut i: usize = 0;
    loop
        invariant
            y.len() <= x.len(),
            last == x.len() - y.len(),
            i <= last,
            x@ == s@,
            y@ == n@,
            forall|j: int| 0 <= j < i ==> !occurs_at(s@, n@, j),
        ensures
            forall|j: int| 0 <= j <= last ==> !occurs_at(s@, n@, j),
        decreases last - i,
    {
        if matches_at(&x, &y, i) {
            return true;
        }
        if i == last {
            break;
        }
        i += 1;
    }
    assert forall|j: int| !occurs_at(s@, n@, j) by {
        if 0 <= j && j + n@.len() <= s@.len() {
            assert(j <= last);
        }
    }
    false
}

/// Whether a character has the Unicode `White_Space` property.
pub open spec fn spec_is_whitespace(c: char) -> bool {
    let v = c as u32;
    (0x9 <= v && v <= 0xD) || v == 0x20 || v == 0x85 || v == 0xA0 || v == 0x1680 || (0x2000 <= v
        && v <= 0x200A) || v == 0x2028 || v == 0x2029 || v == 0x202F || v == 0x205F || v == 0x3000
}

/// Whether a character has the Unicode `White_Space` property (as `char::is_whitespace`).
pub fn is_whitespace(c: char) -> (b: bool)
    ensures
        b == spec_is_whitespace(c),
{
    let v = c as u32;
    (0x9 <= v && v <= 0xD) || v == 0x20 || v == 0x85 || v == 0xA0 || v == 0x1680 || (0x2000 <= v
        && v <= 0x200A) || v == 0x2028 || v == 0x2029 || v == 0x202F || v == 0x205F || v == 0x3000
}

/// The text without its trailing whitespace.
pub open spec fn spec_trim_end(s: Seq<char>) -> Seq<char>
    decreases s.len(),
{
    if s.len() > 0 && spec_is_whitespace(s.last()) {
        spec_trim_end(s.drop_last())
    } else {
        s
    }
}

/// The text without its leading whitespace.
pub open spec fn spec_trim_start(s: Seq<char>) -> Seq<char>
    decreases s.len(),
{
    if s.len() > 0 && spec_is_whitespace(s[0]) {
        spec_trim_start(s.drop_first())
    } else {
        s
    }
}

/// The text without leading and trailing whitespace.
pub open spec fn spec_trim(s: Seq<char>) -> Seq<char> {
    spec_trim_start(spec_trim_end(s))
}

proof fn lemma_trim_end_prefix(s: Seq<char>, n: int)
    requires
        0 <= n <= s.len(),
        forall|j: int| n <= j < s.len() ==> spec_is_whitespace(s[j]),
    ensures
        spec_trim_end(s) == spec_trim_end(s.take(n)),
    decreases s.len() - n,
{
    if n < s.len() {
        assert(s.drop_last().take(n) == s.take(n));
        lemma_trim_end_prefix(s.drop_last(), n);
    } else {
        assert(s.take(n) == s);
    }
}

proof fn lemma_trim_start_suffix(s: Seq<char>, n: int)
    requires
        0 <= n <= s.len(),
        forall|j: int| 0 <= j < n ==> spec_is_whitespace(s[j]),
    ensures
        spec_trim_start(s) == spec_trim_start(s.skip(n)),
    decreases n,
{
    if n > 0 {
        assert(s.drop_first().skip(n - 1) == s.skip(n));
        lemma_trim_start_suffix(s.drop_first(), n - 1);
    } else {
        assert(s.skip(0) == s);
    }
}

/// The characters from `from` (inclusive) to `to` (exclusive) as a string.
pub fn substring(cs: &Vec<char>, from: usize, to: usize) -> (s: String)
    requires
        from <= to <= cs.len(),
    ensures
        s@ == cs@.subrange(from as int, to as int),
{
    let mut s = String::new();
    let mut i = from;
    while i < to
        invariant
            from <= i <= to <= cs.len(),
            s@ == cs@.subrange(from as int, i as int),
        decreases to - i,
    {
        push_char(&mut s, cs[i]);
        i += 1;
        assert(s@ == cs@.subrange(from as int, i as int));
    }
    s
}

/// The text without trailing whitespace (as `str::trim_end`).
pub fn trim_end(s: &str) -> (r: String)
    ensures
        r@ == spec_trim_end(s@),
{
    let cs = chars_of(s);
    let mut n = cs.len();
    while n > 0 && is_whitespace(cs[n - 1])
        invariant
            n <= cs.len(),
            cs@ == s@,
            forall|j: int| n <= j < cs.len() ==> spec_is_whitespace(cs@[j]),
        decreases n,
    {
        n -= 1;
    }
    proof {
        lemma_trim_end_prefix(s@, n as int);
        if n > 0 {
            assert(s@.take(n as int).last() == s@[n - 1]);
        }
    }
    substring(&cs, 0, n)
}

/// The text without leading and trailing whitespace (as `str::trim`).
pub fn trim(s: &str) -> (r: String)
    ensures
        r@ == spec_trim(s@),
{
    let t = trim_end(s);
    let cs = chars_of(t.as_str());
    let mut n: usize = 0;
    while n < cs.len() && is_whitespace(cs[n])
        invariant
            n <= cs.len(),
            cs@ == t@,
            forall|j: int| 0 <= j < n ==> spec_is_whitespace(cs@[j]),
        decreases cs.len() - n,
    {
        n += 1;
    }
    proof {
        lemma_trim_start_suffix(t@, n as int);
        if n < cs.len() {
            assert(t@.skip(n as int)[0] == t@[n as int]);
        }
        assert(t@.skip(n as int) == t@.subrange(n as int, t@.len() as int));
    }
    substring(&cs, n, cs.len())
}

/// ASCII lower-casing of one character (as `char::to_ascii_lowercase`).
pub open spec fn spec_ascii_lower_char(c: char) -> char {
    if 'A' <= c && c <= 'Z' {
        ((c as u32) + 32) as char
    } else {
        c
    }
}

/// ASCII lower-casing of a text (as `str::to_ascii_lowercase`).
pub open spec fn spec_ascii_lower(s: Seq<char>) -> Seq<char> {
    s.map_values(|c: char| spec_ascii_lower_char(c))
}

pub fn ascii_lower_char(c: char) -> (r: char)
    ensures
        r == spec_ascii_lower_char(c),
{
    if 'A' <= c && c <= 'Z' {
        (((c as u32) + 32) as u8) as char
    } else {
        c
    }
}

/// ASCII lower-casing of the characters `from..to`.
pub fn ascii_lower_range(cs: &Vec<char>, from: usize, to: usize) -> (r: Vec<char>)
    requires
        from <= to <= cs.len(),
    ensures
        r@ == spec_ascii_lower(cs@.subrange(from as int, to as int)),
{
    let mut r: Vec<char> = Vec::new();
    let mut i = from;
    while i < to
        invariant
            from <= i <= to <= cs.len(),
            r@ == spec_ascii_lower(cs@.subrange(from as int, i as int)),
        decreases to - i,
    {
        r.push(ascii_lower_char(cs[i]));
        i += 1;
        assert(r@ =~= spec_ascii_lower(cs@.subrange(from as int, i as int)));
    }
    r
}

/// The first index at or after `from` that holds `c`.
pub open spec fn spec_find_from(s: Seq<char>, from: int, c: char) -> Option<int>
    decreases s.len() - from,
{
    if from < 0 || from >= s.len() {
        None
    } else if s[from] == c {
        Some(from)
    } else {
        spec_find_from(s, from + 1, c)
    }
}

/// The first index at or after `from` that holds `c`.
pub fn find_from(cs: &Vec<char>, from: usize, c: char) -> (r: Option<usize>)
    ensures
        match spec_find_from(cs@, from as int, c) {
            Some(k) => r == Some(k as usize),
            None => r is None,
        },
{
    let mut i = from;
    while i < cs.len()
        invariant
            from <= i,
            spec_find_from(cs@, from as int, c) == spec_find_from(cs@, i as int, c),
        decreases cs.len() - i,
    {
        if cs[i] == c {
            return Some(i);
        }
        i += 1;
    }
    None
}

/// The number of bytes of the UTF-8 encoding of a character.
pub open spec fn spec_utf8_width(c: char) -> nat {
    let v = c as u32;
    if v < 0x80 {
        1
    } else if v < 0x800 {
        2
    } else if v < 0x10000 {
        3
    } else {
        4
    }
}

/// The number of bytes of the UTF-8 encoding of a text.
pub open spec fn spec_utf8_len(s: Seq<char>) -> nat
    decreases s.len(),
{
    if s.len() == 0 {
        0
    } else {
        spec_utf8_len(s.drop_last()) + spec_utf8_width(s.last())
    }
}

/// The number of bytes of the UTF-8 encoding of the characters `from..to`,
/// capped at `usize::MAX`.
pub fn utf8_len_range(cs: &Vec<char>, from: usize, to: usize) -> (n: usize)
    requires
        from <= to <= cs.len(),
    ensures
        n == if spec_utf8_len(cs@.subrange(from as int, to as int)) > usize::MAX {
            usize::MAX as nat
        } else {
            spec_utf8_len(cs@.subrange(from as int, to as int))
        },
{
    let mut n: usize = 0;
    let mut i = from;
    while i < to
        invariant
            from <= i <= to <= cs.len(),
            n == if spec_utf8_len(cs@.subrange(from as int, i as int)) > usize::MAX {
                usize::MAX as nat
            } else {
                spec_utf8_len(cs@.subrange(from as int, i as int))
            },
        decreases to - i,
    {
        let v = cs[i] as u32;
        let w: usize = if v < 0x80 {
            1
        } else if v < 0x800 {
            2
        } else if v < 0x10000 {
            3
        } else {
            4
        };
        assert(cs@.subrange(from as int, i + 1).drop_last() == cs@.subrange(from as int, i as int));
        n = n.saturating_add(w);
        i += 1;
    }
    n
}

/// Whether a character vector holds exactly the characters of a string.
pub fn chars_eq(v: &Vec<char>, s: &str) -> (b: bool)
    ensures
        b == (v@ == s@),
{
    let n = chars_of(s);
    if v.len() != n.len() {
        return false;
    }
    let r = matches_at(v, &n, 0);
    assert(v@.subrange(0, n@.len() as int) == v@);
    r
}

/// Strict lexicographic order on character sequences (the order of `str`'s `Ord`,
/// which compares UTF-8 bytes and so code points).
pub open spec fn lex_lt(a: Seq<char>, b: Seq<char>) -> bool
    decreases a.len(),
{
    if a.len() == 0 {
        b.len() > 0
    } else if b.len() == 0 {
        false
    } else if a[0] != b[0] {
        a[0] < b[0]
    } else {
        lex_lt(a.drop_first(), b.drop_first())
    }
}

/// No two sequences each sort before the other.
pub proof fn lemma_lex_asym(a: Seq<char>, b: Seq<char>)
    ensures
        !(lex_lt(a, b) && lex_lt(b, a)),
    decreases a.len(),
{
    if a.len() > 0 && b.len() > 0 && a[0] == b[0] {
        lemma_lex_asym(a.drop_first(), b.drop_first());
    }
}

/// The order is transitive.
pub proof fn lemma_lex_trans(a: Seq<char>, b: Seq<char>, c: Seq<char>)
    requires
        lex_lt(a, b),
        lex_lt(b, c),
    ensures
        lex_lt(a, c),
    decreases a.len(),
{
    if a.len() > 0 && b.len() > 0 && c.len() > 0 && a[0] == b[0] && b[0] == c[0] {
        lemma_lex_trans(a.drop_first(), b.drop_first(), c.drop_first());
    }
}

/// Of two different sequences one sorts before the other.
pub proof fn lemma_lex_total(a: Seq<char>, b: Seq<char>)
    ensures
        lex_lt(a, b) || lex_lt(b, a) || a == b,
    decreases a.len(),
{
    if a.len() > 0 && b.len() > 0 && a[0] == b[0] {
        lemma_lex_total(a.drop_first(), b.drop_first());
        if a.drop_first() == b.drop_first() {
            assert(a =~= seq![a[0]] + a.drop_first());
            assert(b =~= seq![b[0]] + b.drop_first());
        }
    } else if a.len() == 0 && b.len() == 0 {
        assert(a =~= b);
    } else if a.len() > 0 && b.len() > 0 && a[0] != b[0] {

    }
}

/// Whether `a` sorts strictly before `b`.
pub fn str_lt(a: &str, b: &str) -> (r: bool)
    ensures
        r == lex_lt(a@, b@),
{
    let x = chars_of(a);
    let y = chars_of(b);
    let mut i: usize = 0;
    assert(a@.skip(0) == a@);
    assert(b@.skip(0) == b@);
    while i < x.len() && i < y.len() && x[i] == y[i]
        invariant
            i <= x.len(),
            i <= y.len(),
            x@ == a@,
            y@ == b@,
            lex_lt(a@, b@) == lex_lt(a@.skip(i as int), b@.skip(i as int)),
        decreases x.len() - i,
    {
        assert(a@.skip(i as int).drop_first() == a@.skip(i + 1));
        assert(b@.skip(i as int).drop_first() == b@.skip(i + 1));
        i += 1;
    }
    if i == x.len() {
        i < y.len()
    } else if i == y.len() {
        false
    } else {
        x[i] < y[i]
    }
}

/// Repeatedly removes a prefix.
pub open spec fn spec_trim_start_matches(s: Seq<char>, p: Seq<char>) -> Seq<char>
    decreases s.len(),
{
    if p.len() > 0 && spec_starts_with(s, p) {
        spec_trim_start_matches(s.skip(p.len() as int), p)
    } else {
        s
    }
}

/// Repeatedly removes a prefix.
pub fn trim_start_matches(s: &str, p: &str) -> (r: String)
    ensures
        r@ == spec_trim_start_matches(s@, p@),
{
    let cs = chars_of(s);
    let ps = chars_of(p);
    let mut i: usize = 0;
    assert(s@.skip(0) == s@);
    while ps.len() > 0 && i <= cs.len() && ps.len() <= cs.len() - i && matches_at(&cs, &ps, i)
        invariant
            i <= cs.len(),
            cs@ == s@,
            ps@ == p@,
            spec_trim_start_matches(s@, p@) == spec_trim_start_matches(s@.skip(i as int), p@),
        decreases cs.len() - i,
    {
        assert(s@.skip(i as int).subrange(0, p@.len() as int) == s@.subrange(i as int, i + p@.len()));
        assert(s@.skip(i as int).skip(p@.len() as int) == s@.skip(i + p@.len()));
        i += ps.len();
    }
    proof {
        if p@.len() > 0 && i + p@.len() <= s@.len() {
            assert(s@.skip(i as int).subrange(0, p@.len() as int) == s@.subrange(i as int, i + p@.len()));
        }
    }
    let r = substring(&cs, i, cs.len());
    assert(s@.subrange(i as int, s@.len() as int) == s@.skip(i as int));
    r
}

/// Every occurrence of `from` replaced by `to`, scanning left to right without
/// overlaps. An empty pattern leaves the text as it is.
pub open spec fn spec_replace(s: Seq<char>, from: Seq<char>, to: Seq<char>) -> Seq<char>
    decreases s.len(),
{
    if from.len() == 0 || s.len() < from.len() {
        s
    } else if s.take(from.len() as int) == from {
        to + spec_replace(s.skip(from.len() as int), from, to)
    } else {
        seq![s[0]] + spec_replace(s.skip(1), from, to)
    }
}

proof fn lemma_replace_short(s: Seq<char>, from: Seq<char>, to: Seq<char>)
    requires
        from.len() > 0,
        0 < s.len() < from.len(),
    ensures
        spec_replace(s, from, to) == seq![s[0]] + spec_replace(s.skip(1), from, to),
{
    assert(s =~= seq![s[0]] + s.skip(1));
}

/// The text with every occurrence of `from` replaced by `to`.
pub fn replace_all(s: &str, from: &str, to: &str) -> (r: String)
    ensures
        r@ == spec_replace(s@, from@, to@),
{
    let cs = chars_of(s);
    let fs = chars_of(from);
    if fs.len() == 0 {
        return owned(s);
    }
    let ghost whole = s@;
    let mut out = String::new();
    let mut i: usize = 0;
    assert(whole.skip(0) =~= whole);
    assert(out@ + spec_replace(whole, from@, to@) =~= spec_replace(whole, from@, to@));
    while i < cs.len()
        invariant
            cs@ == whole,
            fs@ == from@,
            fs@.len() > 0,
            i <= cs@.len(),
            out@ + spec_replace(whole.skip(i as int), from@, to@) == spec_replace(whole, from@, to@),
        decreases cs@.len() - i,
    {
        let ghost rest = whole.skip(i as int);
        if matches_at(cs.as_slice(), fs.as_slice(), i) {
            assert(rest.take(fs@.len() as int) =~= whole.subrange(i as int, i + fs@.len()));
            assert(rest.skip(fs@.len() as int) =~= whole.skip(i + fs@.len()));
            out.append(to);
            i += fs.len();
        } else {
            proof {
                if rest.len() < from@.len() {
                    lemma_replace_short(rest, from@, to@);
                } else {
                    assert(rest.take(fs@.len() as int) =~= whole.subrange(i as int, i + fs@.len()));
                }
            }
            assert(rest.skip(1) =~= whole.skip(i + 1));
            push_char(&mut out, cs[i]);
            i += 1;
        }
    }
    assert(whole.skip(i as int) =~= seq![]);
    out
}

/// The first position at or after `i` where `p` occurs in `s`, if any.
pub open spec fn spec_find_at(s: Seq<char>, p: Seq<char>, i: int) -> Option<int>
    decreases s.len() + 1 - i,
{
    if i < 0 || i + p.len() > s.len() {
        None
    } else if occurs_at(s, p, i) {
        Some(i)
    } else {
        spec_find_at(s, p, i + 1)
    }
}

/// Where `p` first occurs in `cs` at or after `from` (as `str::find` on the tail).
pub fn find_at(cs: &Vec<char>, p: &Vec<char>, from: usize) -> (r: Option<usize>)
    ensures
        match r {
            Some(k) => spec_find_at(cs@, p@, from as int) == Some(k as int),
            None => spec_find_at(cs@, p@, from as int) is None,
        },
{
    if from > cs.len() || p.len() > cs.len() - from {
        return None;
    }
    if p.len() == 0 {
        assert(cs@.subrange(from as int, from as int) =~= p@);
        return Some(from);
    }
    let mut i = from;
    while p.len() <= cs.len() - i
        invariant
            from <= i <= cs.len(),
            p@.len() > 0,
            spec_find_at(cs@, p@, from as int) == spec_find_at(cs@, p@, i as int),
        decreases cs.len() - i,
    {
        if matches_at(cs.as_slice(), p.as_slice(), i) {
            return Some(i);
        }
        i += 1;
    }
    None
}

/// A position that `spec_find_at` gives is an occurrence at or after where the
/// search starts.
pub proof fn lemma_find_at(s: Seq<char>, p: Seq<char>, i: int)
    ensures
        match spec_find_at(s, p, i) {
            Some(r) => i <= r && occurs_at(s, p, r),
            None => true,
        },
    decreases s.len() + 1 - i,
{
    if i < 0 || i + p.len() > s.len() {
    } else if occurs_at(s, p, i) {
    } else {
        lemma_find_at(s, p, i + 1);
    }
}

/// The first occurrence of `from` replaced by `to` (as `str::replacen` with a count of one).
pub open spec fn spec_replace_first(s: Seq<char>, from: Seq<char>, to: Seq<char>) -> Seq<char> {
    match spec_find_at(s, from, 0) {
        Some(i) => s.take(i) + to + s.skip(i + from.len()),
        None => s,
    }
}

/// The text with its first occurrence of `from` replaced by `to`.
pub fn replace_first(s: &str, from: &str, to: &str) -> (r: String)
    ensures
        r@ == spec_replace_first(s@, from@, to@),
{
    let cs = chars_of(s);
    let fs = chars_of(from);
    proof { lemma_find_at(s@, from@, 0); }
    match find_at(&cs, &fs, 0) {
        Some(i) => {
            assert(spec_find_at(s@, from@, 0) == Some(i as int));
            assert(occurs_at(s@, from@, i as int));
            let n = cs.len();
            assert(i + fs@.len() <= n);
            let end = i + fs.len();
            let mut r = substring(&cs, 0, i);
            r.append(to);
            let rest = substring(&cs, end, cs.len());
            r.append(rest.as_str());
            assert(cs@.subrange(0, i as int) =~= s@.take(i as int));
            assert(cs@.subrange(i + fs@.len(), cs@.len() as int) =~= s@.skip(i + from@.len()));
            r
        },
        None => owned(s),
    }
}

/// Appends the decimal rendering of `n`.
pub fn append_decimal(s: &mut String, n: u64)
    ensures
        final(s)@ == old(s)@ + decimal(n as nat),
{
    let digits = decimal_string(n);
    s.append(digits.as_str());
}

/// Appends `text` where `cond` holds.
pub fn append_if(s: &mut String, cond: bool, text: &str)
    ensures
        final(s)@ == old(s)@ + (if cond { text@ } else { seq![] }),
{
    if cond {
        s.append(text);
    } else {
        assert(s@ =~= old(s)@ + seq![]);
    }
}

} // verus!
