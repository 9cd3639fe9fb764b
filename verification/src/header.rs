//! The grammar of check-utxo headers:
//! `#[` spaces `checkInUtxo(` name `,` spaces count (`,` spaces instruction)? `)` spaces `]`
//! where name and instruction are identifiers (`[a-zA-Z_][a-zA-Z0-9_]*`), the
//! count is a run of Unicode decimal digits, and spaces are Unicode white space.
use crate::text::{chars_of, is_white_space, is_whitespace_char, occurs_at, occurs_at_exec, starts_with, starts_with_str, sub_vec};
use vstd::prelude::*;

verus! {

/// The Unicode `Nd` (decimal number) category, which the `\d` class of
/// regular expressions matches.
pub open spec fn is_decimal_digit(c: char) -> bool {
    let u = c as u32;
    (0x30 <= u && u <= 0x39) || (0x660 <= u && u <= 0x669) || (0x6F0 <= u && u <= 0x6F9) || (0x7C0
        <= u && u <= 0x7C9) || (0x966 <= u && u <= 0x96F) || (0x9E6 <= u && u <= 0x9EF) || (0xA66
        <= u && u <= 0xA6F) || (0xAE6 <= u && u <= 0xAEF) || (0xB66 <= u && u <= 0xB6F) || (0xBE6
        <= u && u <= 0xBEF) || (0xC66 <= u && u <= 0xC6F) || (0xCE6 <= u && u <= 0xCEF) || (0xD66
        <= u && u <= 0xD6F) || (0xDE6 <= u && u <= 0xDEF) || (0xE50 <= u && u <= 0xE59) || (0xED0
        <= u && u <= 0xED9) || (0xF20 <= u && u <= 0xF29) || (0x1040 <= u && u <= 0x1049) || (0x1090
        <= u && u <= 0x1099) || (0x17E0 <= u && u <= 0x17E9) || (0x1810 <= u && u <= 0x1819) || (
    0x1946 <= u && u <= 0x194F) || (0x19D0 <= u && u <= 0x19D9) || (0x1A80 <= u && u <= 0x1A89) || (
    0x1A90 <= u && u <= 0x1A99) || (0x1B50 <= u && u <= 0x1B59) || (0x1BB0 <= u && u <= 0x1BB9) || (
    0x1C40 <= u && u <= 0x1C49) || (0x1C50 <= u && u <= 0x1C59) || (0xA620 <= u && u <= 0xA629) || (
    0xA8D0 <= u && u <= 0xA8D9) || (0xA900 <= u && u <= 0xA909) || (0xA9D0 <= u && u <= 0xA9D9) || (
    0xA9F0 <= u && u <= 0xA9F9) || (0xAA50 <= u && u <= 0xAA59) || (0xABF0 <= u && u <= 0xABF9) || (
    0xFF10 <= u && u <= 0xFF19) || (0x104A0 <= u && u <= 0x104A9) || (0x10D30 <= u && u <= 0x10D39)
        || (0x10D40 <= u && u <= 0x10D49) || (0x11066 <= u && u <= 0x1106F) || (0x110F0 <= u && u
        <= 0x110F9) || (0x11136 <= u && u <= 0x1113F) || (0x111D0 <= u && u <= 0x111D9) || (0x112F0
        <= u && u <= 0x112F9) || (0x11450 <= u && u <= 0x11459) || (0x114D0 <= u && u <= 0x114D9)
        || (0x11650 <= u && u <= 0x11659) || (0x116C0 <= u && u <= 0x116C9) || (0x116D0 <= u && u
        <= 0x116E3) || (0x11730 <= u && u <= 0x11739) || (0x118E0 <= u && u <= 0x118E9) || (0x11950
        <= u && u <= 0x11959) || (0x11BF0 <= u && u <= 0x11BF9) || (0x11C50 <= u && u <= 0x11C59)
        || (0x11D50 <= u && u <= 0x11D59) || (0x11DA0 <= u && u <= 0x11DA9) || (0x11F50 <= u && u
        <= 0x11F59) || (0x16130 <= u && u <= 0x16139) || (0x16A60 <= u && u <= 0x16A69) || (0x16AC0
        <= u && u <= 0x16AC9) || (0x16B50 <= u && u <= 0x16B59) || (0x16D70 <= u && u <= 0x16D79)
        || (0x1CCF0 <= u && u <= 0x1CCF9) || (0x1D7CE <= u && u <= 0x1D7FF) || (0x1E140 <= u && u
        <= 0x1E149) || (0x1E2F0 <= u && u <= 0x1E2F9) || (0x1E4F0 <= u && u <= 0x1E4F9) || (0x1E5F1
        <= u && u <= 0x1E5FA) || (0x1E950 <= u && u <= 0x1E959) || (0x1FBF0 <= u && u <= 0x1FBF9)
}

pub fn is_decimal_digit_char(c: char) -> (r: bool)
    ensures
        r == is_decimal_digit(c),
{
    let u = c as u32;
    (0x30 <= u && u <= 0x39) || (0x660 <= u && u <= 0x669) || (0x6F0 <= u && u <= 0x6F9) || (0x7C0
        <= u && u <= 0x7C9) || (0x966 <= u && u <= 0x96F) || (0x9E6 <= u && u <= 0x9EF) || (0xA66
        <= u && u <= 0xA6F) || (0xAE6 <= u && u <= 0xAEF) || (0xB66 <= u && u <= 0xB6F) || (0xBE6
        <= u && u <= 0xBEF) || (0xC66 <= u && u <= 0xC6F) || (0xCE6 <= u && u <= 0xCEF) || (0xD66
        <= u && u <= 0xD6F) || (0xDE6 <= u && u <= 0xDEF) || (0xE50 <= u && u <= 0xE59) || (0xED0
        <= u && u <= 0xED9) || (0xF20 <= u && u <= 0xF29) || (0x1040 <= u && u <= 0x1049) || (0x1090
        <= u && u <= 0x1099) || (0x17E0 <= u && u <= 0x17E9) || (0x1810 <= u && u <= 0x1819) || (
    0x1946 <= u && u <= 0x194F) || (0x19D0 <= u && u <= 0x19D9) || (0x1A80 <= u && u <= 0x1A89) || (
    0x1A90 <= u && u <= 0x1A99) || (0x1B50 <= u && u <= 0x1B59) || (0x1BB0 <= u && u <= 0x1BB9) || (
    0x1C40 <= u && u <= 0x1C49) || (0x1C50 <= u && u <= 0x1C59) || (0xA620 <= u && u <= 0xA629) || (
    0xA8D0 <= u && u <= 0xA8D9) || (0xA900 <= u && u <= 0xA909) || (0xA9D0 <= u && u <= 0xA9D9) || (
    0xA9F0 <= u && u <= 0xA9F9) || (0xAA50 <= u && u <= 0xAA59) || (0xABF0 <= u && u <= 0xABF9) || (
    0xFF10 <= u && u <= 0xFF19) || (0x104A0 <= u && u <= 0x104A9) || (0x10D30 <= u && u <= 0x10D39)
        || (0x10D40 <= u && u <= 0x10D49) || (0x11066 <= u && u <= 0x1106F) || (0x110F0 <= u && u
        <= 0x110F9) || (0x11136 <= u && u <= 0x1113F) || (0x111D0 <= u && u <= 0x111D9) || (0x112F0
        <= u && u <= 0x112F9) || (0x11450 <= u && u <= 0x11459) || (0x114D0 <= u && u <= 0x114D9)
        || (0x11650 <= u && u <= 0x11659) || (0x116C0 <= u && u <= 0x116C9) || (0x116D0 <= u && u
        <= 0x116E3) || (0x11730 <= u && u <= 0x11739) || (0x118E0 <= u && u <= 0x118E9) || (0x11950
        <= u && u <= 0x11959) || (0x11BF0 <= u && u <= 0x11BF9) || (0x11C50 <= u && u <= 0x11C59)
        || (0x11D50 <= u && u <= 0x11D59) || (0x11DA0 <= u && u <= 0x11DA9) || (0x11F50 <= u && u
        <= 0x11F59) || (0x16130 <= u && u <= 0x16139) || (0x16A60 <= u && u <= 0x16A69) || (0x16AC0
        <= u && u <= 0x16AC9) || (0x16B50 <= u && u <= 0x16B59) || (0x16D70 <= u && u <= 0x16D79)
        || (0x1CCF0 <= u && u <= 0x1CCF9) || (0x1D7CE <= u && u <= 0x1D7FF) || (0x1E140 <= u && u
        <= 0x1E149) || (0x1E2F0 <= u && u <= 0x1E2F9) || (0x1E4F0 <= u && u <= 0x1E4F9) || (0x1E5F1
        <= u && u <= 0x1E5FA) || (0x1E950 <= u && u <= 0x1E959) || (0x1FBF0 <= u && u <= 0x1FBF9)
}

/// `[a-zA-Z_]`
pub open spec fn is_ident_start(c: char) -> bool {
    let u = c as u32;
    (0x61 <= u && u <= 0x7A) || (0x41 <= u && u <= 0x5A) || u == 0x5F
}

/// `[a-zA-Z0-9_]`
pub open spec fn is_ident_char(c: char) -> bool {
    is_ident_start(c) || (0x30 <= (c as u32) && (c as u32) <= 0x39)
}

/// The classes of characters that the header grammar repeats.
#[derive(Clone, Copy, Debug, PartialEq, Eq)]
pub enum Run {
    Space,
    Digit,
    Ident,
}

pub open spec fn in_run(k: Run, c: char) -> bool {
    match k {
        Run::Space => is_white_space(c),
        Run::Digit => is_decimal_digit(c),
        Run::Ident => is_ident_char(c),
    }
}

fn in_run_exec(k: Run, c: char) -> (r: bool)
    ensures
        r == in_run(k, c),
{
    match k {
        Run::Space => is_whitespace_char(c),
        Run::Digit => is_decimal_digit_char(c),
        Run::Ident => {
            let u = c as u32;
            (0x61 <= u && u <= 0x7A) || (0x41 <= u && u <= 0x5A) || u == 0x5F || (0x30 <= u && u
                <= 0x39)
        },
    }
}

/// The end of the longest run of class `k` that starts at `i`.
pub open spec fn run_end(k: Run, s: Seq<char>, i: int) -> int
    decreases s.len() - i,
{
    if 0 <= i < s.len() && in_run(k, s[i]) {
        run_end(k, s, i + 1)
    } else {
        i
    }
}

fn run_end_exec(k: Run, s: &Vec<char>, i: usize) -> (r: usize)
    requires
        i <= s@.len(),
    ensures
        r == run_end(k, s@, i as int),
        i <= r <= s@.len(),
{
    let mut j = i;
    while j < s.len() && in_run_exec(k, s[j])
        invariant
            i <= j <= s@.len(),
            run_end(k, s@, i as int) == run_end(k, s@, j as int),
        decreases s@.len() - j,
    {
        j += 1;
    }
    j
}

/// The end of the header after the count (or after the instruction): a `)`,
/// white space, a `]`, and nothing more.
pub open spec fn closes_at(s: Seq<char>, p: int) -> bool {
    0 <= p < s.len() && s[p] == ')' && run_end(Run::Space, s, p + 1) == s.len() - 1 && s[s.len()
        - 1] == ']'
}

/// What a header's name, count and instruction are, or `None` when the text
/// is no header.
pub open spec fn header_captures(s: Seq<char>) -> Option<(Seq<char>, Seq<char>, Option<Seq<char>>)> {
    let a = run_end(Run::Space, s, 2);
    let n0 = a + "checkInUtxo("@.len();
    let n1 = run_end(Run::Ident, s, n0);
    let b = run_end(Run::Space, s, n1 + 1);
    let d1 = run_end(Run::Digit, s, b);
    let c = run_end(Run::Space, s, d1 + 1);
    let i1 = run_end(Run::Ident, s, c);
    if !(starts_with(s, "#["@) && occurs_at(s, "checkInUtxo("@, a) && n0 < s.len() && is_ident_start(
        s[n0],
    ) && n1 < s.len() && s[n1] == ',' && b < d1 && d1 < s.len()) {
        None
    } else if s[d1] == ',' {
        if c < s.len() && is_ident_start(s[c]) && closes_at(s, i1) {
            Some((s.subrange(n0, n1), s.subrange(b, d1), Some(s.subrange(c, i1))))
        } else {
            None
        }
    } else if closes_at(s, d1) {
        Some((s.subrange(n0, n1), s.subrange(b, d1), None))
    } else {
        None
    }
}

fn closes_at_exec(s: &Vec<char>, p: usize) -> (r: bool)
    ensures
        r == closes_at(s@, p as int),
{
    if p >= s.len() || s[p] != ')' {
        return false;
    }
    let e = run_end_exec(Run::Space, s, p + 1);
    e < s.len() && e == s.len() - 1 && s[e] == ']'
}

/// Reads a header: `Some((name, count, instruction))` exactly when
/// `header_captures` is `Some` with those parts.
pub fn header_parts(s: &str) -> (r: Option<(String, String, Option<String>)>)
    ensures
        match r {
            Some((n, d, i)) => header_captures(s@) == Some(
                (
                    n@,
                    d@,
                    match i {
                        Some(x) => Some(x@),
                        None => None,
                    },
                ),
            ),
            None => header_captures(s@) is None,
        },
{
    let v = chars_of(s);
    if !starts_with_str(&v, "#[") {
        return None;
    }
    proof {
        reveal_strlit("#[");
    }
    let a = run_end_exec(Run::Space, &v, 2);
    let kw = chars_of("checkInUtxo(");
    if !occurs_at_exec(&v, &kw, a) {
        return None;
    }
    let n0 = a + kw.len();
    if !(n0 < v.len() && in_run_exec(Run::Ident, v[n0]) && !(0x30 <= (v[n0] as u32) && (v[n0] as u32) <= 0x39)) {
        return None;
    }
    let n1 = run_end_exec(Run::Ident, &v, n0);
    if !(n1 < v.len() && v[n1] == ',') {
        return None;
    }
    let b = run_end_exec(Run::Space, &v, n1 + 1);
    let d1 = run_end_exec(Run::Digit, &v, b);
    if !(b < d1 && d1 < v.len()) {
        return None;
    }
    let name = crate::text::string_of(sub_vec(&v, n0, n1).as_slice());
    let count = crate::text::string_of(sub_vec(&v, b, d1).as_slice());
    if v[d1] == ',' {
        let c = run_end_exec(Run::Space, &v, d1 + 1);
        if !(c < v.len() && in_run_exec(Run::Ident, v[c]) && !(0x30 <= (v[c] as u32) && (v[c] as u32) <= 0x39)) {
            return None;
        }
        let i1 = run_end_exec(Run::Ident, &v, c);
        if !closes_at_exec(&v, i1) {
            return None;
        }
        let instr = crate::text::string_of(sub_vec(&v, c, i1).as_slice());
        Some((name, count, Some(instr)))
    } else if closes_at_exec(&v, d1) {
        Some((name, count, None))
    } else {
        None
    }
}

// ------------------------------------------------------------------
// Every well-formed header is read back into its parts.
// ------------------------------------------------------------------
pub open spec fn is_identifier(s: Seq<char>) -> bool {
    s.len() > 0 && is_ident_start(s[0]) && forall|i: int| 0 <= i < s.len() ==> is_ident_char(#[trigger] s[i])
}

pub open spec fn is_count(s: Seq<char>) -> bool {
    s.len() > 0 && forall|i: int| 0 <= i < s.len() ==> is_decimal_digit(#[trigger] s[i])
}

/// The header that declares the given name, count and instruction.
pub open spec fn header_text(name: Seq<char>, count: Seq<char>, instruction: Option<Seq<char>>) -> Seq<char> {
    "#[checkInUtxo("@ + name + ","@ + count + match instruction {
        Some(i) => ","@ + i,
        None => seq![],
    } + ")]"@
}

proof fn lemma_run_end(k: Run, s: Seq<char>, i: int, j: int)
    requires
        0 <= i <= j <= s.len(),
        forall|x: int| i <= x < j ==> in_run(k, #[trigger] s[x]),
        j == s.len() || !in_run(k, s[j]),
    ensures
        run_end(k, s, i) == j,
    decreases j - i,
{
    if i < j {
        lemma_run_end(k, s, i + 1, j);
    }
}

/// A header written from an identifier, a count and an optional identifier
/// is read back into exactly those parts.
pub proof fn lemma_header_roundtrip(name: Seq<char>, count: Seq<char>, instruction: Option<Seq<char>>)
    requires
        is_identifier(name),
        is_count(count),
        instruction matches Some(i) ==> is_identifier(i),
    ensures
        header_captures(header_text(name, count, instruction)) == Some((name, count, instruction)),
{
    reveal_strlit("#[checkInUtxo(");
    reveal_strlit("#[");
    reveal_strlit("checkInUtxo(");
    reveal_strlit(",");
    reveal_strlit(")]");
    let opt: Seq<char> = match instruction {
        Some(i) => ","@ + i,
        None => seq![],
    };
    let s = header_text(name, count, instruction);
    let p0 = "#[checkInUtxo("@;
    assert(p0.len() == 14);
    let n0: int = 14;
    let n1 = n0 + name.len();
    let b = n1 + 1;
    let d1 = b + count.len();
    let end = d1 + opt.len();
    assert(s.len() == end + 2);
    assert(s =~= p0 + name + ","@ + count + opt + ")]"@);
    assert forall|x: int| 0 <= x < n0 implies s[x] == p0[x] by {}
    assert forall|x: int| n0 <= x < n1 implies s[x] == name[x - n0] by {}
    assert(s[n1] == ',');
    assert forall|x: int| b <= x < d1 implies s[x] == count[x - b] by {}
    assert forall|x: int| d1 <= x < end implies s[x] == opt[x - d1] by {}
    assert(s[end] == ')');
    assert(s[end + 1] == ']');
    // "#[" is followed directly by the keyword.
    assert(starts_with(s, "#["@));
    assert(s[2] == 'c');
    lemma_run_end(Run::Space, s, 2, 2);
    assert(occurs_at(s, "checkInUtxo("@, 2)) by {
        assert(s.subrange(2, 14) =~= "checkInUtxo("@);
    }
    assert forall|x: int| n0 <= x < n1 implies in_run(Run::Ident, #[trigger] s[x]) by {
        assert(is_ident_char(name[x - n0]));
    }
    lemma_run_end(Run::Ident, s, n0, n1);
    assert(!is_white_space(s[b])) by {
        assert(is_decimal_digit(count[0]));
    }
    lemma_run_end(Run::Space, s, b, b);
    assert forall|x: int| b <= x < d1 implies in_run(Run::Digit, #[trigger] s[x]) by {
        assert(is_decimal_digit(count[x - b]));
    }
    lemma_run_end(Run::Digit, s, b, d1);
    assert(s.subrange(n0, n1) =~= name);
    assert(s.subrange(b, d1) =~= count);
    match instruction {
        Some(i) => {
            assert(s[d1] == ',');
            let c = d1 + 1;
            assert(!is_white_space(s[c])) by {
                assert(s[c] == i[0]);
            }
            lemma_run_end(Run::Space, s, c, c);
            assert forall|x: int| c <= x < end implies in_run(Run::Ident, #[trigger] s[x]) by {
                assert(s[x] == i[x - c]);
                assert(is_ident_char(i[x - c]));
            }
            lemma_run_end(Run::Ident, s, c, end);
            lemma_run_end(Run::Space, s, end + 1, end + 1);
            assert(s.subrange(c, end) =~= i);
            assert(s[c] == i[0]);
        },
        None => {
            assert(end == d1);
            lemma_run_end(Run::Space, s, end + 1, end + 1);
        },
    }
}

} // verus!
