//! JSON text: strings with their escapes, and arrays of values.
use crate::text::{join, join_strings, push_str, strs_of};
use vstd::prelude::*;

verus! {

pub open spec fn hex_digit(d: int) -> char {
    if d < 10 {
        crate::text::digit_char(d)
    } else if d == 10 {
        'a'
    } else if d == 11 {
        'b'
    } else if d == 12 {
        'c'
    } else if d == 13 {
        'd'
    } else if d == 14 {
        'e'
    } else {
        'f'
    }
}

/// How one character is written inside a JSON string: quotes and
/// backslashes escaped, control characters as `\u00XX`.
pub open spec fn escape_char(c: char) -> Seq<char> {
    let u = c as u32;
    if c == '"' {
        seq!['\\', '"']
    } else if c == '\\' {
        seq!['\\', '\\']
    } else if u < 0x20 {
        seq!['\\', 'u', '0', '0', hex_digit((u / 16) as int), hex_digit((u % 16) as int)]
    } else {
        seq![c]
    }
}

pub open spec fn escape(s: Seq<char>) -> Seq<char>
    decreases s.len(),
{
    if s.len() == 0 {
        seq![]
    } else {
        escape(s.drop_last()) + escape_char(s.last())
    }
}

/// The JSON string that denotes `s`.
pub open spec fn json_string(s: Seq<char>) -> Seq<char> {
    seq!['"'] + escape(s) + seq!['"']
}

/// The JSON array of the given values.
pub open spec fn json_array(items: Seq<Seq<char>>) -> Seq<char> {
    "["@ + join(items, ","@) + "]"@
}

fn hex_char(d: u32) -> (c: char)
    requires
        d < 16,
    ensures
        c == hex_digit(d as int),
{
    if d < 10 {
        crate::text::digit_to_char(d as u64)
    } else if d == 10 {
        'a'
    } else if d == 11 {
        'b'
    } else if d == 12 {
        'c'
    } else if d == 13 {
        'd'
    } else if d == 14 {
        'e'
    } else {
        'f'
    }
}

fn push_escaped_char(r: &mut String, c: char)
    ensures
        final(r)@ == old(r)@ + escape_char(c),
{
    let ghost before = r@;
    let u = c as u32;
    if c == '"' {
        r.push('\\');
        r.push('"');
    } else if c == '\\' {
        r.push('\\');
        r.push('\\');
    } else if u < 0x20 {
        r.push('\\');
        r.push('u');
        r.push('0');
        r.push('0');
        r.push(hex_char(u / 16));
        r.push(hex_char(u % 16));
    } else {
        r.push(c);
    }
    assert(r@ =~= before + escape_char(c));
}

/// Appends the JSON string that denotes `s`.
pub fn push_json_string(r: &mut String, s: &str)
    ensures
        final(r)@ == old(r)@ + json_string(s@),
{
    let v = crate::text::chars_of(s);
    let ghost start = r@;
    r.push('"');
    let mut i: usize = 0;
    while i < v.len()
        invariant
            i <= v@.len(),
            r@ == start + seq!['"'] + escape(v@.take(i as int)),
        decreases v@.len() - i,
    {
        assert(v@.take(i + 1).drop_last() =~= v@.take(i as int));
        let ghost mid = r@;
        push_escaped_char(r, v[i]);
        i += 1;
        assert(r@ =~= start + seq!['"'] + escape(v@.take(i as int)));
    }
    assert(v@.take(i as int) =~= v@);
    r.push('"');
    assert(r@ =~= start + json_string(s@));
}

pub fn json_string_of(s: &str) -> (r: String)
    ensures
        r@ == json_string(s@),
{
    let mut r = String::new();
    push_json_string(&mut r, s);
    assert(r@ =~= json_string(s@));
    r
}

/// Appends the JSON array of the given values.
pub fn push_json_array(r: &mut String, items: &Vec<String>)
    ensures
        final(r)@ == old(r)@ + json_array(strs_of(items@)),
{
    let ghost start = r@;
    push_str(r, "[");
    let inner = join_strings(items, ",");
    push_str(r, inner.as_str());
    push_str(r, "]");
    assert(r@ =~= start + json_array(strs_of(items@)));
}

/// A character that a JSON string holds as it is.
pub open spec fn plain_json_char(c: char) -> bool {
    c != '"' && c != '\\' && c as u32 >= 0x20
}

/// A text without quotes, backslashes or control characters is its own JSON
/// escape.
pub proof fn lemma_escape_plain(s: Seq<char>)
    requires
        forall|i: int| 0 <= i < s.len() ==> plain_json_char(#[trigger] s[i]),
    ensures
        escape(s) == s,
    decreases s.len(),
{
    if s.len() > 0 {
        lemma_escape_plain(s.drop_last());
        assert(plain_json_char(s[s.len() - 1]));
        assert(escape(s) =~= s);
    }
}

} // verus!
