//! UTF-16: the code units of a string, and the string of a run of code units.

use crate::error::Error;
use vstd::prelude::*;
use vstd::utf8::{char_is_scalar, char_u32_cast};

verus! {

broadcast use {char_is_scalar, char_u32_cast};

/// `v` is a Unicode scalar value: a code point that is no surrogate.
pub open spec fn is_scalar(v: int) -> bool {
    0 <= v < 0xD800 || 0xE000 <= v <= 0x10_FFFF
}

/// The one or two code units of a character.
pub open spec fn units_of_char(c: char) -> Seq<u16> {
    let v = c as u32;
    if v < 0x1_0000 {
        seq![v as u16]
    } else {
        seq![
            (0xD800 + (v - 0x1_0000) / 0x400) as u16,
            (0xDC00 + (v - 0x1_0000) % 0x400) as u16,
        ]
    }
}

/// The code units of a string, character by character.
pub open spec fn utf16(s: Seq<char>) -> Seq<u16>
    decreases s.len(),
{
    if s.len() == 0 {
        Seq::empty()
    } else {
        units_of_char(s[0]) + utf16(s.drop_first())
    }
}

/// The character that a high and a low surrogate stand for together.
pub open spec fn char_of_pair(high: u16, low: u16) -> char {
    ((0x1_0000 + (high - 0xD800) * 0x400 + (low - 0xDC00)) as u32) as char
}

/// `chars` in front of what `rest` holds, if it holds anything.
pub open spec fn prepend(chars: Seq<char>, rest: Option<Seq<char>>) -> Option<Seq<char>> {
    match rest {
        Some(tail) => Some(chars + tail),
        None => None,
    }
}

/// The string that a run of code units stands for, or `None` where a
/// surrogate stands without its partner.
pub open spec fn utf16_decode(u: Seq<u16>) -> Option<Seq<char>>
    decreases u.len(),
{
    if u.len() == 0 {
        Some(Seq::empty())
    } else if u[0] < 0xD800 || u[0] >= 0xE000 {
        prepend(seq![(u[0] as u32) as char], utf16_decode(u.skip(1)))
    } else if u[0] < 0xDC00 && u.len() >= 2 && 0xDC00 <= u[1] < 0xE000 {
        prepend(seq![char_of_pair(u[0], u[1])], utf16_decode(u.skip(2)))
    } else {
        None
    }
}

/// The code units of a string with one more character are those of the
/// string followed by those of the character.
pub proof fn lemma_utf16_push(s: Seq<char>, c: char)
    ensures
        utf16(s.push(c)) == utf16(s) + units_of_char(c),
    decreases s.len(),
{
    if s.len() == 0 {
        assert(s.push(c).drop_first() =~= Seq::<char>::empty());
        assert(utf16(s.push(c).drop_first()) =~= Seq::<u16>::empty());
        assert(utf16(s.push(c)) =~= utf16(s) + units_of_char(c));
    } else {
        lemma_utf16_push(s.drop_first(), c);
        assert(s.push(c).drop_first() =~= s.drop_first().push(c));
        assert(utf16(s.push(c)) =~= utf16(s) + units_of_char(c));
    }
}

/// Putting `a` and then `b` in front is putting `a + b` in front.
pub proof fn lemma_prepend_twice(a: Seq<char>, b: Seq<char>, rest: Option<Seq<char>>)
    ensures
        prepend(a, prepend(b, rest)) == prepend(a + b, rest),
{
    if let Some(tail) = rest {
        assert(a + (b + tail) =~= (a + b) + tail);
    }
}

/// The code units of a character, followed by anything, decode to the
/// character followed by what the rest decodes to.
pub proof fn lemma_utf16_decode_char(c: char, tail: Seq<u16>)
    ensures
        utf16_decode(units_of_char(c) + tail) == prepend(seq![c], utf16_decode(tail)),
{
    let v = c as u32;
    let u = units_of_char(c) + tail;
    assert((v as char) == c);
    if v < 0x1_0000 {
        assert(u.skip(1) =~= tail);
        assert(u[0] as u32 == v);
    } else {
        assert(u.skip(2) =~= tail);
        let w = (v - 0x1_0000) as int;
        assert(0 <= w < 0x10_0000);
        assert(u[0] == 0xD800 + w / 0x400);
        assert(u[1] == 0xDC00 + w % 0x400);
        assert(0x1_0000 + (u[0] - 0xD800) * 0x400 + (u[1] - 0xDC00) == v);
        assert(char_of_pair(u[0], u[1]) == c);
    }
}

/// Decoding the code units of a string gives the string back.
pub proof fn lemma_utf16_round_trip(s: Seq<char>)
    ensures
        utf16_decode(utf16(s)) == Some(s),
    decreases s.len(),
{
    if s.len() > 0 {
        lemma_utf16_round_trip(s.drop_first());
        lemma_utf16_decode_char(s[0], utf16(s.drop_first()));
        assert(seq![s[0]] + s.drop_first() =~= s);
    }
}

/// `char::from_u32` of std: the character with code point `v`, and `None`
/// where `v` is a surrogate or lies above the last code point.
#[verifier::external_body]
fn char_from_code(v: u32) -> (r: Option<char>)
    ensures
        r == (if is_scalar(v as int) {
            Some(v as char)
        } else {
            None::<char>
        }),
{
    char::from_u32(v)
}

/// `String::push` of std: `c` is appended to `text`.
#[verifier::external_body]
pub(crate) fn push_char(text: &mut String, c: char)
    ensures
        final(text)@ == old(text)@.push(c),
{
    text.push(c)
}

/// The UTF-16 code units of `text`.
pub fn encode_utf16(text: &str) -> (units: Vec<u16>)
    ensures
        units@ == utf16(text@),
{
    let mut units: Vec<u16> = Vec::new();
    for c in it: text.chars()
        invariant
            it.seq() == text@,
            units@ == utf16(text@.take(it.index() as int)),
    {
        proof {
            let done = text@.take(it.index() as int);
            lemma_utf16_push(done, c);
            assert(text@.take(it.index() + 1) =~= done.push(c));
        }
        let v: u32 = c as u32;
        if v < 0x1_0000 {
            units.push(v as u16);
        } else {
            let w: u32 = v - 0x1_0000;
            units.push((0xD800 + w / 0x400) as u16);
            units.push((0xDC00 + w % 0x400) as u16);
        }
    }
    assert(text@.take(text@.len() as int) =~= text@);
    units
}

/// The string that `units` stand for; fails where a surrogate stands
/// without its partner.
pub fn decode_utf16(units: &[u16]) -> (r: Result<String, Error>)
    ensures
        match utf16_decode(units@) {
            Some(chars) => r is Ok && r->Ok_0@ == chars,
            None => r == Err::<String, Error>(Error::Utf16Error),
        },
{
    let mut text = String::new();
    let mut i: usize = 0;
    proof {
        assert(units@.skip(0) =~= units@);
        lemma_prepend_twice(Seq::empty(), Seq::empty(), utf16_decode(units@));
        if let Some(all) = utf16_decode(units@) {
            assert(Seq::<char>::empty() + all =~= all);
        }
    }
    while i < units.len()
        invariant
            i <= units@.len(),
            utf16_decode(units@) == prepend(text@, utf16_decode(units@.skip(i as int))),
        decreases units@.len() - i,
    {
        let ghost rest = units@.skip(i as int);
        let ghost before = text@;
        let u: u16 = units[i];
        if u < 0xD800 || u >= 0xE000 {
            match char_from_code(u as u32) {
                Some(c) => {
                    push_char(&mut text, c);
                    proof {
                        assert(rest.skip(1) =~= units@.skip(i + 1));
                        lemma_prepend_twice(before, seq![c], utf16_decode(units@.skip(i + 1)));
                        assert(before + seq![c] =~= before.push(c));
                    }
                    i += 1;
                },
                None => {
                    return Err(Error::Utf16Error);
                },
            }
        } else if u < 0xDC00 && i + 1 < units.len() && 0xDC00 <= units[i + 1] && units[i + 1]
            < 0xE000 {
            let low: u16 = units[i + 1];
            let v: u32 = 0x1_0000 + ((u - 0xD800) as u32) * 0x400 + ((low - 0xDC00) as u32);
            match char_from_code(v) {
                Some(c) => {
                    push_char(&mut text, c);
                    proof {
                        assert(rest.skip(2) =~= units@.skip(i + 2));
                        lemma_prepend_twice(before, seq![c], utf16_decode(units@.skip(i + 2)));
                        assert(before + seq![c] =~= before.push(c));
                    }
                    i += 2;
                },
                None => {
                    return Err(Error::Utf16Error);
                },
            }
        } else {
            return Err(Error::Utf16Error);
        }
    }
    proof {
        assert(units@.skip(i as int) =~= Seq::<u16>::empty());
        assert(text@ + Seq::<char>::empty() =~= text@);
    }
    Ok(text)
}

} // verus!
