//! UTF-16 text as the Windows API takes and gives it.
use vstd::prelude::*;
use crate::chars::chars_of;

verus! {

pub open spec fn is_high_surrogate(u: u16) -> bool {
    0xD800 <= u <= 0xDBFF
}

pub open spec fn is_low_surrogate(u: u16) -> bool {
    0xDC00 <= u <= 0xDFFF
}

/// The UTF-16 units of one character: itself below U+10000, else a
/// surrogate pair.
pub open spec fn char_units(c: char) -> Seq<u16> {
    let v = c as u32;
    if v < 0x10000 {
        seq![v as u16]
    } else {
        seq![(0xD800 + (v - 0x10000) / 0x400) as u16, (0xDC00 + (v - 0x10000) % 0x400) as u16]
    }
}

/// The UTF-16 encoding of a text.
pub open spec fn encode_utf16(s: Seq<char>) -> Seq<u16>
    decreases s.len(),
{
    if s.len() == 0 {
        Seq::empty()
    } else {
        encode_utf16(s.drop_last()) + char_units(s.last())
    }
}

/// The text that UTF-16 units spell, or `None` when a surrogate is not
/// part of a high-low pair.
pub open spec fn decode_utf16(units: Seq<u16>) -> Option<Seq<char>>
    decreases units.len(),
{
    if units.len() == 0 {
        Some(Seq::empty())
    } else if !is_high_surrogate(units[0]) && !is_low_surrogate(units[0]) {
        match decode_utf16(units.drop_first()) {
            Some(rest) => Some(seq![units[0] as char] + rest),
            None => None,
        }
    } else if is_high_surrogate(units[0]) && units.len() >= 2 && is_low_surrogate(units[1]) {
        let c = (0x10000 + (units[0] - 0xD800) * 0x400 + (units[1] - 0xDC00)) as char;
        match decode_utf16(units.subrange(2, units.len() as int)) {
            Some(rest) => Some(seq![c] + rest),
            None => None,
        }
    } else {
        None
    }
}

/// A text as a NUL-terminated UTF-16 string for the Windows API.
pub fn wide(value: &str) -> (r: Vec<u16>)
    ensures
        r@ == encode_utf16(value@).push(0),
{
    let chars = chars_of(value);
    let mut out: Vec<u16> = Vec::new();
    let mut i: usize = 0;
    while i < chars.len()
        invariant
            i <= chars@.len(),
            chars@ == value@,
            out@ == encode_utf16(chars@.take(i as int)),
        decreases chars@.len() - i,
    {
        let c = chars[i];
        let v = c as u32;
        proof {
            assert(chars@.take(i + 1).drop_last() =~= chars@.take(i as int));
        }
        if v < 0x10000 {
            out.push(v as u16);
            proof {
                assert(out@ =~= encode_utf16(chars@.take(i as int)) + char_units(c));
            }
        } else {
            let offset = v - 0x10000;
            out.push((0xD800 + offset / 0x400) as u16);
            out.push((0xDC00 + offset % 0x400) as u16);
            proof {
                assert(out@ =~= encode_utf16(chars@.take(i as int)) + char_units(c));
            }
        }
        i += 1;
    }
    proof {
        assert(chars@.take(chars@.len() as int) =~= chars@);
    }
    out.push(0);
    out
}

/// `String::from_utf16`: the text that the units spell, or the error's
/// message when a surrogate is unpaired; the message's text is not stated.
#[verifier::external_body]
pub(crate) fn utf16_text(units: &[u16]) -> (r: Result<String, String>)
    ensures
        match decode_utf16(units@) {
            Some(cs) => r matches Ok(s) && s@ == cs,
            None => r is Err,
        },
{
    String::from_utf16(units).map_err(|error| error.to_string())
}

} // verus!
