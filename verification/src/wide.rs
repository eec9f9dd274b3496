//! UTF-16 text, as the Windows calls hand it out and take it.
use vstd::prelude::*;

use crate::text::to_chars;

verus! {

/// `char::from_u32` gives the character of a code point, and nothing for a surrogate or for a
/// number above the last code point.
pub assume_specification[ char::from_u32 ](i: u32) -> (res: Option<char>)
    ensures
        res == (if i < 0xd800 || (0xe000 <= i && i <= 0x10ffff) {
            Some(i as char)
        } else {
            None
        }),
;

/// Stands for a unit that is no part of a character.
pub const REPLACEMENT: char = '\u{fffd}';

/// Whether `unit` is the first half of a surrogate pair.
pub open spec fn is_high(unit: u16) -> bool {
    0xd800 <= unit && unit <= 0xdbff
}

/// Whether `unit` is the second half of a surrogate pair.
pub open spec fn is_low(unit: u16) -> bool {
    0xdc00 <= unit && unit <= 0xdfff
}

/// The character that a surrogate pair spells.
pub open spec fn pair_char(high: u16, low: u16) -> char {
    (0x10000 + (high - 0xd800) * 0x400 + (low - 0xdc00)) as char
}

/// The text that `units` spells; each unpaired surrogate becomes one replacement character.
pub open spec fn decode_lossy(units: Seq<u16>) -> Seq<char>
    decreases units.len(),
{
    if units.len() == 0 {
        Seq::empty()
    } else if is_high(units[0]) && units.len() > 1 && is_low(units[1]) {
        seq![pair_char(units[0], units[1])] + decode_lossy(units.skip(2))
    } else if is_high(units[0]) || is_low(units[0]) {
        seq![REPLACEMENT] + decode_lossy(units.skip(1))
    } else {
        seq![units[0] as char] + decode_lossy(units.skip(1))
    }
}

/// The units that spell one character.
pub open spec fn encode_char(c: char) -> Seq<u16> {
    let code = c as u32;
    if code < 0x10000 {
        seq![code as u16]
    } else {
        seq![
            (0xd800 + (code - 0x10000) / 0x400) as u16,
            (0xdc00 + (code - 0x10000) % 0x400) as u16,
        ]
    }
}

/// The units that spell `text`.
pub open spec fn encode(text: Seq<char>) -> Seq<u16>
    decreases text.len(),
{
    if text.len() == 0 {
        Seq::empty()
    } else {
        encode_char(text[0]) + encode(text.skip(1))
    }
}

/// What stands before the first zero unit; everything where there is none.
pub open spec fn until_nul(units: Seq<u16>) -> Seq<u16>
    decreases units.len(),
{
    if units.len() == 0 || units[0] == 0 {
        Seq::empty()
    } else {
        seq![units[0]] + until_nul(units.skip(1))
    }
}

pub(crate) proof fn lemma_until_nul(units: Seq<u16>, len: int)
    requires
        0 <= len <= units.len(),
        forall|i: int| 0 <= i < len ==> #[trigger] units[i] != 0,
        len < units.len() ==> units[len] == 0,
    ensures
        until_nul(units) == units.take(len),
    decreases len,
{
    if len > 0 {
        assert forall|i: int| 0 <= i < len - 1 implies #[trigger] units.skip(1)[i] != 0 by {
            assert(units[i + 1] != 0);
        }
        lemma_until_nul(units.skip(1), len - 1);
        assert(seq![units[0]] + units.skip(1).take(len - 1) =~= units.take(len));
    } else {
        assert(units.take(0) =~= Seq::<u16>::empty());
    }
}

/// The text in a fixed-size name buffer: what its units spell before the first zero unit.
pub fn decode_name(buf: &[u16]) -> (name: String)
    ensures
        name@ == decode_lossy(until_nul(buf@)),
{
    let mut len: usize = 0;
    while len < buf.len() && buf[len] != 0
        invariant
            len <= buf.len(),
            forall|i: int| 0 <= i < len ==> #[trigger] buf@[i] != 0,
        decreases buf.len() - len,
    {
        len += 1;
    }
    let ghost units = buf@.take(len as int);
    proof {
        lemma_until_nul(buf@, len as int);
    }
    let mut out = String::new();
    let mut i: usize = 0;
    assert(units.skip(0) =~= units);
    assert(out@ + decode_lossy(units.skip(0)) =~= decode_lossy(units));
    while i < len
        invariant
            i <= len <= buf.len(),
            units == buf@.take(len as int),
            out@ + decode_lossy(units.skip(i as int)) == decode_lossy(units),
        decreases len - i,
    {
        let unit: u16 = buf[i];
        let ghost before = out@;
        let ghost rest = units.skip(i as int);
        assert(rest[0] == unit);
        assert(rest.skip(1) =~= units.skip(i as int + 1));
        if 0xd800 <= unit && unit <= 0xdbff && i + 1 < len && 0xdc00 <= buf[i + 1] && buf[i + 1]
            <= 0xdfff {
            assert(rest[1] == buf@[i as int + 1]);
            assert(rest.skip(2) =~= units.skip(i as int + 2));
            let code: u32 = 0x10000u32 + (unit as u32 - 0xd800) * 0x400 + (buf[i + 1] as u32
                - 0xdc00);
            match char::from_u32(code) {
                Some(c) => out.push(c),
                None => {},
            }
            assert(out@ + decode_lossy(units.skip(i as int + 2)) =~= before + decode_lossy(rest));
            i += 2;
        } else if 0xd800 <= unit && unit <= 0xdfff {
            out.push(REPLACEMENT);
            assert(out@ + decode_lossy(units.skip(i as int + 1)) =~= before + decode_lossy(rest));
            i += 1;
        } else {
            match char::from_u32(unit as u32) {
                Some(c) => out.push(c),
                None => {},
            }
            assert(out@ + decode_lossy(units.skip(i as int + 1)) =~= before + decode_lossy(rest));
            i += 1;
        }
    }
    assert(decode_lossy(units.skip(len as int)) =~= Seq::<char>::empty());
    assert(out@ =~= decode_lossy(units));
    out
}

/// The units of `text` with a zero unit at the end.
pub fn encode_nul(text: &str) -> (units: Vec<u16>)
    ensures
        units@ == encode(text@).push(0),
{
    let chars = to_chars(text);
    let mut out: Vec<u16> = Vec::new();
    let mut i: usize = 0;
    assert(text@.skip(0) =~= text@);
    assert(out@ + encode(text@.skip(0)) =~= encode(text@));
    while i < chars.len()
        invariant
            i <= chars.len(),
            chars@ == text@,
            out@ + encode(text@.skip(i as int)) == encode(text@),
        decreases chars.len() - i,
    {
        let code: u32 = chars[i] as u32;
        let ghost before = out@;
        let ghost rest = text@.skip(i as int);
        assert(rest[0] == chars@[i as int]);
        assert(rest.skip(1) =~= text@.skip(i as int + 1));
        if code < 0x10000 {
            out.push(code as u16);
        } else {
            let high: u32 = 0xd800 + (code - 0x10000) / 0x400;
            let low: u32 = 0xdc00 + (code - 0x10000) % 0x400;
            out.push(high as u16);
            out.push(low as u16);
        }
        assert(out@ =~= before + encode_char(chars@[i as int]));
        assert(out@ + encode(text@.skip(i as int + 1)) =~= before + encode(rest));
        i += 1;
    }
    assert(encode(text@.skip(chars.len() as int)) =~= Seq::<u16>::empty());
    assert(out@ =~= encode(text@));
    out.push(0);
    out
}

proof fn lemma_encode_char(c: char)
    ensures
        c as u32 >= 0x10000 ==> {
            &&& is_high(encode_char(c)[0])
            &&& is_low(encode_char(c)[1])
            &&& pair_char(encode_char(c)[0], encode_char(c)[1]) == c
        },
        (c as u32) < 0x10000 ==> {
            &&& !is_high(encode_char(c)[0])
            &&& !is_low(encode_char(c)[0])
            &&& encode_char(c)[0] as char == c
        },
        c != '\0' ==> encode_char(c)[0] != 0,
{
    let off = c as u32 - 0x10000;
    if off >= 0 {
        assert(off == (off / 0x400) * 0x400 + off % 0x400);
        assert(off / 0x400 < 0x400);
    }
}

/// Decoding gives back every text that was encoded.
pub proof fn law_decode_of_encode(text: Seq<char>)
    ensures
        decode_lossy(encode(text)) == text,
    decreases text.len(),
{
    if text.len() > 0 {
        let head = encode_char(text[0]);
        let tail = encode(text.skip(1));
        let all = head + tail;
        law_decode_of_encode(text.skip(1));
        lemma_encode_char(text[0]);
        assert(all[0] == head[0]);
        if (text[0] as u32) < 0x10000 {
            assert(all.skip(1) =~= tail);
        } else {
            assert(all[1] == head[1]);
            assert(all.skip(2) =~= tail);
        }
        assert(decode_lossy(all) =~= text);
    }
}

proof fn lemma_encode_has_no_nul(text: Seq<char>)
    requires
        forall|i: int| 0 <= i < text.len() ==> #[trigger] text[i] != '\0',
    ensures
        forall|i: int| 0 <= i < encode(text).len() ==> #[trigger] encode(text)[i] != 0,
    decreases text.len(),
{
    if text.len() > 0 {
        assert forall|i: int| 0 <= i < text.skip(1).len() implies #[trigger] text.skip(1)[i]
            != '\0' by {
            assert(text[i + 1] != '\0');
        }
        lemma_encode_has_no_nul(text.skip(1));
        let head = encode_char(text[0]);
        let tail = encode(text.skip(1));
        lemma_encode_char(text[0]);
        assert forall|i: int| 0 <= i < encode(text).len() implies #[trigger] encode(text)[i]
            != 0 by {
            if i >= head.len() {
                assert(encode(text)[i] == tail[i - head.len()]);
            } else {
                assert(encode(text)[i] == head[i]);
            }
        }
    }
}

/// A name without a zero character survives the trip through a zero-terminated buffer.
pub proof fn law_name_round_trip(text: Seq<char>)
    requires
        forall|i: int| 0 <= i < text.len() ==> #[trigger] text[i] != '\0',
    ensures
        decode_lossy(until_nul(encode(text).push(0))) == text,
{
    let units = encode(text).push(0);
    let n = encode(text).len() as int;
    lemma_encode_has_no_nul(text);
    assert forall|i: int| 0 <= i < n implies #[trigger] units[i] != 0 by {
        assert(units[i] == encode(text)[i]);
    }
    lemma_until_nul(units, n);
    assert(units.take(n) =~= encode(text));
    law_decode_of_encode(text);
}

/// A text is encoded character by character, and the code points tell how: one unit for those
/// below 0x10000, the code point itself, and a high and a low surrogate for the others.
pub proof fn law_units_of_a_character(c: char)
    ensures
        (c as u32) < 0x10000 ==> encode(seq![c]).len() == 1 && encode(seq![c])[0] == c as u32,
        c as u32 >= 0x10000 ==> {
            let units = encode(seq![c]);
            &&& units.len() == 2
            &&& 0xd800 <= units[0] < 0xdc00
            &&& 0xdc00 <= units[1] < 0xe000
            &&& c as u32 == 0x10000 + (units[0] - 0xd800) * 0x400 + (units[1] - 0xdc00)
        },
{
    reveal_with_fuel(encode, 2);
    lemma_encode_char(c);
    assert(seq![c].skip(1) =~= Seq::<char>::empty());
    assert(encode(seq![c]) =~= encode_char(c));
    let off = c as u32 - 0x10000;
    if off >= 0 {
        assert(off == (off / 0x400) * 0x400 + off % 0x400);
        assert(off / 0x400 < 0x400);
    }
}

/// The units of a text in two parts are those of the first and then those of the second.
pub proof fn law_encode_in_parts(first: Seq<char>, second: Seq<char>)
    ensures
        encode(first + second) == encode(first) + encode(second),
    decreases first.len(),
{
    if first.len() == 0 {
        assert(first + second =~= second);
        assert(encode(first) + encode(second) =~= encode(second));
    } else {
        law_encode_in_parts(first.skip(1), second);
        assert((first + second).skip(1) =~= first.skip(1) + second);
        assert(encode(first + second) =~= encode(first) + encode(second));
    }
}

/// Units that are no surrogates are decoded one by one, each to the character of its own code.
pub proof fn law_plain_units_are_kept(units: Seq<u16>)
    requires
        forall|i: int| 0 <= i < units.len() ==> !(0xd800 <= #[trigger] units[i] < 0xe000),
    ensures
        decode_lossy(units).len() == units.len(),
        forall|i: int|
            0 <= i < units.len() ==> (#[trigger] decode_lossy(units)[i]) as u32 == units[i],
    decreases units.len(),
{
    if units.len() > 0 {
        let rest = units.skip(1);
        assert forall|i: int| 0 <= i < rest.len() implies !(0xd800 <= #[trigger] rest[i]
            < 0xe000) by {
            assert(rest[i] == units[i + 1]);
        }
        law_plain_units_are_kept(rest);
        assert(!(0xd800 <= units[0] < 0xe000));
        assert forall|i: int| 0 <= i < units.len() implies (#[trigger] decode_lossy(units)[i])
            as u32 == units[i] by {
            if i > 0 {
                assert(decode_lossy(units)[i] == decode_lossy(rest)[i - 1]);
                assert(rest[i - 1] == units[i]);
            }
        }
    }
}

/// A unit that is no surrogate is decoded to the character of its own code, whatever follows.
pub proof fn law_plain_unit_is_kept(unit: u16, rest: Seq<u16>)
    requires
        !(0xd800 <= unit < 0xe000),
    ensures
        ({
            let all = decode_lossy(seq![unit] + rest);
            &&& all.len() > 0
            &&& all[0] as u32 == unit
            &&& all.skip(1) == decode_lossy(rest)
        }),
{
    let all = seq![unit] + rest;
    assert(all.skip(1) =~= rest);
    assert(decode_lossy(all).skip(1) =~= decode_lossy(rest));
}

/// One replacement character stands for each surrogate without its other half: for a second half
/// at the beginning, and for a first half that is not followed by a second one.
pub proof fn law_lone_surrogates_are_replaced(unit: u16, rest: Seq<u16>)
    requires
        0xd800 <= unit < 0xe000,
        unit >= 0xdc00 || rest.len() == 0 || !(0xdc00 <= rest[0] < 0xe000),
    ensures
        decode_lossy(seq![unit] + rest) == seq!['\u{fffd}'] + decode_lossy(rest),
{
    let all = seq![unit] + rest;
    assert(all.skip(1) =~= rest);
    assert(all.len() > 1 ==> all[1] == rest[0]);
}

/// The two halves of a pair stand for one character, whatever follows.
pub proof fn law_pairs_are_joined(high: u16, low: u16, rest: Seq<u16>)
    requires
        0xd800 <= high < 0xdc00,
        0xdc00 <= low < 0xe000,
    ensures
        ({
            let all = decode_lossy(seq![high, low] + rest);
            &&& all.len() > 0
            &&& all[0] as u32 == 0x10000 + (high - 0xd800) * 0x400 + (low - 0xdc00)
            &&& all.skip(1) == decode_lossy(rest)
        }),
{
    let all = seq![high, low] + rest;
    assert(all.skip(2) =~= rest);
    assert(all[0] == high && all[1] == low);
    assert(decode_lossy(all).skip(1) =~= decode_lossy(rest));
}

/// What stands behind the first zero of a buffer does not matter, and neither does the zero.
pub proof fn law_name_ends_at_the_first_zero(
    buf: &[u16],
    name: String,
    cut: &[u16],
    same: String,
    len: int,
)
    requires
        0 <= len < buf@.len(),
        buf@[len] == 0,
        forall|i: int| 0 <= i < len ==> #[trigger] buf@[i] != 0,
        cut@ == buf@.take(len),
        call_ensures(decode_name, (buf,), name),
        call_ensures(decode_name, (cut,), same),
    ensures
        name@ == same@,
        name@ == decode_lossy(cut@),
{
    lemma_until_nul(buf@, len);
    lemma_until_nul(cut@, len);
    assert(cut@.take(len) =~= cut@);
}

/// What was encoded for a buffer ends with the one zero, and is decoded to the text again where the
/// text has no zero in it.
pub proof fn law_encoded_names_are_read_back(text: &str, units: Vec<u16>, buf: &[u16], name: String)
    requires
        forall|i: int| 0 <= i < text@.len() ==> #[trigger] text@[i] != '\0',
        call_ensures(encode_nul, (text,), units),
        buf@ == units@,
        call_ensures(decode_name, (buf,), name),
    ensures
        name@ == text@,
        units@.last() == 0,
        units@.len() > 0,
        forall|i: int| 0 <= i < units@.len() - 1 ==> #[trigger] units@[i] != 0,
{
    law_name_round_trip(text@);
    lemma_encode_has_no_nul(text@);
    assert forall|i: int| 0 <= i < units@.len() - 1 implies #[trigger] units@[i] != 0 by {
        assert(units@[i] == encode(text@)[i]);
    }
}

} // verus!
