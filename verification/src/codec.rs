//! Decoding of null-terminated UTF-16LE byte runs into text.

use vstd::prelude::*;
use crate::bytes::spec_u16_le;

verus! {

/// What `String::from_utf16_lossy` returns for a given code-unit sequence.
pub uninterp spec fn utf16_lossy_of(units: Seq<u16>) -> Seq<char>;

/// The code unit is in the surrogate range and so never stands alone in
/// well-formed UTF-16.
pub open spec fn is_surrogate(u: u16) -> bool {
    0xD800 <= u < 0xE000
}

/// The 2-byte little-endian code units read from `b` starting at `off`,
/// up to the first zero unit or the last whole unit in the buffer.
pub open spec fn spec_utf16_units(b: Seq<u8>, off: int) -> Seq<u16>
    decreases b.len() - off,
{
    if off < 0 || off + 2 > b.len() {
        Seq::empty()
    } else if spec_u16_le(b, off) == 0 {
        Seq::empty()
    } else {
        seq![spec_u16_le(b, off)] + spec_utf16_units(b, off + 2)
    }
}

/// Relies on `String::from_utf16_lossy`: it decodes the code units as UTF-16,
/// replacing ill-formed surrogate sequences with the replacement character;
/// a run free of surrogate units decodes one unit to one character of the
/// same code point.
#[verifier::external_body]
fn from_utf16_lossy(units: &Vec<u16>) -> (r: String)
    ensures
        r@ == utf16_lossy_of(units@),
        (forall|i: int| 0 <= i < units@.len() ==> !is_surrogate(units@[i])) ==> (r@.len()
            == units@.len() && (forall|i: int|
            0 <= i < units@.len() ==> (#[trigger] r@[i]) as u32 == units@[i] as u32)),
{
    String::from_utf16_lossy(units.as_slice())
}

/// The single UTF-16 code unit for a character of the basic multilingual
/// plane.
pub open spec fn spec_char_unit(c: char) -> u16 {
    (c as u32) as u16
}

/// The character is a non-zero code point of the basic multilingual plane:
/// it is encoded as one UTF-16 code unit and survives a null-terminated run.
pub open spec fn is_bmp_text_char(c: char) -> bool {
    0 < (c as u32) && (c as u32) < 0x10000 && !(0xD800 <= (c as u32) && (c as u32) < 0xE000)
}

/// Every character of `s` is a non-zero code point of the basic multilingual
/// plane.
pub open spec fn is_bmp_text(s: Seq<char>) -> bool {
    forall|i: int| 0 <= i < s.len() ==> is_bmp_text_char(s[i])
}

/// The UTF-16LE encoding of a run of basic-multilingual-plane characters:
/// two bytes per character, low byte first.
pub open spec fn spec_utf16le_bytes(s: Seq<char>) -> Seq<u8>
    decreases s.len(),
{
    if s.len() == 0 {
        Seq::empty()
    } else {
        seq![
            (s[0] as u32 % 0x100) as u8,
            ((s[0] as u32 / 0x100) % 0x100) as u8,
        ] + spec_utf16le_bytes(s.drop_first())
    }
}

/// The buffer holds, at `off`, the UTF-16LE encoding of `s` followed by a
/// two-byte zero terminator.
pub open spec fn encodes_terminated(b: Seq<u8>, off: int, s: Seq<char>) -> bool {
    &&& 0 <= off
    &&& off + 2 * s.len() + 2 <= b.len()
    &&& b.subrange(off, off + 2 * s.len()) == spec_utf16le_bytes(s)
    &&& b[off + 2 * s.len()] == 0
    &&& b[off + 2 * s.len() + 1] == 0
}

/// Two characters with the same code point are the same character.
proof fn lemma_char_code_injective(a: char, b: char)
    requires
        a as u32 == b as u32,
    ensures
        a == b,
{
}

/// The scanned code units of a terminated UTF-16LE encoding are exactly the
/// code units of the encoded characters, in order.
pub proof fn lemma_utf16_units_of_encoding(b: Seq<u8>, off: int, s: Seq<char>)
    requires
        is_bmp_text(s),
        encodes_terminated(b, off, s),
    ensures
        spec_utf16_units(b, off) =~= s.map_values(|c: char| spec_char_unit(c)),
    decreases s.len(),
{
    let enc = spec_utf16le_bytes(s);
    if s.len() == 0 {
        assert(b[off] == 0 && b[off + 1] == 0);
        assert(spec_u16_le(b, off) == 0);
    } else {
        let c = s[0];
        let rest = s.drop_first();
        let lo = (c as u32 % 0x100) as u8;
        let hi = ((c as u32 / 0x100) % 0x100) as u8;
        assert(b[off] == b.subrange(off, off + 2 * s.len())[0]);
        assert(b[off + 1] == b.subrange(off, off + 2 * s.len())[1]);
        assert(b[off] == lo && b[off + 1] == hi);
        assert(lo + hi * 0x100 == c as u32) by {
            assert((c as u32) < 0x10000);
            assert((c as u32) / 0x100 < 0x100);
            assert((c as u32) / 0x100 * 0x100 + (c as u32) % 0x100 == c as u32) by (nonlinear_arith);
        }
        assert(spec_u16_le(b, off) == spec_char_unit(c));
        assert(spec_u16_le(b, off) != 0);
        assert(enc =~= seq![lo, hi] + spec_utf16le_bytes(rest));
        assert(encodes_terminated(b, off + 2, rest)) by {
            assert(b.subrange(off + 2, off + 2 + 2 * rest.len()) =~= spec_utf16le_bytes(rest))
                by {
                assert forall|i: int| 0 <= i < 2 * rest.len() implies b.subrange(
                    off + 2,
                    off + 2 + 2 * rest.len(),
                )[i] == spec_utf16le_bytes(rest)[i] by {
                    assert(b.subrange(off + 2, off + 2 + 2 * rest.len())[i] == b[off + 2 + i]);
                    assert(b[off + 2 + i] == b.subrange(off, off + 2 * s.len())[2 + i]);
                    assert(enc[2 + i] == spec_utf16le_bytes(rest)[i]);
                }
            }
        }
        lemma_utf16_units_of_encoding(b, off + 2, rest);
        assert(spec_utf16_units(b, off) =~= seq![spec_char_unit(c)] + spec_utf16_units(b, off + 2));
        assert(s.map_values(|x: char| spec_char_unit(x)) =~= seq![spec_char_unit(c)]
            + rest.map_values(|x: char| spec_char_unit(x)));
    }
}

/// Scans 2-byte little-endian code units at `offset` until a zero unit or
/// the end of the buffer, and decodes the scanned run as UTF-16LE with
/// lossy replacement of ill-formed sequences. A run that terminates at
/// `offset` itself decodes to the empty string, and decoding inverts the
/// terminated UTF-16LE encoding of any run of non-zero
/// basic-multilingual-plane characters.
pub fn read_null_terminated_utf16le_string(buffer: &[u8], offset: usize) -> (r: String)
    ensures
        r@ == utf16_lossy_of(spec_utf16_units(buffer@, offset as int)),
        spec_utf16_units(buffer@, offset as int).len() == 0 ==> r@ == Seq::<char>::empty(),
        forall|s: Seq<char>|
            is_bmp_text(s) && encodes_terminated(buffer@, offset as int, s) ==> r@ == s,
{
    let ghost gall: Seq<u16> = spec_utf16_units(buffer@, offset as int);
    let mut units: Vec<u16> = Vec::new();
    let mut pos: usize = offset;
    loop
        invariant
            offset <= pos,
            gall == spec_utf16_units(buffer@, offset as int),
            gall =~= units@ + spec_utf16_units(buffer@, pos as int),
        ensures
            units@ =~= gall,
        decreases buffer@.len() - pos,
    {
        if !(pos < buffer.len() && pos + 1 < buffer.len()) {
            assert(spec_utf16_units(buffer@, pos as int) =~= Seq::empty());
            break;
        }
        let u = crate::bytes::read_u16_le(buffer, pos);
        if u == 0 {
            assert(spec_utf16_units(buffer@, pos as int) =~= Seq::empty());
            break;
        }
        units.push(u);
        pos = pos + 2;
        proof {
            assert(gall =~= units@ + spec_utf16_units(buffer@, pos as int));
        }
    }
    assert(units@ =~= gall);
    let r = from_utf16_lossy(&units);
    proof {
        if gall.len() == 0 {
            assert(r@ =~= Seq::<char>::empty());
        }
        assert forall|s: Seq<char>|
            is_bmp_text(s) && encodes_terminated(buffer@, offset as int, s) implies r@ == s by {
            lemma_utf16_units_of_encoding(buffer@, offset as int, s);
            let mapped = s.map_values(|c: char| spec_char_unit(c));
            assert(gall =~= mapped);
            assert forall|i: int| 0 <= i < units@.len() implies !is_surrogate(units@[i]) by {
                assert(units@[i] == mapped[i]);
                assert(mapped[i] == spec_char_unit(s[i]));
                assert(is_bmp_text_char(s[i]));
            }
            assert(r@.len() == units@.len());
            assert(r@.len() == s.len());
            assert forall|i: int| 0 <= i < s.len() implies r@[i] == s[i] by {
                assert((r@[i]) as u32 == units@[i] as u32);
                assert(units@[i] == spec_char_unit(s[i]));
                assert(is_bmp_text_char(s[i]));
                assert((spec_char_unit(s[i])) as u32 == (s[i]) as u32);
                assert((r@[i]) as u32 == (s[i]) as u32);
                lemma_char_code_injective(r@[i], s[i]);
            }
            assert(r@ =~= s);
        }
    }
    r
}

} // verus!
