//! Text decoding for the replay container and the message protocol:
//! NUL-terminated little-endian UTF-16 runs, decoded through the standard
//! library's lossy converters.

use vstd::prelude::*;
use vstd::bytes::spec_u16_from_le_bytes;
use vstd::bytes::u16_from_le_bytes;
use vstd::slice::slice_subrange;

verus! {

/// The text that lossy UTF-16 decoding yields for a sequence of code units.
pub uninterp spec fn utf16_lossy(units: Seq<u16>) -> Seq<char>;

/// The text that lossy UTF-8 decoding yields for a sequence of bytes.
pub uninterp spec fn utf8_lossy(bytes: Seq<u8>) -> Seq<char>;

/// Relies on String::from_utf16_lossy: the decoded text is a function of the
/// code units alone, and code units below 128 decode to the characters with
/// those values.
#[verifier::external_body]
pub fn utf16_lossy_to_string(units: &Vec<u16>) -> (r: String)
    ensures
        r@ == utf16_lossy(units@),
        (forall|i: int| 0 <= i < units@.len() ==> units@[i] < 128) ==> r@ == units@.map_values(
            |u: u16| u as char,
        ),
{
    String::from_utf16_lossy(units)
}

/// Relies on String::from_utf8_lossy: the decoded text is a function of the
/// bytes alone, and bytes below 128 decode to the characters with those
/// values.
#[verifier::external_body]
pub fn utf8_lossy_to_string(bytes: &Vec<u8>) -> (r: String)
    ensures
        r@ == utf8_lossy(bytes@),
        (forall|i: int| 0 <= i < bytes@.len() ==> bytes@[i] < 128) ==> r@ == bytes@.map_values(
            |b: u8| b as char,
        ),
{
    String::from_utf8_lossy(bytes).into_owned()
}

/// The little-endian UTF-16 code units at the front of `p`, up to but not
/// including the first NUL unit (or up to the last whole unit).
pub open spec fn spec_utf16_units(p: Seq<u8>) -> Seq<u16>
    decreases p.len(),
{
    if p.len() < 2 {
        Seq::empty()
    } else {
        let u = spec_u16_from_le_bytes(p.take(2));
        if u == 0 {
            Seq::empty()
        } else {
            seq![u] + spec_utf16_units(p.skip(2))
        }
    }
}

/// Collect the UTF-16 code units at the front of `p`, stopping at the first
/// NUL unit.
pub fn utf16_units_until_nul(p: &[u8]) -> (r: Vec<u16>)
    ensures
        r@ == spec_utf16_units(p@),
{
    let n = p.len();
    let mut out: Vec<u16> = Vec::new();
    let mut i: usize = 0;
    proof {
        assert(p@.skip(0) =~= p@);
        assert(out@ + spec_utf16_units(p@) =~= spec_utf16_units(p@));
    }
    while i < n && i + 1 < n
        invariant
            n == p@.len(),
            i <= n,
            spec_utf16_units(p@) == out@ + spec_utf16_units(p@.skip(i as int)),
        decreases n - i,
    {
        let u = u16_from_le_bytes(slice_subrange(p, i, i + 2));
        proof {
            assert(p@.skip(i as int).take(2) =~= p@.subrange(i as int, i + 2));
            assert(p@.skip(i as int).skip(2) =~= p@.skip(i + 2));
        }
        if u == 0 {
            proof {
                assert(spec_utf16_units(p@.skip(i as int)) =~= Seq::<u16>::empty());
                assert(out@ + Seq::<u16>::empty() =~= out@);
            }
            return out;
        }
        let ghost opre = out@;
        out.push(u);
        proof {
            assert(spec_utf16_units(p@.skip(i as int)) == seq![u] + spec_utf16_units(
                p@.skip(i + 2),
            ));
            assert(opre + (seq![u] + spec_utf16_units(p@.skip(i + 2))) =~= opre.push(u)
                + spec_utf16_units(p@.skip(i + 2)));
        }
        i = i + 2;
    }
    proof {
        assert(spec_utf16_units(p@.skip(i as int)) =~= Seq::<u16>::empty());
        assert(out@ + Seq::<u16>::empty() =~= out@);
    }
    out
}

} // verus!
