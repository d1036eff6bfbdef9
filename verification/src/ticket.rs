//! The ticket codec: an opaque, type-tagged continuation token.
//!
//! A ticket is the wire encoding of a single-field record holding a
//! statement handle as text, wrapped in a type-tagged envelope so the
//! wire layer can tell this payload from other message kinds.  The layout
//! is the protocol-buffer encoding of `Any { type_url, value }` around
//! `FetchResults { handle }`, restricted to the canonical field order and
//! to single-byte lengths (every envelope this codec mints is well under
//! 128 bytes per field).  Decoding anything but a canonical envelope
//! fails; it never panics and never returns a wrong handle.

use vstd::prelude::*;
use vstd::slice::slice_to_vec;

verus! {

/// Protobuf key of a length-delimited field with number 1.
pub const KEY1: u8 = 10;

/// Protobuf key of a length-delimited field with number 2.
pub const KEY2: u8 = 18;

/// The type tag of this ticket kind.  A stable constant: changing it is a
/// breaking wire-compatibility change.
pub open spec fn spec_type_url() -> Seq<char> {
    "type.googleapis.com/arrow.flight.protocol.sql.FetchResults"@
}

/// The type tag as ASCII bytes.
pub open spec fn spec_type_url_bytes() -> Seq<u8> {
    Seq::new(spec_type_url().len(), |i: int| spec_type_url()[i] as u8)
}

/// The type tag is 58 ASCII characters long.
pub proof fn lemma_type_url_len()
    ensures
        spec_type_url().len() == 58,
        spec_type_url_bytes().len() == 58,
{
    reveal_strlit("type.googleapis.com/arrow.flight.protocol.sql.FetchResults");
}

/// The single-field record around a handle text: its encoding.
pub open spec fn spec_record_bytes(h: Seq<u8>) -> Seq<u8> {
    seq![KEY1, h.len() as u8] + h
}

/// The full ticket: a type-tagged envelope holding the record.
pub open spec fn spec_ticket_bytes(h: Seq<u8>) -> Seq<u8> {
    seq![KEY1, spec_type_url_bytes().len() as u8] + spec_type_url_bytes() + seq![
        KEY2,
        (h.len() + 2) as u8,
    ] + spec_record_bytes(h)
}

/// A handle text can be carried by this codec: non-empty and short enough
/// for its record to keep a single-byte length.
pub open spec fn fits_ticket(h: Seq<u8>) -> bool {
    1 <= h.len() < 126
}

/// The canonical decoding relation: `Some(h)` exactly when the bytes are
/// the canonical envelope around the handle text `h`.
pub open spec fn spec_decode(b: Seq<u8>) -> Option<Seq<u8>> {
    let tu = spec_type_url_bytes();
    if b.len() < 2 || b[0] != KEY1 || b[1] as int != tu.len() {
        None
    } else if b.len() < 2 + tu.len() || b.subrange(2, 2 + tu.len() as int) != tu {
        None
    } else {
        let p = 2 + tu.len() as int;
        if b.len() < p + 4 || b[p] != KEY2 {
            None
        } else {
            let vl = b[p + 1] as int;
            if vl >= 128 || b.len() != p + 2 + vl {
                None
            } else if b[p + 2] != KEY1 || b[p + 3] as int != vl - 2 || vl < 3 {
                None
            } else {
                Some(b.subrange(p + 4, b.len() as int))
            }
        }
    }
}

/// The exec type tag, as text.
pub fn type_url() -> (r: &'static str)
    ensures
        r@ == spec_type_url(),
{
    "type.googleapis.com/arrow.flight.protocol.sql.FetchResults"
}

/// The exec type tag, as bytes.
pub fn type_url_bytes() -> (r: Vec<u8>)
    ensures
        r@ == spec_type_url_bytes(),
{
    let s = type_url();
    proof {
        reveal_strlit("type.googleapis.com/arrow.flight.protocol.sql.FetchResults");
        assert(vstd::string::is_ascii(s));
        vstd::string::is_ascii_spec_bytes(s);
        vstd::utf8::is_ascii_chars_encode_utf8(s@);
    }
    let b = s.as_bytes();
    let out = slice_to_vec(b);
    proof {
        assert(out@ =~= spec_type_url_bytes());
    }
    out
}

/// Append every byte of `src` to `dst`.
pub(crate) fn append_bytes(dst: &mut Vec<u8>, src: &Vec<u8>)
    ensures
        final(dst)@ == old(dst)@ + src@,
{
    let mut i: usize = 0;
    while i < src.len()
        invariant
            i <= src@.len(),
            dst@ == old(dst)@ + src@.subrange(0, i as int),
        decreases src@.len() - i,
    {
        dst.push(src[i]);
        proof {
            assert(dst@ =~= old(dst)@ + src@.subrange(0, i as int + 1));
        }
        i += 1;
    }
    proof {
        assert(dst@ =~= old(dst)@ + src@);
    }
}

/// Encode the handle text `h` as a canonical ticket envelope.
pub fn encode_ticket(h: &Vec<u8>) -> (r: Vec<u8>)
    requires
        fits_ticket(h@),
    ensures
        r@ == spec_ticket_bytes(h@),
{
    let tu = type_url_bytes();
    proof {
        lemma_type_url_len();
    }
    let mut out: Vec<u8> = Vec::new();
    out.push(KEY1);
    out.push(tu.len() as u8);
    append_bytes(&mut out, &tu);
    out.push(KEY2);
    out.push((h.len() + 2) as u8);
    out.push(KEY1);
    out.push(h.len() as u8);
    append_bytes(&mut out, h);
    proof {
        assert(out@ =~= spec_ticket_bytes(h@));
    }
    out
}

/// Decode a ticket envelope, returning the embedded handle text.
///
/// Succeeds exactly on canonical envelopes: `spec_decode` fixes the
/// result, and a `None` answer is the malformed-ticket condition.
pub fn decode_ticket(b: &Vec<u8>) -> (r: Option<Vec<u8>>)
    ensures
        match r {
            Some(h) => spec_decode(b@) == Some(h@),
            None => spec_decode(b@) is None,
        },
{
    let tu = type_url_bytes();
    proof {
        lemma_type_url_len();
    }
    if b.len() < 2 || b[0] != KEY1 || b[1] as usize != tu.len() {
        return None;
    }
    if b.len() < 2 + tu.len() {
        return None;
    }
    let mut i: usize = 0;
    while i < tu.len()
        invariant
            tu@ == spec_type_url_bytes(),
            tu@.len() == 58,
            b@.len() >= 2 + tu@.len(),
            i <= tu@.len(),
            forall|t: int| 0 <= t < i as int ==> b@[2 + t] == tu@[t],
        decreases tu@.len() - i,
    {
        if b[2 + i] != tu[i] {
            proof {
                assert(b@.subrange(2, 2 + tu@.len() as int)[i as int] != tu@[i as int]);
            }
            return None;
        }
        i += 1;
    }
    proof {
        assert(b@.subrange(2, 2 + tu@.len() as int) =~= tu@);
    }
    let p = 2 + tu.len();
    if b.len() < p + 4 || b[p] != KEY2 {
        return None;
    }
    let vl = b[p + 1] as usize;
    if vl >= 128 || b.len() != p + 2 + vl {
        return None;
    }
    if b[p + 2] != KEY1 || vl < 3 || b[p + 3] as usize != vl - 2 {
        return None;
    }
    let mut h: Vec<u8> = Vec::new();
    let mut j: usize = p + 4;
    while j < b.len()
        invariant
            p + 4 <= j <= b@.len(),
            h@ == b@.subrange(p as int + 4, j as int),
        decreases b@.len() - j,
    {
        h.push(b[j]);
        proof {
            assert(h@ =~= b@.subrange(p as int + 4, j as int + 1));
        }
        j += 1;
    }
    proof {
        assert(h@ =~= b@.subrange(p as int + 4, b@.len() as int));
    }
    Some(h)
}

/// The single-field record a ticket envelope carries: a statement handle
/// in text form.  Some client drivers round-trip tickets verbatim and
/// parse only this exact shape, so its wire form is a compatibility
/// requirement.
#[derive(Clone, Debug, PartialEq, Eq)]
pub struct FetchResults {
    pub handle: String,
}

impl FetchResults {
    /// The type tag under which this record rides on the wire.
    pub fn type_url() -> (r: &'static str)
        ensures
            r@ == spec_type_url(),
    {
        type_url()
    }

    /// This record wrapped in its type-tagged envelope, as wire bytes;
    /// `None` when the handle is empty or too long for the envelope.
    pub fn to_any_bytes(&self) -> (r: Option<Vec<u8>>)
        ensures
            match r {
                Some(b) => fits_ticket(vstd::utf8::encode_utf8(self.handle@)) && b@
                    == spec_ticket_bytes(vstd::utf8::encode_utf8(self.handle@)),
                None => !fits_ticket(vstd::utf8::encode_utf8(self.handle@)),
            },
    {
        let bytes = slice_to_vec(self.handle.as_str().as_bytes());
        if bytes.len() < 1 || bytes.len() >= 126 {
            return None;
        }
        Some(encode_ticket(&bytes))
    }
}

/// Ticket round trip: decoding a canonical envelope gives back exactly
/// the handle text that was encoded.
pub proof fn lemma_ticket_round_trip(h: Seq<u8>)
    requires
        fits_ticket(h),
    ensures
        spec_decode(spec_ticket_bytes(h)) == Some(h),
{
    lemma_type_url_len();
    let tu = spec_type_url_bytes();
    let b = spec_ticket_bytes(h);
    assert(b.len() == 64 + h.len());
    assert(b.subrange(2, 2 + tu.len() as int) =~= tu);
    assert(b[60] == KEY2 && b[61] as int == h.len() + 2);
    assert(b[62] == KEY1 && b[63] as int == h.len());
    assert(b.subrange(64, b.len() as int) =~= h);
}

/// A successful decode pins the input down: the bytes were the canonical
/// envelope of the decoded handle text, which fits the codec.  Arbitrary
/// non-envelope bytes, or an envelope with a mismatched type tag, can
/// therefore never decode to a handle.
pub proof fn lemma_decode_canonical(b: Seq<u8>, h: Seq<u8>)
    requires
        spec_decode(b) == Some(h),
    ensures
        b == spec_ticket_bytes(h),
        fits_ticket(h),
{
    lemma_type_url_len();
    let tu = spec_type_url_bytes();
    assert(b.subrange(2, 2 + tu.len() as int) == tu);
    let vl = b[61] as int;
    assert(h =~= b.subrange(64, b.len() as int));
    assert(h.len() == vl - 2);
    assert(b =~= spec_ticket_bytes(h));
}

} // verus!
