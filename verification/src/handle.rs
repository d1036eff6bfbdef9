//! Statement handles and their hyphenated hexadecimal text form.
//!
//! A handle is a process-unique 128-bit identifier, carried on the wire
//! either as its 16 raw bytes or as 36 bytes of text: 32 hexadecimal
//! digits with a hyphen after the 8th, 12th, 16th and 20th digit.  The
//! formatter emits lower-case digits; the parser accepts either case.

use vstd::prelude::*;

verus! {

/// Number of raw bytes in a handle.
pub const HANDLE_LEN: usize = 16;

/// Number of bytes in the text form of a handle.
pub const HANDLE_TEXT_LEN: usize = 36;

/// Is `c` the ASCII code of a hexadecimal digit (either case)?
pub open spec fn is_hex_digit(c: u8) -> bool {
    (48 <= c <= 57) || (97 <= c <= 102) || (65 <= c <= 70)
}

/// Numeric value of an ASCII hexadecimal digit.
pub open spec fn hex_val(c: u8) -> int {
    if 48 <= c <= 57 {
        c - 48
    } else if 97 <= c <= 102 {
        c - 87
    } else {
        c - 55
    }
}

/// Lower-case ASCII hexadecimal digit for a nibble value.
pub open spec fn hex_char(n: int) -> u8 {
    if n < 10 {
        (48 + n) as u8
    } else {
        (87 + n) as u8
    }
}

/// Position of the `j`-th hexadecimal digit (`0 <= j < 32`) within the
/// 36-byte text form, accounting for the four hyphens.
pub open spec fn nib_pos(j: int) -> int {
    if j < 8 {
        j
    } else if j < 12 {
        j + 1
    } else if j < 16 {
        j + 2
    } else if j < 20 {
        j + 3
    } else {
        j + 4
    }
}

/// Which hexadecimal digit of the text form stands at text position `i`
/// (only meaningful when `i` is not a hyphen position).
pub open spec fn digit_of_pos(i: int) -> int {
    if i < 8 {
        i
    } else if i < 13 {
        i - 1
    } else if i < 18 {
        i - 2
    } else if i < 23 {
        i - 3
    } else {
        i - 4
    }
}

/// Is `i` one of the four hyphen positions of the text form?
pub open spec fn is_hyphen_pos(i: int) -> bool {
    i == 8 || i == 13 || i == 18 || i == 23
}

/// Value of the `j`-th nibble of the raw bytes `b`, high nibble first.
pub open spec fn nibble(b: Seq<u8>, j: int) -> int {
    if j % 2 == 0 {
        b[j / 2] as int / 16
    } else {
        b[j / 2] as int % 16
    }
}

/// Byte at position `i` of the text form of the raw bytes `b`.
pub open spec fn text_char(b: Seq<u8>, i: int) -> u8 {
    if is_hyphen_pos(i) {
        45
    } else {
        hex_char(nibble(b, digit_of_pos(i)))
    }
}

/// The canonical (lower-case) text form of the 16 raw bytes `b`.
pub open spec fn spec_handle_text(b: Seq<u8>) -> Seq<u8> {
    Seq::new(HANDLE_TEXT_LEN as nat, |i: int| text_char(b, i))
}

/// Is `s` a syntactically well-formed handle text (either case)?
pub open spec fn is_handle_text(s: Seq<u8>) -> bool {
    &&& s.len() == HANDLE_TEXT_LEN
    &&& s[8] == 45
    &&& s[13] == 45
    &&& s[18] == 45
    &&& s[23] == 45
    &&& forall|j: int| 0 <= j < 32 ==> is_hex_digit(#[trigger] s[nib_pos(j)])
}

/// The `k`-th raw byte denoted by the well-formed handle text `s`.
pub open spec fn text_byte(s: Seq<u8>, k: int) -> u8 {
    (hex_val(s[nib_pos(2 * k)]) * 16 + hex_val(s[nib_pos(2 * k + 1)])) as u8
}

/// The 16 raw bytes denoted by the well-formed handle text `s`.
pub open spec fn spec_text_bytes(s: Seq<u8>) -> Seq<u8> {
    Seq::new(HANDLE_LEN as nat, |k: int| text_byte(s, k))
}

/// Exec mirror of [`nib_pos`].
fn nib_pos_x(j: usize) -> (r: usize)
    requires
        j < 32,
    ensures
        r as int == nib_pos(j as int),
        r < 36,
{
    if j < 8 {
        j
    } else if j < 12 {
        j + 1
    } else if j < 16 {
        j + 2
    } else if j < 20 {
        j + 3
    } else {
        j + 4
    }
}

/// Format the 16 raw bytes `h` as their canonical handle text.
pub fn handle_text(h: &Vec<u8>) -> (r: Vec<u8>)
    requires
        h@.len() == HANDLE_LEN,
    ensures
        r@ == spec_handle_text(h@),
{
    let mut out: Vec<u8> = Vec::new();
    let mut i: usize = 0;
    while i < HANDLE_TEXT_LEN
        invariant
            h@.len() == HANDLE_LEN,
            i <= HANDLE_TEXT_LEN,
            out@.len() == i as int,
            forall|t: int| 0 <= t < i as int ==> out@[t] == text_char(h@, t),
        decreases HANDLE_TEXT_LEN - i,
    {
        if i == 8 || i == 13 || i == 18 || i == 23 {
            out.push(45);
        } else {
            let j: usize = if i < 8 {
                i
            } else if i < 13 {
                i - 1
            } else if i < 18 {
                i - 2
            } else if i < 23 {
                i - 3
            } else {
                i - 4
            };
            let byte = h[j / 2];
            let n: u8 = if j % 2 == 0 {
                byte / 16
            } else {
                byte % 16
            };
            let c: u8 = if n < 10 {
                48 + n
            } else {
                87 + n
            };
            assert(c == text_char(h@, i as int));
            out.push(c);
        }
        i += 1;
    }
    proof {
        assert(out@ =~= spec_handle_text(h@));
    }
    out
}

/// Exec test for a hexadecimal digit, returning its value.
fn hex_val_x(c: u8) -> (r: Option<u8>)
    ensures
        match r {
            Some(v) => is_hex_digit(c) && v as int == hex_val(c) && v < 16,
            None => !is_hex_digit(c),
        },
{
    if 48 <= c && c <= 57 {
        Some(c - 48)
    } else if 97 <= c && c <= 102 {
        Some(c - 87)
    } else if 65 <= c && c <= 70 {
        Some(c - 55)
    } else {
        None
    }
}

/// Parse a handle text back into its 16 raw bytes.
///
/// Returns `None` exactly on inputs that are not well-formed handle text.
pub fn parse_handle_text(s: &Vec<u8>) -> (r: Option<Vec<u8>>)
    ensures
        match r {
            Some(b) => is_handle_text(s@) && b@ == spec_text_bytes(s@),
            None => !is_handle_text(s@),
        },
{
    if s.len() != HANDLE_TEXT_LEN {
        return None;
    }
    if !(s[8] == 45 && s[13] == 45 && s[18] == 45 && s[23] == 45) {
        return None;
    }
    let mut out: Vec<u8> = Vec::new();
    let mut k: usize = 0;
    while k < HANDLE_LEN
        invariant
            s@.len() == HANDLE_TEXT_LEN,
            s@[8] == 45 && s@[13] == 45 && s@[18] == 45 && s@[23] == 45,
            k <= HANDLE_LEN,
            out@.len() == k as int,
            forall|j: int| 0 <= j < 2 * k as int ==> is_hex_digit(#[trigger] s@[nib_pos(j)]),
            forall|t: int| 0 <= t < k as int ==> out@[t] == text_byte(s@, t),
        decreases HANDLE_LEN - k,
    {
        let p_hi = nib_pos_x(2 * k);
        let p_lo = nib_pos_x(2 * k + 1);
        let hi = match hex_val_x(s[p_hi]) {
            Some(v) => v,
            None => {
                proof {
                    assert(!is_hex_digit(s@[nib_pos(2 * k as int)]));
                }
                return None;
            },
        };
        let lo = match hex_val_x(s[p_lo]) {
            Some(v) => v,
            None => {
                proof {
                    assert(!is_hex_digit(s@[nib_pos(2 * k as int + 1)]));
                }
                return None;
            },
        };
        let b: u8 = hi * 16 + lo;
        assert(b == text_byte(s@, k as int));
        out.push(b);
        k += 1;
    }
    proof {
        assert forall|j: int| 0 <= j < 32 implies is_hex_digit(#[trigger] s@[nib_pos(j)]) by {
            assert(j < 2 * HANDLE_LEN as int);
        }
        assert(is_handle_text(s@));
        assert(out@ =~= spec_text_bytes(s@));
    }
    Some(out)
}

/// The canonical text of any 16 raw bytes is well-formed, and parsing it
/// gives the bytes back: the handle text round trip is the identity.
pub proof fn lemma_handle_text_round_trip(b: Seq<u8>)
    requires
        b.len() == HANDLE_LEN,
    ensures
        is_handle_text(spec_handle_text(b)),
        spec_text_bytes(spec_handle_text(b)) == b,
{
    let s = spec_handle_text(b);
    assert forall|j: int| 0 <= j < 32 implies is_hex_digit(#[trigger] s[nib_pos(j)]) by {
        lemma_nib_pos_inverse(j);
        let n = nibble(b, j);
        lemma_nibble_bounds(b, j);
        assert(s[nib_pos(j)] == hex_char(n));
    }
    assert forall|k: int| 0 <= k < HANDLE_LEN as int implies text_byte(s, k) == b[k] by {
        lemma_nib_pos_inverse(2 * k);
        lemma_nib_pos_inverse(2 * k + 1);
        lemma_nibble_bounds(b, 2 * k);
        lemma_nibble_bounds(b, 2 * k + 1);
        assert(hex_val(hex_char(nibble(b, 2 * k))) == nibble(b, 2 * k));
        assert(hex_val(hex_char(nibble(b, 2 * k + 1))) == nibble(b, 2 * k + 1));
        vstd::arithmetic::div_mod::lemma_fundamental_div_mod(b[k] as int, 16);
    }
    assert(spec_text_bytes(s) =~= b);
}

/// The text position of digit `j` is not a hyphen position, and maps back
/// to `j`.
proof fn lemma_nib_pos_inverse(j: int)
    requires
        0 <= j < 32,
    ensures
        !is_hyphen_pos(nib_pos(j)),
        digit_of_pos(nib_pos(j)) == j,
        0 <= nib_pos(j) < 36,
{
}

/// Each nibble of a byte sequence lies below 16.
proof fn lemma_nibble_bounds(b: Seq<u8>, j: int)
    requires
        0 <= j < 32,
        b.len() == HANDLE_LEN,
    ensures
        0 <= nibble(b, j) < 16,
{
    let x = b[j / 2] as int;
    vstd::arithmetic::div_mod::lemma_fundamental_div_mod(x, 16);
}

} // verus!
