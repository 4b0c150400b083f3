use vstd::prelude::*;
use vstd::utf8::*;

use crate::bytes::{push_bytes, push_zeros};

verus! {

/// Whether two string slices hold the same characters, compared by their UTF-8 bytes.
pub fn str_equal(a: &str, b: &str) -> (r: bool)
    ensures
        r == (a@ == b@),
{
    let x = a.as_bytes();
    let y = b.as_bytes();
    proof {
        encode_utf8_decode_utf8(a@);
        encode_utf8_decode_utf8(b@);
        assert(x@ == encode_utf8(a@));
        assert(y@ == encode_utf8(b@));
    }
    if x.len() != y.len() {
        return false;
    }
    let mut i: usize = 0;
    while i < x.len()
        invariant
            i <= x@.len(),
            x@.len() == y@.len(),
            x@ == encode_utf8(a@),
            y@ == encode_utf8(b@),
            decode_utf8(encode_utf8(a@)) == a@,
            decode_utf8(encode_utf8(b@)) == b@,
            forall|j: int| 0 <= j < i ==> x@[j] == y@[j],
        decreases x@.len() - i,
    {
        if x[i] != y[i] {
            proof {
                assert(x@[i as int] != y@[i as int]);
            }
            return false;
        }
        i = i + 1;
    }
    proof {
        assert(x@ =~= y@);
    }
    true
}

/// Relies on `String::push`: the character is appended at the end.
#[verifier::external_body]
pub(crate) fn push_char(s: &mut String, c: char)
    ensures
        final(s)@ == old(s)@.push(c),
{
    s.push(c)
}

/// The text that the bytes `b` stand for as UTF-8, with each invalid sequence replaced by
/// U+FFFD.
pub uninterp spec fn lossy_text(b: Seq<u8>) -> Seq<char>;

/// Relies on `String::from_utf8_lossy`: it reads the bytes as UTF-8, replacing each invalid
/// sequence by U+FFFD, and gives valid UTF-8 back unchanged.
#[verifier::external_body]
pub(crate) fn lossy_string(bytes: &[u8]) -> (r: String)
    ensures
        r@ == lossy_text(bytes@),
        valid_utf8(bytes@) ==> r@ == decode_utf8(bytes@),
{
    String::from_utf8_lossy(bytes).into_owned()
}

/// Whether `c` is an ASCII digit.
pub open spec fn is_digit(c: char) -> bool {
    48 <= (c as u32) <= 57
}

/// The value of a string of ASCII digits, most significant first.
pub open spec fn digits_value(d: Seq<char>) -> nat
    decreases d.len(),
{
    if d.len() == 0 {
        0
    } else {
        10 * digits_value(d.drop_last()) + ((d.last() as u32) - 48) as nat
    }
}

/// The value of a decimal numeral: an optional `+`, then one or more ASCII digits; `None` for
/// any other text.
pub open spec fn numeral_value(s: Seq<char>) -> Option<nat> {
    let d = if s.len() > 0 && s[0] == '+' {
        s.subrange(1, s.len() as int)
    } else {
        s
    };
    if d.len() > 0 && (forall|i: int| 0 <= i < d.len() ==> is_digit(#[trigger] d[i])) {
        Some(digits_value(d))
    } else {
        None
    }
}

/// Relies on `<u64 as FromStr>::from_str`: it accepts exactly an optional `+` followed by one
/// or more ASCII digits whose value fits in 64 bits.
#[verifier::external_body]
pub(crate) fn parse_u64(s: &str) -> (r: Option<u64>)
    ensures
        match numeral_value(s@) {
            Some(n) => if n <= u64::MAX {
                r == Some(n as u64)
            } else {
                r is None
            },
            None => r is None,
        },
{
    s.parse::<u64>().ok()
}

/// `n` zero bytes.
pub open spec fn zeros(n: nat) -> Seq<u8> {
    Seq::new(n, |_i: int| 0u8)
}

/// Number of bytes before the first zero byte of `field` (all of them when it has none).
pub open spec fn text_len(field: Seq<u8>) -> nat
    decreases field.len(),
{
    if field.len() == 0 || field[0] == 0 {
        0
    } else {
        1 + text_len(field.subrange(1, field.len() as int))
    }
}

/// The bytes that a zero-padded field holds: those before its first zero byte.
pub open spec fn field_bytes(field: Seq<u8>) -> Seq<u8> {
    field.subrange(0, text_len(field) as int)
}

/// Whether `bytes` can be stored in a zero-padded field of `width` bytes and read back: no
/// longer than the field, and without a zero byte.
pub open spec fn fits(bytes: Seq<u8>, width: nat) -> bool {
    &&& bytes.len() <= width
    &&& forall|i: int| 0 <= i < bytes.len() ==> bytes[i] != 0
}

/// The `width` bytes of a field that holds `bytes`: those bytes, then zeros.
pub open spec fn padded(bytes: Seq<u8>, width: nat) -> Seq<u8> {
    bytes + zeros((width - bytes.len()) as nat)
}

/// The bytes before `text_len` are not zero, and the one at `text_len`, if any, is.
pub proof fn lemma_text_len_bounds(field: Seq<u8>)
    ensures
        text_len(field) <= field.len(),
        forall|i: int| 0 <= i < text_len(field) ==> field[i] != 0,
        text_len(field) < field.len() ==> field[text_len(field) as int] == 0,
    decreases field.len(),
{
    if field.len() > 0 && field[0] != 0 {
        let rest = field.subrange(1, field.len() as int);
        lemma_text_len_bounds(rest);
        assert forall|i: int| 0 <= i < text_len(field) implies field[i] != 0 by {
            if i > 0 {
                assert(field[i] == rest[i - 1]);
            }
        }
    }
}

/// Bytes without a zero, followed by zeros, have their own length as text length.
pub proof fn lemma_text_len_of_padded(t: Seq<u8>, k: nat)
    requires
        forall|i: int| 0 <= i < t.len() ==> t[i] != 0,
    ensures
        text_len(t + zeros(k)) == t.len(),
    decreases t.len(),
{
    let s = t + zeros(k);
    if t.len() > 0 {
        let rest = t.subrange(1, t.len() as int);
        assert(s.subrange(1, s.len() as int) =~= rest + zeros(k));
        lemma_text_len_of_padded(rest, k);
    } else if k > 0 {
        assert(s[0] == 0);
    }
}

/// Bytes that fit come back from their field unchanged.
pub proof fn lemma_padded_round_trip(bytes: Seq<u8>, width: nat)
    requires
        fits(bytes, width),
    ensures
        padded(bytes, width).len() == width,
        field_bytes(padded(bytes, width)) == bytes,
{
    lemma_text_len_of_padded(bytes, (width - bytes.len()) as nat);
    assert(padded(bytes, width).subrange(0, bytes.len() as int) =~= bytes);
}

/// What a field holds fits back into a field of that width.
pub proof fn lemma_field_bytes_fit(field: Seq<u8>)
    ensures
        fits(field_bytes(field), field.len()),
        field_bytes(field).len() == 0 <==> (field.len() == 0 || field[0] == 0),
{
    lemma_text_len_bounds(field);
}

/// Reads the bytes that the zero-padded field of `width` bytes at `pos` holds.
pub fn read_field(b: &[u8], pos: usize, width: usize) -> (r: Vec<u8>)
    requires
        pos + width <= b@.len(),
    ensures
        r@ == field_bytes(b@.subrange(pos as int, pos + width)),
{
    let ghost field = b@.subrange(pos as int, pos + width);
    let len = b.len();
    let mut k: usize = 0;
    while k < width && b[pos + k] != 0
        invariant
            k <= width,
            pos + width <= b@.len(),
            len == b@.len(),
            field == b@.subrange(pos as int, pos + width),
            forall|i: int| 0 <= i < k ==> field[i] != 0,
        decreases width - k,
    {
        k = k + 1;
    }
    proof {
        lemma_text_len_bounds(field);
        if text_len(field) < k {
            assert(field[text_len(field) as int] == 0);
        }
        if k < text_len(field) {
            assert(field[k as int] != 0);
        }
        assert(k == text_len(field));
    }
    let mut bytes: Vec<u8> = Vec::new();
    let mut i: usize = 0;
    while i < k
        invariant
            i <= k,
            k <= width,
            pos + width <= b@.len(),
            len == b@.len(),
            bytes@ == b@.subrange(pos as int, pos + i),
        decreases k - i,
    {
        bytes.push(b[pos + i]);
        i = i + 1;
        proof {
            assert(bytes@ =~= b@.subrange(pos as int, pos + i));
        }
    }
    proof {
        assert(bytes@ =~= field.subrange(0, text_len(field) as int));
    }
    bytes
}

/// Appends the zero-padded field of `width` bytes that holds `bytes`.
pub fn write_field(out: &mut Vec<u8>, bytes: &Vec<u8>, width: usize)
    requires
        fits(bytes@, width as nat),
    ensures
        final(out)@ == old(out)@ + padded(bytes@, width as nat),
{
    push_bytes(out, bytes.as_slice());
    push_zeros(out, width - bytes.len());
}

} // verus!
