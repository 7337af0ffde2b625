//! The textual form of a digest: two lowercase hexadecimal digits per byte.

use crate::digest::ContentHash;
use vstd::prelude::*;

verus! {

/// The ASCII digit for a value below 16.
pub open spec fn hex_digit(n: u8) -> u8 {
    if n < 10 {
        (48 + n) as u8
    } else {
        (87 + n) as u8
    }
}

/// The value of an ASCII hexadecimal digit, either case.
pub open spec fn digit_value(c: u8) -> Option<u8> {
    if 48 <= c <= 57 {
        Some((c - 48) as u8)
    } else if 97 <= c <= 102 {
        Some((c - 87) as u8)
    } else if 65 <= c <= 70 {
        Some((c - 55) as u8)
    } else {
        None
    }
}

/// The hexadecimal text of `b`.
pub open spec fn hex_of(b: Seq<u8>) -> Seq<u8> {
    Seq::new(
        2 * b.len(),
        |i: int|
            if i % 2 == 0 {
                hex_digit(b[i / 2] / 16)
            } else {
                hex_digit(b[i / 2] % 16)
            },
    )
}

/// Whether `t` is the text of a digest: 64 hexadecimal digits.
pub open spec fn is_digest_text(t: Seq<u8>) -> bool {
    t.len() == 64 && forall|i: int| 0 <= i < t.len() ==> (#[trigger] digit_value(t[i])).is_some()
}

/// The bytes that hexadecimal text stands for.
pub open spec fn decoded(t: Seq<u8>) -> Seq<u8> {
    Seq::new(
        t.len() / 2,
        |i: int| (digit_value(t[2 * i]).unwrap() * 16 + digit_value(t[2 * i + 1]).unwrap()) as u8,
    )
}

fn digit_of(n: u8) -> (r: u8)
    requires
        n < 16,
    ensures
        r == hex_digit(n),
{
    if n < 10 {
        48 + n
    } else {
        87 + n
    }
}

fn value_of(c: u8) -> (r: Option<u8>)
    ensures
        r == digit_value(c),
{
    if 48 <= c && c <= 57 {
        Some(c - 48)
    } else if 97 <= c && c <= 102 {
        Some(c - 87)
    } else if 65 <= c && c <= 70 {
        Some(c - 55)
    } else {
        None
    }
}

impl ContentHash {
    /// The digest's text: 64 lowercase hexadecimal digits, as ASCII bytes.
    pub fn to_hex(&self) -> (r: Vec<u8>)
        ensures
            r@ == hex_of(self@),
    {
        let mut out: Vec<u8> = Vec::new();
        let mut i: usize = 0;
        while i < 32
            invariant
                0 <= i <= 32,
                self@.len() == 32,
                out@ =~= hex_of(self@.subrange(0, i as int)),
            decreases 32 - i,
        {
            let b = self.bytes[i];
            out.push(digit_of(b / 16));
            out.push(digit_of(b % 16));
            assert(self@.subrange(0, i as int + 1).subrange(0, i as int) == self@.subrange(0, i as int));
            assert(out@ =~= hex_of(self@.subrange(0, i as int + 1)));
            i = i + 1;
        }
        assert(self@.subrange(0, 32) =~= self@);
        out
    }

    /// Reads a digest from its text, in either case; `None` when the text is
    /// not 64 hexadecimal digits.
    pub fn from_hex(text: &[u8]) -> (r: Option<ContentHash>)
        ensures
            match r {
                Some(h) => is_digest_text(text@) && h@ == decoded(text@),
                None => !is_digest_text(text@),
            },
    {
        if text.len() != 64 {
            return None;
        }
        let mut bytes: [u8; 32] = [0u8; 32];
        let mut i: usize = 0;
        while i < 32
            invariant
                0 <= i <= 32,
                text@.len() == 64,
                bytes@.len() == 32,
                forall|j: int| 0 <= j < 2 * i ==> (#[trigger] digit_value(text@[j])).is_some(),
                forall|j: int| 0 <= j < i ==> bytes@[j] == decoded(text@)[j],
            decreases 32 - i,
        {
            let hi = value_of(text[2 * i]);
            let lo = value_of(text[2 * i + 1]);
            match (hi, lo) {
                (Some(h), Some(l)) => {
                    bytes.set(i, h * 16 + l);
                },
                _ => {
                    return None;
                },
            }
            i = i + 1;
        }
        let r = ContentHash { bytes };
        assert(r@ =~= decoded(text@));
        Some(r)
    }
}

/// A digest's text reads back as the same digest.
pub proof fn lemma_hex_round_trip(b: Seq<u8>)
    requires
        b.len() == 32,
    ensures
        is_digest_text(hex_of(b)),
        decoded(hex_of(b)) == b,
{
    let t = hex_of(b);
    assert forall|i: int| 0 <= i < t.len() implies (#[trigger] digit_value(t[i])).is_some() by {
        let n = b[i / 2];
        assert(n / 16 < 16 && n % 16 < 16);
    }
    assert forall|i: int| 0 <= i < b.len() implies decoded(t)[i] == b[i] by {
        let n = b[i];
        assert((2 * i) / 2 == i);
        assert((2 * i + 1) / 2 == i);
        assert((2 * i) % 2 == 0);
        assert((2 * i + 1) % 2 == 1);
        assert(n / 16 * 16 + n % 16 == n);
    }
    assert(decoded(t) =~= b);
}

} // verus!
