use vstd::prelude::*;

use crate::files::ContentHash;
use crate::text::push_char;
use vstd::string::StrSliceExecFns;

verus! {

/// The lowercase hexadecimal digit of a value below 16.
pub open spec fn hex_digit(v: u8) -> char {
    if v < 10 {
        ((v + 48) as u8) as char
    } else {
        ((v + 87) as u8) as char
    }
}

/// The value of a hexadecimal digit, either case.
pub open spec fn digit_value(c: char) -> Option<u8> {
    if '0' <= c && c <= '9' {
        Some((c as u8 - 48) as u8)
    } else if 'a' <= c && c <= 'f' {
        Some((c as u8 - 87) as u8)
    } else if 'A' <= c && c <= 'F' {
        Some((c as u8 - 55) as u8)
    } else {
        None
    }
}

/// Two lowercase hexadecimal digits per byte, high digit first.
pub open spec fn hex_of(b: Seq<u8>) -> Seq<char>
    decreases b.len(),
{
    if b.len() == 0 {
        Seq::empty()
    } else {
        hex_of(b.drop_last()) + seq![hex_digit(b.last() / 16), hex_digit(b.last() % 16)]
    }
}

/// `s` is 64 hexadecimal digits.
pub open spec fn is_hex_hash(s: Seq<char>) -> bool {
    s.len() == 64 && forall|i: int| 0 <= i < 64 ==> (#[trigger] digit_value(s[i])) is Some
}

/// `s` is 64 hexadecimal digits that spell `h`, high digit first.
pub open spec fn spells(s: Seq<char>, h: ContentHash) -> bool {
    is_hex_hash(s) && forall|i: int|
        0 <= i < 32 ==> #[trigger] h[i] == digit_value(s[2 * i]).unwrap() * 16 + digit_value(
            s[2 * i + 1],
        ).unwrap()
}

fn digit_char(v: u8) -> (r: char)
    requires
        v < 16,
    ensures
        r == hex_digit(v),
{
    if v < 10 {
        (v + 48) as char
    } else {
        (v + 87) as char
    }
}

fn digit_of(c: char) -> (r: Option<u8>)
    ensures
        r == digit_value(c),
{
    if '0' <= c && c <= '9' {
        Some(c as u8 - 48)
    } else if 'a' <= c && c <= 'f' {
        Some(c as u8 - 87)
    } else if 'A' <= c && c <= 'F' {
        Some(c as u8 - 55)
    } else {
        None
    }
}

/// The digest written as 64 lowercase hexadecimal digits.
pub fn hash_to_hex(h: &ContentHash) -> (r: String)
    ensures
        r@ == hex_of(h@),
{
    let mut s = String::new();
    let mut i: usize = 0;
    while i < 32
        invariant
            0 <= i <= 32,
            h@.len() == 32,
            s@ == hex_of(h@.take(i as int)),
        decreases 32 - i,
    {
        let b = h[i];
        push_char(&mut s, digit_char(b / 16));
        push_char(&mut s, digit_char(b % 16));
        assert(h@.take(i + 1).drop_last() =~= h@.take(i as int));
        assert(s@ =~= hex_of(h@.take(i + 1)));
        i = i + 1;
    }
    assert(h@.take(32) =~= h@);
    s
}

/// The digest that `s` spells in hexadecimal digits of either case, or none
/// when `s` is not exactly 64 such digits.
pub fn hash_from_hex(s: &str) -> (r: Option<ContentHash>)
    ensures
        match r {
            Some(h) => spells(s@, h),
            None => !is_hex_hash(s@),
        },
{
    if s.unicode_len() != 64 {
        return None;
    }
    let mut h: ContentHash = [0u8; 32];
    let mut i: usize = 0;
    while i < 32
        invariant
            0 <= i <= 32,
            s@.len() == 64,
            forall|j: int| 0 <= j < 2 * i ==> (#[trigger] digit_value(s@[j])) is Some,
            forall|j: int|
                0 <= j < i ==> #[trigger] h[j] == digit_value(s@[2 * j]).unwrap() * 16 + digit_value(
                    s@[2 * j + 1],
                ).unwrap(),
        decreases 32 - i,
    {
        let hi = digit_of(s.get_char(2 * i));
        let lo = digit_of(s.get_char(2 * i + 1));
        match (hi, lo) {
            (Some(a), Some(b)) => {
                h[i] = a * 16 + b;
            },
            _ => {
                return None;
            },
        }
        i = i + 1;
    }
    Some(h)
}

proof fn lemma_hex_at(b: Seq<u8>, i: int)
    requires
        0 <= i < b.len(),
    ensures
        hex_of(b).len() == 2 * b.len(),
        hex_of(b)[2 * i] == hex_digit(b[i] / 16),
        hex_of(b)[2 * i + 1] == hex_digit(b[i] % 16),
    decreases b.len(),
{
    lemma_hex_len(b.drop_last());
    if i < b.len() - 1 {
        lemma_hex_at(b.drop_last(), i);
    }
}

proof fn lemma_hex_len(b: Seq<u8>)
    ensures
        hex_of(b).len() == 2 * b.len(),
    decreases b.len(),
{
    if b.len() > 0 {
        lemma_hex_len(b.drop_last());
    }
}

proof fn lemma_digit_round_trip(v: u8)
    requires
        v < 16,
    ensures
        digit_value(hex_digit(v)) == Some(v),
{
}

/// Writing a digest in hexadecimal and reading it back gives the digest.
pub proof fn lemma_hex_round_trip(h: ContentHash)
    ensures
        spells(hex_of(h@), h),
{
    let s = hex_of(h@);
    lemma_hex_len(h@);
    assert forall|i: int| 0 <= i < 64 implies (#[trigger] digit_value(s[i])) is Some by {
        let k = i / 2;
        lemma_hex_at(h@, k);
        lemma_digit_round_trip(h[k] / 16);
        lemma_digit_round_trip(h[k] % 16);
        if i % 2 == 0 {
            assert(i == 2 * k);
        } else {
            assert(i == 2 * k + 1);
        }
    }
    assert forall|i: int| 0 <= i < 32 implies #[trigger] h[i] == digit_value(s[2 * i]).unwrap() * 16
        + digit_value(s[2 * i + 1]).unwrap() by {
        lemma_hex_at(h@, i);
        lemma_digit_round_trip(h[i] / 16);
        lemma_digit_round_trip(h[i] % 16);
    }
}

} // verus!
