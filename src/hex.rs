//! Lower-case hexadecimal text, as ASCII bytes.
use vstd::prelude::*;

verus! {

/// The ASCII digit of a nibble, lower case.
pub open spec fn hex_digit(v: u8) -> u8
    recommends
        v < 16,
{
    if v < 10 {
        (48 + v) as u8
    } else {
        (87 + v) as u8
    }
}

pub open spec fn is_hex_char(c: u8) -> bool {
    (48 <= c <= 57) || (97 <= c <= 102) || (65 <= c <= 70)
}

/// The nibble of an ASCII hex digit, of either case.
pub open spec fn nibble_of(c: u8) -> u8 {
    if 48 <= c <= 57 {
        (c - 48) as u8
    } else if 97 <= c <= 102 {
        (c - 87) as u8
    } else {
        (c - 55) as u8
    }
}

/// Two digits per byte, high nibble first.
pub open spec fn hex_encode(bytes: Seq<u8>) -> Seq<u8> {
    Seq::new(
        2 * bytes.len(),
        |i: int|
            if i % 2 == 0 {
                hex_digit(bytes[i / 2] / 16)
            } else {
                hex_digit(bytes[i / 2] % 16)
            },
    )
}

pub open spec fn is_hex_text(text: Seq<u8>) -> bool {
    &&& text.len() % 2 == 0
    &&& forall|i: int| 0 <= i < text.len() ==> is_hex_char(#[trigger] text[i])
}

/// The bytes that hex text spells, or `None` where it is no hex text.
pub open spec fn hex_decode(text: Seq<u8>) -> Option<Seq<u8>> {
    if is_hex_text(text) {
        Some(
            Seq::new(
                text.len() / 2,
                |i: int| (nibble_of(text[2 * i]) * 16 + nibble_of(text[2 * i + 1])) as u8,
            ),
        )
    } else {
        None
    }
}

fn digit_of(v: u8) -> (r: u8)
    requires
        v < 16,
    ensures
        r == hex_digit(v),
{
    if v < 10 {
        48 + v
    } else {
        87 + v
    }
}

fn nibble(c: u8) -> (r: Option<u8>)
    ensures
        r == (if is_hex_char(c) {
            Some(nibble_of(c))
        } else {
            None::<u8>
        }),
{
    if 48 <= c && c <= 57 {
        Some(c - 48)
    } else if 97 <= c && c <= 102 {
        Some(c - 87)
    } else if 65 <= c && c <= 70 {
        Some(c - 55)
    } else {
        None
    }
}

/// The hex text of `bytes`.
pub fn to_hex(bytes: &[u8]) -> (r: Vec<u8>)
    requires
        2 * bytes@.len() <= usize::MAX,
    ensures
        r@ == hex_encode(bytes@),
{
    let mut out: Vec<u8> = Vec::new();
    let mut i: usize = 0;
    while i < bytes.len()
        invariant
            i <= bytes@.len(),
            out@ == hex_encode(bytes@).take(2 * i as int),
        decreases bytes@.len() - i,
    {
        let b = bytes[i];
        out.push(digit_of(b / 16));
        out.push(digit_of(b % 16));
        assert(out@ =~= hex_encode(bytes@).take(2 * i as int + 2));
        i = i + 1;
    }
    assert(out@ =~= hex_encode(bytes@));
    out
}

/// The bytes that `text` spells; `None` where its length is odd or a
/// character is no hex digit.
pub fn from_hex(text: &[u8]) -> (r: Option<Vec<u8>>)
    ensures
        r matches Some(v) ==> hex_decode(text@) == Some(v@),
        r is None ==> hex_decode(text@) is None,
{
    if text.len() % 2 != 0 {
        return None;
    }
    let n = text.len() / 2;
    let ghost expect = Seq::new(
        n as nat,
        |i: int| (nibble_of(text@[2 * i]) * 16 + nibble_of(text@[2 * i + 1])) as u8,
    );
    let mut out: Vec<u8> = Vec::new();
    let mut i: usize = 0;
    while i < n
        invariant
            n == text@.len() / 2,
            text@.len() % 2 == 0,
            text@.len() == 2 * n,
            2 * n <= usize::MAX,
            expect.len() == n,
            forall|k: int|
                0 <= k < n ==> #[trigger] expect[k] == (nibble_of(text@[2 * k]) * 16 + nibble_of(
                    text@[2 * k + 1],
                )) as u8,
            i <= n,
            out@ == expect.take(i as int),
            forall|j: int| 0 <= j < 2 * i ==> is_hex_char(#[trigger] text@[j]),
        decreases n - i,
    {
        let hi = match nibble(text[2 * i]) {
            Some(v) => v,
            None => return None,
        };
        let lo = match nibble(text[2 * i + 1]) {
            Some(v) => v,
            None => return None,
        };
        assert(hi < 16 && lo < 16);
        assert(expect[i as int] == hi * 16 + lo);
        out.push(hi * 16 + lo);
        assert(out@ =~= expect.take(i as int + 1));
        assert(forall|j: int| 0 <= j < 2 * (i + 1) ==> is_hex_char(#[trigger] text@[j]));
        i = i + 1;
    }
    assert(out@ =~= expect);
    Some(out)
}

/// Decoding the hex text of some bytes gives those bytes back.
pub proof fn lemma_hex_round_trip(bytes: Seq<u8>)
    ensures
        hex_decode(hex_encode(bytes)) == Some(bytes),
{
    let t = hex_encode(bytes);
    assert forall|i: int| 0 <= i < t.len() implies is_hex_char(#[trigger] t[i]) by {
        assert(bytes[i / 2] / 16 < 16);
        assert(bytes[i / 2] % 16 < 16);
    }
    let d = hex_decode(t).unwrap();
    assert forall|i: int| 0 <= i < bytes.len() implies d[i] == bytes[i] by {
        let b = bytes[i];
        assert(t[2 * i] == hex_digit(b / 16));
        assert(t[2 * i + 1] == hex_digit(b % 16));
        assert((b / 16) * 16 + b % 16 == b);
    }
    assert(d =~= bytes);
}

} // verus!
