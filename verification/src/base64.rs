//! Base64, as inline content is written: the standard alphabet, with padding.
use vstd::prelude::*;

verus! {

/// The character, as a byte, of a group of six bits.
pub open spec fn sextet_byte(i: int) -> u8 {
    if i < 26 {
        (65 + i) as u8
    } else if i < 52 {
        (97 + (i - 26)) as u8
    } else if i < 62 {
        (48 + (i - 52)) as u8
    } else if i == 62 {
        43
    } else {
        47
    }
}

/// The group of six bits that a character stands for, if it is of the
/// alphabet.
pub open spec fn byte_sextet(b: u8) -> Option<int> {
    if 65 <= b <= 90 {
        Some(b - 65)
    } else if 97 <= b <= 122 {
        Some(b - 97 + 26)
    } else if 48 <= b <= 57 {
        Some(b - 48 + 52)
    } else if b == 43 {
        Some(62)
    } else if b == 47 {
        Some(63)
    } else {
        None
    }
}

/// The padding character, `=`.
pub open spec fn pad() -> u8 {
    61
}

/// The base64 text of `bytes`: four characters for every three bytes, the
/// last group padded.
pub open spec fn encoded(bytes: Seq<u8>) -> Seq<u8>
    decreases bytes.len(),
{
    if bytes.len() == 0 {
        Seq::empty()
    } else if bytes.len() == 1 {
        let b0 = bytes[0] as int;
        seq![sextet_byte(b0 / 4), sextet_byte((b0 % 4) * 16), pad(), pad()]
    } else if bytes.len() == 2 {
        let b0 = bytes[0] as int;
        let b1 = bytes[1] as int;
        seq![
            sextet_byte(b0 / 4),
            sextet_byte((b0 % 4) * 16 + b1 / 16),
            sextet_byte((b1 % 16) * 4),
            pad(),
        ]
    } else {
        let b0 = bytes[0] as int;
        let b1 = bytes[1] as int;
        let b2 = bytes[2] as int;
        seq![
            sextet_byte(b0 / 4),
            sextet_byte((b0 % 4) * 16 + b1 / 16),
            sextet_byte((b1 % 16) * 4 + b2 / 64),
            sextet_byte(b2 % 64),
        ] + encoded(bytes.skip(3))
    }
}

/// The bytes that a base64 text stands for, if it is one: groups of four
/// characters of the alphabet, the last of which may be padded, with no bit
/// set that belongs to no byte.
pub open spec fn decoded(text: Seq<u8>) -> Option<Seq<u8>>
    decreases text.len(),
{
    if text.len() == 0 {
        Some(Seq::empty())
    } else if text.len() < 4 {
        None
    } else {
        let a = byte_sextet(text[0]);
        let b = byte_sextet(text[1]);
        let c = byte_sextet(text[2]);
        let d = byte_sextet(text[3]);
        if a is None || b is None {
            None
        } else if text.len() == 4 && text[2] == pad() && text[3] == pad() {
            if b->0 % 16 == 0 {
                Some(seq![(a->0 * 4 + b->0 / 16) as u8])
            } else {
                None
            }
        } else if c is None {
            None
        } else if text.len() == 4 && text[3] == pad() {
            if c->0 % 4 == 0 {
                Some(seq![(a->0 * 4 + b->0 / 16) as u8, ((b->0 % 16) * 16 + c->0 / 4) as u8])
            } else {
                None
            }
        } else if d is None {
            None
        } else {
            match decoded(text.skip(4)) {
                Some(rest) => Some(
                    seq![
                        (a->0 * 4 + b->0 / 16) as u8,
                        ((b->0 % 16) * 16 + c->0 / 4) as u8,
                        ((c->0 % 4) * 64 + d->0) as u8,
                    ] + rest,
                ),
                None => None,
            }
        }
    }
}

/// A group of six bits is read back from its character.
pub proof fn lemma_sextet_round_trip(i: int)
    requires
        0 <= i < 64,
    ensures
        byte_sextet(sextet_byte(i)) == Some(i),
        sextet_byte(i) != pad(),
{
}

/// Round trip: the text of some bytes stands for these bytes.
pub proof fn lemma_round_trip(bytes: Seq<u8>)
    ensures
        decoded(encoded(bytes)) == Some(bytes),
    decreases bytes.len(),
{
    let text = encoded(bytes);
    if bytes.len() == 0 {
        assert(bytes =~= Seq::<u8>::empty());
    } else {
        let b0 = bytes[0] as int;
        lemma_sextet_round_trip(b0 / 4);
        if bytes.len() == 1 {
            lemma_sextet_round_trip((b0 % 4) * 16);
            assert(decoded(text)->0 =~= bytes);
        } else {
            let b1 = bytes[1] as int;
            lemma_sextet_round_trip((b0 % 4) * 16 + b1 / 16);
            if bytes.len() == 2 {
                lemma_sextet_round_trip((b1 % 16) * 4);
                assert(decoded(text)->0 =~= bytes);
            } else {
                let b2 = bytes[2] as int;
                lemma_sextet_round_trip((b1 % 16) * 4 + b2 / 64);
                lemma_sextet_round_trip(b2 % 64);
                lemma_round_trip(bytes.skip(3));
                assert(text.skip(4) =~= encoded(bytes.skip(3)));
                assert(seq![bytes[0], bytes[1], bytes[2]] + bytes.skip(3) =~= bytes);
                assert(decoded(text)->0 =~= bytes);
            }
        }
    }
}

/// The character of a group of six bits.
fn sextet(i: u8) -> (r: u8)
    requires
        i < 64,
    ensures
        r == sextet_byte(i as int),
{
    if i < 26 {
        65 + i
    } else if i < 52 {
        97 + (i - 26)
    } else if i < 62 {
        48 + (i - 52)
    } else if i == 62 {
        43
    } else {
        47
    }
}

/// The group of six bits of a character of the alphabet.
fn unsextet(b: u8) -> (r: Option<u8>)
    ensures
        r is Some == byte_sextet(b) is Some,
        r matches Some(i) ==> i < 64 && i as int == byte_sextet(b)->0,
{
    if 65 <= b && b <= 90 {
        Some(b - 65)
    } else if 97 <= b && b <= 122 {
        Some(b - 97 + 26)
    } else if 48 <= b && b <= 57 {
        Some(b - 48 + 52)
    } else if b == 43 {
        Some(62)
    } else if b == 47 {
        Some(63)
    } else {
        None
    }
}

/// Writes bytes as base64 text.
pub fn encode(bytes: &[u8]) -> (text: Vec<u8>)
    ensures
        text@ == encoded(bytes@),
{
    let n = bytes.len();
    let mut text: Vec<u8> = Vec::new();
    let mut i: usize = 0;
    assert(bytes@.skip(0) =~= bytes@);
    while n - i >= 3
        invariant
            i <= n,
            n == bytes@.len(),
            encoded(bytes@) == text@ + encoded(bytes@.skip(i as int)),
        decreases n - i,
    {
        let b0 = bytes[i];
        let b1 = bytes[i + 1];
        let b2 = bytes[i + 2];
        let ghost before = text@;
        text.push(sextet(b0 / 4));
        text.push(sextet((b0 % 4) * 16 + b1 / 16));
        text.push(sextet((b1 % 16) * 4 + b2 / 64));
        text.push(sextet(b2 % 64));
        assert(bytes@.skip(i as int).skip(3) =~= bytes@.skip(i + 3));
        assert(text@ + encoded(bytes@.skip(i + 3)) =~= before + encoded(bytes@.skip(i as int)));
        i = i + 3;
    }
    let ghost before = text@;
    if n - i == 1 {
        let b0 = bytes[i];
        text.push(sextet(b0 / 4));
        text.push(sextet((b0 % 4) * 16));
        text.push(61);
        text.push(61);
        assert(text@ =~= before + encoded(bytes@.skip(i as int)));
    } else if n - i == 2 {
        let b0 = bytes[i];
        let b1 = bytes[i + 1];
        text.push(sextet(b0 / 4));
        text.push(sextet((b0 % 4) * 16 + b1 / 16));
        text.push(sextet((b1 % 16) * 4));
        text.push(61);
        assert(text@ =~= before + encoded(bytes@.skip(i as int)));
    } else {
        assert(text@ =~= before + encoded(bytes@.skip(i as int)));
    }
    text
}

/// Reads the bytes that a base64 text stands for.
pub fn decode(text: &[u8]) -> (bytes: Option<Vec<u8>>)
    ensures
        bytes is Some == decoded(text@) is Some,
        bytes matches Some(b) ==> b@ == decoded(text@)->0,
{
    let n = text.len();
    let mut bytes: Vec<u8> = Vec::new();
    let mut i: usize = 0;
    assert(text@.skip(0) =~= text@);
    while i < n
        invariant
            i <= n,
            n == text@.len(),
            decoded(text@) == match decoded(text@.skip(i as int)) {
                Some(rest) => Some(bytes@ + rest),
                None => None,
            },
        decreases n - i,
    {
        let ghost tail = text@.skip(i as int);
        let ghost before = bytes@;
        if n - i < 4 {
            return None;
        }
        let a = match unsextet(text[i]) {
            Some(a) => a,
            None => {
                return None;
            },
        };
        let b = match unsextet(text[i + 1]) {
            Some(b) => b,
            None => {
                return None;
            },
        };
        let last = n - i == 4;
        if last && text[i + 2] == 61 && text[i + 3] == 61 {
            if b % 16 != 0 {
                return None;
            }
            bytes.push(a * 4 + b / 16);
            assert(bytes@ =~= before + decoded(tail)->0);
            return Some(bytes);
        }
        let c = match unsextet(text[i + 2]) {
            Some(c) => c,
            None => {
                return None;
            },
        };
        if last && text[i + 3] == 61 {
            if c % 4 != 0 {
                return None;
            }
            bytes.push(a * 4 + b / 16);
            bytes.push((b % 16) * 16 + c / 4);
            assert(bytes@ =~= before + decoded(tail)->0);
            return Some(bytes);
        }
        let d = match unsextet(text[i + 3]) {
            Some(d) => d,
            None => {
                return None;
            },
        };
        bytes.push(a * 4 + b / 16);
        bytes.push((b % 16) * 16 + c / 4);
        bytes.push((c % 4) * 64 + d);
        assert(tail.skip(4) =~= text@.skip(i + 4));
        proof {
            match decoded(text@.skip(i + 4)) {
                Some(rest) => {
                    assert(bytes@ + rest =~= before + decoded(tail)->0);
                },
                None => {},
            }
        }
        i = i + 4;
    }
    assert(bytes@ + Seq::<u8>::empty() =~= bytes@);
    Some(bytes)
}

} // verus!
