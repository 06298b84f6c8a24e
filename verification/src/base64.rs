//! Standard base64: the wire form of binary program sources.
use vstd::prelude::*;

use crate::strs::chars_of;

verus! {

/// The digit for a value below 64.
pub open spec fn digit(n: int) -> char {
    if n < 26 {
        ('A' as int + n) as char
    } else if n < 52 {
        ('a' as int + (n - 26)) as char
    } else if n < 62 {
        ('0' as int + (n - 52)) as char
    } else if n == 62 {
        '+'
    } else {
        '/'
    }
}

/// The value of a digit.
pub open spec fn value(c: char) -> Option<int> {
    if 'A' <= c <= 'Z' {
        Some(c as int - 'A' as int)
    } else if 'a' <= c <= 'z' {
        Some(c as int - 'a' as int + 26)
    } else if '0' <= c <= '9' {
        Some(c as int - '0' as int + 52)
    } else if c == '+' {
        Some(62)
    } else if c == '/' {
        Some(63)
    } else {
        None
    }
}

/// The four digits of a group of bytes: three bytes in full, or one or two with
/// padding.
pub open spec fn group(b: Seq<u8>) -> Seq<char> {
    let first = digit(b[0] as int / 4);
    if b.len() == 1 {
        seq![first, digit((b[0] as int % 4) * 16), '=', '=']
    } else {
        let second = digit((b[0] as int % 4) * 16 + b[1] as int / 16);
        if b.len() == 2 {
            seq![first, second, digit((b[1] as int % 16) * 4), '=']
        } else {
            seq![
                first,
                second,
                digit((b[1] as int % 16) * 4 + b[2] as int / 64),
                digit(b[2] as int % 64),
            ]
        }
    }
}

/// The base64 text of `b`.
pub open spec fn encoded(b: Seq<u8>) -> Seq<char>
    decreases b.len(),
{
    if b.len() == 0 {
        Seq::empty()
    } else if b.len() <= 3 {
        group(b)
    } else {
        group(b.take(3)) + encoded(b.skip(3))
    }
}

/// The bytes of the group of digits that starts a text, if it is one; padding
/// ends the text.
pub open spec fn first_group(s: Seq<char>) -> Option<Seq<u8>> {
    match (value(s[0]), value(s[1])) {
        (Some(a), Some(b)) => if s.len() == 4 && s[3] == '=' {
            if s[2] == '=' {
                if b % 16 == 0 {
                    Some(seq![(a * 4 + b / 16) as u8])
                } else {
                    None
                }
            } else {
                match value(s[2]) {
                    Some(c) if c % 4 == 0 => Some(
                        seq![(a * 4 + b / 16) as u8, ((b % 16) * 16 + c / 4) as u8],
                    ),
                    _ => None,
                }
            }
        } else {
            match (value(s[2]), value(s[3])) {
                (Some(c), Some(d)) => Some(
                    seq![
                        (a * 4 + b / 16) as u8,
                        ((b % 16) * 16 + c / 4) as u8,
                        ((c % 4) * 64 + d) as u8,
                    ],
                ),
                _ => None,
            }
        },
        _ => None,
    }
}

/// The bytes of a base64 text, if it is one.
pub open spec fn decoded(s: Seq<char>) -> Option<Seq<u8>>
    decreases s.len(),
{
    if s.len() == 0 {
        Some(Seq::empty())
    } else if s.len() < 4 {
        None
    } else {
        match (first_group(s), decoded(s.skip(4))) {
            (Some(g), Some(rest)) => Some(g + rest),
            _ => None,
        }
    }
}

proof fn lemma_digit(n: int)
    requires
        0 <= n < 64,
    ensures
        value(digit(n)) == Some(n),
        digit(n) != '=',
{
}

proof fn lemma_value(c: char)
    ensures
        value(c) matches Some(n) ==> 0 <= n < 64 && digit(n) == c && c != '=',
{
}

proof fn lemma_group_is_read(b: Seq<u8>, rest: Seq<char>)
    requires
        1 <= b.len() <= 3,
        b.len() < 3 ==> rest.len() == 0,
    ensures
        group(b).len() == 4,
        first_group(group(b) + rest) == Some(b),
{
    let s = group(b) + rest;
    lemma_digit(b[0] as int / 4);
    if b.len() == 1 {
        lemma_digit((b[0] as int % 4) * 16);
        assert(first_group(s)->Some_0 =~= b);
    } else {
        lemma_digit((b[0] as int % 4) * 16 + b[1] as int / 16);
        if b.len() == 2 {
            lemma_digit((b[1] as int % 16) * 4);
            assert(first_group(s)->Some_0 =~= b);
        } else {
            lemma_digit((b[1] as int % 16) * 4 + b[2] as int / 64);
            lemma_digit(b[2] as int % 64);
            assert(first_group(s)->Some_0 =~= b);
        }
    }
}

proof fn lemma_read_is_group(s: Seq<char>)
    requires
        s.len() >= 4,
        first_group(s) is Some,
    ensures
        ({
            let g = first_group(s)->Some_0;
            &&& 1 <= g.len() <= 3
            &&& g.len() < 3 ==> s.len() == 4
            &&& group(g) == s.take(4)
        }),
{
    lemma_value(s[0]);
    lemma_value(s[1]);
    lemma_value(s[2]);
    lemma_value(s[3]);
    let g = first_group(s)->Some_0;
    assert(group(g) =~= s.take(4));
}

/// Decoding what was encoded gives the bytes back.
pub proof fn law_decoding_undoes_encoding(b: Seq<u8>)
    ensures
        decoded(encoded(b)) == Some(b),
    decreases b.len(),
{
    if b.len() == 0 {
        assert(decoded(encoded(b))->Some_0 =~= b);
    } else if b.len() <= 3 {
        lemma_group_is_read(b, Seq::empty());
        assert(group(b) + Seq::<char>::empty() =~= encoded(b));
        assert(encoded(b).skip(4) =~= Seq::empty());
        assert(decoded(Seq::empty()) == Some(Seq::<u8>::empty()));
        assert(b + Seq::<u8>::empty() =~= b);
    } else {
        let rest = encoded(b.skip(3));
        law_decoding_undoes_encoding(b.skip(3));
        lemma_group_is_read(b.take(3), rest);
        assert(encoded(b).skip(4) =~= rest);
        assert(b.take(3) + b.skip(3) =~= b);
    }
}

/// Only the encoding of some bytes is decoded, and to those bytes.
pub proof fn law_only_encodings_are_decoded(s: Seq<char>)
    ensures
        decoded(s) matches Some(b) ==> encoded(b) == s,
    decreases s.len(),
{
    if decoded(s) is Some && s.len() > 0 {
        let g = first_group(s)->Some_0;
        let tail = s.skip(4);
        let rest = decoded(tail)->Some_0;
        lemma_read_is_group(s);
        law_only_encodings_are_decoded(tail);
        let b = decoded(s)->Some_0;
        if g.len() < 3 {
            assert(tail =~= Seq::empty());
            assert(b =~= g);
            assert(s.take(4) =~= s);
        } else if rest.len() == 0 {
            assert(b =~= g);
            assert(tail =~= Seq::empty());
            assert(s.take(4) =~= s);
        } else {
            assert(b.take(3) =~= g);
            assert(b.skip(3) =~= rest);
            assert(s.take(4) + tail =~= s);
        }
    } else if s.len() == 0 {
        assert(encoded(Seq::<u8>::empty()) =~= s);
    }
}

fn value_of(c: char) -> (r: Option<u8>)
    ensures
        match r {
            Some(v) => value(c) == Some(v as int) && v < 64,
            None => value(c) is None,
        },
{
    let n: u32 = c as u32;
    if 'A' <= c && c <= 'Z' {
        Some((n - 65) as u8)
    } else if 'a' <= c && c <= 'z' {
        Some((n - 97 + 26) as u8)
    } else if '0' <= c && c <= '9' {
        Some((n - 48 + 52) as u8)
    } else if c == '+' {
        Some(62)
    } else if c == '/' {
        Some(63)
    } else {
        None
    }
}

/// The bytes that `s` is the base64 text of, if it is one.
pub fn decode(s: &str) -> (r: Option<Vec<u8>>)
    ensures
        match r {
            Some(b) => encoded(b@) == s@,
            None => forall|b: Seq<u8>| #[trigger] encoded(b) != s@,
        },
{
    let v = chars_of(s);
    let n: usize = v.len();
    let mut out: Vec<u8> = Vec::new();
    let mut i: usize = 0;
    proof {
        law_only_encodings_are_decoded(s@);
        assert forall|b: Seq<u8>| #[trigger] encoded(b) == s@ implies decoded(s@) is Some by {
            law_decoding_undoes_encoding(b);
        }
        assert(s@.skip(0) =~= s@);
        if decoded(s@) is Some {
            assert(Seq::<u8>::empty() + decoded(s@)->Some_0 =~= decoded(s@)->Some_0);
        }
    }
    while i < n
        invariant
            i <= n,
            n == v@.len(),
            v@ == s@,
            decoded(s@) == match decoded(s@.skip(i as int)) {
                Some(rest) => Some(out@ + rest),
                None => None,
            },
            forall|b: Seq<u8>| #[trigger] encoded(b) == s@ ==> decoded(s@) is Some,
            decoded(s@) matches Some(b) ==> encoded(b) == s@,
        decreases n - i,
    {
        let ghost rest = s@.skip(i as int);
        if n - i < 4 {
            return None;
        }
        assert(rest.skip(4) =~= s@.skip(i + 4));
        let a: u8 = match value_of(v[i]) {
            Some(x) => x,
            None => {
                return None;
            },
        };
        let b: u8 = match value_of(v[i + 1]) {
            Some(x) => x,
            None => {
                return None;
            },
        };
        let ghost before = out@;
        if n - i == 4 && v[i + 3] == '=' {
            if v[i + 2] == '=' {
                if b % 16 != 0 {
                    return None;
                }
                out.push(a * 4 + b / 16);
            } else {
                let c: u8 = match value_of(v[i + 2]) {
                    Some(x) => x,
                    None => {
                        return None;
                    },
                };
                if c % 4 != 0 {
                    return None;
                }
                out.push(a * 4 + b / 16);
                out.push((b % 16) * 16 + c / 4);
            }
        } else {
            let c: u8 = match value_of(v[i + 2]) {
                Some(x) => x,
                None => {
                    return None;
                },
            };
            let d: u8 = match value_of(v[i + 3]) {
                Some(x) => x,
                None => {
                    return None;
                },
            };
            out.push(a * 4 + b / 16);
            out.push((b % 16) * 16 + c / 4);
            out.push((c % 4) * 64 + d);
        }
        assert(first_group(rest) is Some);
        let ghost g = first_group(rest)->Some_0;
        assert(out@ =~= before + g);
        i = i + 4;
        proof {
            if let Some(tail) = decoded(rest.skip(4)) {
                assert(before + (g + tail) =~= out@ + tail);
            }
        }
    }
    assert(s@.skip(i as int) =~= Seq::empty());
    assert(out@ + Seq::<u8>::empty() =~= out@);
    Some(out)
}

} // verus!
