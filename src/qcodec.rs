//! The "Q" encoding of RFC 2047: a byte is written as itself when it is a
//! character that is safe in every header context, a space as `_`, and
//! anything else as `=` followed by two upper-case hexadecimal digits.
use vstd::prelude::*;

verus! {

/// The upper-case hexadecimal digit of a nibble.
pub open spec fn hex_digit(n: u8) -> char
    recommends
        n < 16,
{
    if n < 10 {
        ((n + 48) as u8) as char
    } else {
        ((n + 55) as u8) as char
    }
}

/// The value of a hexadecimal digit (either case).
pub open spec fn hex_value(c: char) -> Option<u8> {
    if '0' <= c && c <= '9' {
        Some((c as u32 - 48) as u8)
    } else if 'A' <= c && c <= 'F' {
        Some((c as u32 - 55) as u8)
    } else if 'a' <= c && c <= 'f' {
        Some((c as u32 - 87) as u8)
    } else {
        None
    }
}

/// Bytes written as themselves: letters, digits and `! * + - /`, which are
/// allowed in an encoded word in plain text, in comments and in phrases.
pub open spec fn is_q_literal(b: u8) -> bool {
    (48 <= b && b <= 57) || (65 <= b && b <= 90) || (97 <= b && b <= 122) || b == 33 || b == 42
        || b == 43 || b == 45 || b == 47
}

/// The characters that stand for one byte.
pub open spec fn q_byte(b: u8) -> Seq<char> {
    if is_q_literal(b) {
        seq![b as char]
    } else if b == 32 {
        seq!['_']
    } else {
        seq!['=', hex_digit(b / 16), hex_digit(b % 16)]
    }
}

/// The "Q" encoding of a byte sequence.
pub open spec fn q_encoded(bs: Seq<u8>) -> Seq<char>
    decreases bs.len(),
{
    if bs.len() == 0 {
        seq![]
    } else {
        q_byte(bs[0]) + q_encoded(bs.skip(1))
    }
}

pub open spec fn prepend(b: u8, rest: Option<Seq<u8>>) -> Option<Seq<u8>> {
    match rest {
        Some(r) => Some(seq![b] + r),
        None => None,
    }
}

/// Decoding of "Q" encoded text: `_` is a space, `=` must be followed by two
/// hexadecimal digits, any other ASCII character is its own byte; anything
/// else makes the text undecodable.
pub open spec fn q_decoded(s: Seq<char>) -> Option<Seq<u8>>
    decreases s.len(),
{
    if s.len() == 0 {
        Some(seq![])
    } else if s[0] == '=' {
        if s.len() >= 3 && hex_value(s[1]) is Some && hex_value(s[2]) is Some {
            prepend(
                (hex_value(s[1]).unwrap() * 16 + hex_value(s[2]).unwrap()) as u8,
                q_decoded(s.skip(3)),
            )
        } else {
            None
        }
    } else if s[0] == '_' {
        prepend(32, q_decoded(s.skip(1)))
    } else if (s[0] as u32) < 128 {
        prepend(s[0] as u32 as u8, q_decoded(s.skip(1)))
    } else {
        None
    }
}

/// Characters that the "Q" encoder may emit.
pub open spec fn is_q_output_char(c: char) -> bool {
    ('0' <= c && c <= '9') || ('A' <= c && c <= 'Z') || ('a' <= c && c <= 'z') || c == '!'
        || c == '*' || c == '+' || c == '-' || c == '/' || c == '=' || c == '_'
}

pub proof fn lemma_q_encoded_concat(a: Seq<u8>, b: Seq<u8>)
    ensures
        q_encoded(a + b) == q_encoded(a) + q_encoded(b),
    decreases a.len(),
{
    if a.len() == 0 {
        assert(a + b =~= b);
        assert(q_encoded(a) + q_encoded(b) =~= q_encoded(b));
    } else {
        assert((a + b).skip(1) =~= a.skip(1) + b);
        lemma_q_encoded_concat(a.skip(1), b);
        assert(q_encoded(a + b) =~= q_encoded(a) + q_encoded(b));
    }
}

pub proof fn lemma_q_encoded_chars(bs: Seq<u8>)
    ensures
        forall|i: int| 0 <= i < q_encoded(bs).len() ==> is_q_output_char(#[trigger] q_encoded(bs)[i]),
        bs.len() <= q_encoded(bs).len() <= 3 * bs.len(),
    decreases bs.len(),
{
    if bs.len() > 0 {
        lemma_q_encoded_chars(bs.skip(1));
        let b = bs[0];
        assert(b / 16 < 16 && b % 16 < 16);
        let head = q_byte(b);
        let tail = q_encoded(bs.skip(1));
        assert forall|i: int| 0 <= i < q_encoded(bs).len() implies is_q_output_char(
            #[trigger] q_encoded(bs)[i],
        ) by {
            if i < head.len() {
                assert(q_encoded(bs)[i] == head[i]);
            } else {
                assert(q_encoded(bs)[i] == tail[i - head.len()]);
            }
        }
    }
}

proof fn lemma_hex_round_trip(n: u8)
    requires
        n < 16,
    ensures
        hex_value(hex_digit(n)) == Some(n),
{
}

proof fn lemma_q_decoded_byte(b: u8, t: Seq<char>)
    ensures
        q_decoded(q_byte(b) + t) == prepend(b, q_decoded(t)),
{
    let s = q_byte(b) + t;
    if is_q_literal(b) {
        assert(s[0] == b as char);
        assert(s.skip(1) =~= t);
    } else if b == 32 {
        assert(s[0] == '_');
        assert(s.skip(1) =~= t);
    } else {
        lemma_hex_round_trip(b / 16);
        lemma_hex_round_trip(b % 16);
        assert(s[0] == '=' && s[1] == hex_digit(b / 16) && s[2] == hex_digit(b % 16));
        assert(s.skip(3) =~= t);
        assert(((b / 16) * 16 + b % 16) as u8 == b);
    }
}

/// Decoding the "Q" encoding of bytes gives the bytes back.
pub proof fn lemma_q_round_trip(bs: Seq<u8>)
    ensures
        q_decoded(q_encoded(bs)) == Some(bs),
    decreases bs.len(),
{
    if bs.len() > 0 {
        lemma_q_round_trip(bs.skip(1));
        lemma_q_decoded_byte(bs[0], q_encoded(bs.skip(1)));
        assert(seq![bs[0]] + bs.skip(1) =~= bs);
    }
}

fn hex_digit_exec(n: u8) -> (c: char)
    requires
        n < 16,
    ensures
        c == hex_digit(n),
{
    if n < 10 {
        (n + 48) as char
    } else {
        (n + 55) as char
    }
}

fn hex_value_exec(c: char) -> (r: Option<u8>)
    ensures
        r == hex_value(c),
{
    if '0' <= c && c <= '9' {
        Some((c as u32 - 48) as u8)
    } else if 'A' <= c && c <= 'F' {
        Some((c as u32 - 55) as u8)
    } else if 'a' <= c && c <= 'f' {
        Some((c as u32 - 87) as u8)
    } else {
        None
    }
}

/// Writes bytes in the "Q" encoding.
pub fn q_encode(bs: &Vec<u8>) -> (r: Vec<char>)
    ensures
        r@ == q_encoded(bs@),
{
    let mut out: Vec<char> = Vec::new();
    let mut i: usize = 0;
    while i < bs.len()
        invariant
            i <= bs@.len(),
            out@ == q_encoded(bs@.take(i as int)),
        decreases bs@.len() - i,
    {
        let b = bs[i];
        proof {
            assert(bs@.take(i as int + 1) =~= bs@.take(i as int) + seq![b]);
            lemma_q_encoded_concat(bs@.take(i as int), seq![b]);
            assert(seq![b].skip(1) =~= Seq::<u8>::empty());
            assert(q_encoded(seq![b].skip(1)) =~= Seq::<char>::empty());
            assert(q_encoded(seq![b]) =~= q_byte(b));
        }
        if (48 <= b && b <= 57) || (65 <= b && b <= 90) || (97 <= b && b <= 122) || b == 33 || b
            == 42 || b == 43 || b == 45 || b == 47 {
            out.push(b as char);
        } else if b == 32 {
            out.push('_');
        } else {
            out.push('=');
            out.push(hex_digit_exec(b / 16));
            out.push(hex_digit_exec(b % 16));
        }
        i += 1;
    }
    assert(bs@.take(i as int) =~= bs@);
    out
}

/// Reads "Q" encoded text back into bytes; `None` where it is malformed.
pub fn q_decode(s: &Vec<char>) -> (r: Option<Vec<u8>>)
    ensures
        match r {
            Some(v) => q_decoded(s@) == Some(v@),
            None => q_decoded(s@) is None,
        },
{
    let mut out: Vec<u8> = Vec::new();
    let mut i: usize = 0;
    assert(s@.skip(0) =~= s@);
    proof {
        if let Some(t) = q_decoded(s@) {
            assert(out@ + t =~= t);
        }
    }
    while i < s.len()
        invariant
            i <= s@.len(),
            q_decoded(s@) == match q_decoded(s@.skip(i as int)) {
                Some(rest) => Some(out@ + rest),
                None => None::<Seq<u8>>,
            },
        decreases s@.len() - i,
    {
        let ghost rest = s@.skip(i as int);
        let c = s[i];
        assert(rest[0] == c);
        if c == '=' {
            if s.len() - i > 2 {
                let h = hex_value_exec(s[i + 1]);
                let l = hex_value_exec(s[i + 2]);
                assert(rest[1] == s@[i + 1] && rest[2] == s@[i + 2]);
                match (h, l) {
                    (Some(h), Some(l)) => {
                        let b = (h as u16 * 16 + l as u16) as u8;
                        assert(rest.skip(3) =~= s@.skip(i + 3));
                        proof {
                            if let Some(t) = q_decoded(s@.skip(i + 3)) {
                                assert(out@.push(b) + t =~= out@ + (seq![b] + t));
                            }
                        }
                        out.push(b);
                        i += 3;
                    },
                    _ => {
                        return None;
                    },
                }
            } else {
                return None;
            }
        } else if c == '_' {
            assert(rest.skip(1) =~= s@.skip(i + 1));
            proof {
                if let Some(t) = q_decoded(s@.skip(i + 1)) {
                    assert(out@.push(32u8) + t =~= out@ + (seq![32u8] + t));
                }
            }
            out.push(32);
            i += 1;
        } else if (c as u32) < 128 {
            let b = c as u32 as u8;
            assert(rest.skip(1) =~= s@.skip(i + 1));
            proof {
                if let Some(t) = q_decoded(s@.skip(i + 1)) {
                    assert(out@.push(b) + t =~= out@ + (seq![b] + t));
                }
            }
            out.push(b);
            i += 1;
        } else {
            return None;
        }
    }
    assert(s@.skip(i as int) =~= Seq::<char>::empty());
    assert(out@ + Seq::<u8>::empty() =~= out@);
    Some(out)
}

} // verus!
