//! The wire framing of the control channel.
//!
//! A reply is one line, `<three-digit code>[ <message>]\r\n`, encoded as
//! UTF-8 bytes. Reading goes the other way: the connection loop gathers
//! bytes until the first CR-LF pair, dropping leading spaces, and hands
//! back the line's content. `lemma_encode_round_trip` ties the two
//! directions together.

use vstd::prelude::*;
use vstd::utf8::{
    decode_utf8, encode_scalar, encode_utf8, has_width_1_encoding, is_ascii_chars,
    is_ascii_chars_encode_utf8, char_u32_cast, encode_utf8_decode_utf8,
};
use crate::numeric::{
    dec_digits, digit_char, u64_to_string, lemma_dec_digits_ascii, lemma_dec_digits_three,
};
use crate::result_code::ResultCode;

verus! {

/// A sequence of ASCII characters, one byte each.
pub open spec fn ascii_of(s: Seq<char>) -> Seq<u8> {
    s.map_values(|c: char| c as u8)
}

/// The three digit bytes of a status code.
pub open spec fn code_digits(code: ResultCode) -> Seq<u8> {
    ascii_of(dec_digits(code.spec_value() as nat))
}

/// The exact bytes a reply puts on the wire: the code's digits, then a
/// space and the message when the message is not empty, then CR-LF.
pub open spec fn encoded_response(code: ResultCode, msg: Seq<char>) -> Seq<u8> {
    code_digits(code) + (if msg.len() == 0 {
        Seq::<u8>::empty()
    } else {
        seq![32u8] + encode_utf8(msg)
    }) + seq![13u8, 10u8]
}

/// Encodes one reply line. The message must not carry CR or LF; the
/// session state machine never produces one that does.
pub fn encode(code: ResultCode, message: &str) -> (r: Vec<u8>)
    ensures
        r@ == encoded_response(code, message@),
{
    let digits = u64_to_string(code.value() as u64);
    let mut out = digits.as_str().as_bytes_vec();
    proof {
        lemma_dec_digits_ascii(code.spec_value() as nat);
        assert(is_ascii_chars(digits@));
        is_ascii_chars_encode_utf8(digits@);
        assert(out@ =~= code_digits(code));
    }
    if !message.is_empty() {
        out.push(32);
        let mut mb = message.as_bytes_vec();
        out.append(&mut mb);
    }
    out.push(13);
    out.push(10);
    proof {
        if message@.len() == 0 {
            assert(encode_utf8(message@) =~= Seq::<u8>::empty());
        }
        assert(out@ =~= encoded_response(code, message@));
    }
    out
}

/// Index of the first byte that is not a space, or the length when all
/// bytes are spaces.
pub open spec fn first_non_space(s: Seq<u8>) -> int
    decreases s.len(),
{
    if s.len() == 0 {
        0
    } else if s[0] != 32 {
        0
    } else {
        1 + first_non_space(s.drop_first())
    }
}

pub proof fn lemma_first_non_space_unique(s: Seq<u8>, i: int)
    requires
        0 <= i <= s.len(),
        forall|j: int| 0 <= j < i ==> s[j] == 32,
        i < s.len() ==> s[i] != 32,
    ensures
        first_non_space(s) == i,
    decreases s.len(),
{
    if s.len() == 0 {
    } else if s[0] != 32 {
        assert(i == 0);
    } else {
        assert(s[0 as int] == 32);
        assert(i >= 1);
        let t = s.drop_first();
        assert forall|j: int| 0 <= j < i - 1 implies t[j] == 32 by {
            assert(s[j + 1] == 32);
        }
        lemma_first_non_space_unique(t, i - 1);
    }
}

/// The input with its leading spaces dropped.
pub open spec fn stripped(s: Seq<u8>) -> Seq<u8> {
    s.subrange(first_non_space(s), s.len() as int)
}

/// A CR-LF pair starts at index `i`.
pub open spec fn crlf_at(s: Seq<u8>, i: int) -> bool {
    0 <= i && i + 2 <= s.len() && s[i] == 13 && s[i + 1] == 10
}

/// Index `i` holds the first CR-LF pair of `s`.
pub open spec fn is_line_end(s: Seq<u8>, i: int) -> bool {
    crlf_at(s, i) && forall|j: int| 0 <= j < i ==> !crlf_at(s, j)
}

pub proof fn lemma_line_end_unique(s: Seq<u8>, i1: int, i2: int)
    requires
        is_line_end(s, i1),
        is_line_end(s, i2),
    ensures
        i1 == i2,
{
    if i1 < i2 {
        assert(!crlf_at(s, i1));
    }
    if i2 < i1 {
        assert(!crlf_at(s, i2));
    }
}

/// The line a gathered byte stream yields: leading spaces dropped, then
/// everything before the first CR-LF pair; nothing when no CR-LF has
/// arrived yet.
pub open spec fn line_of(s: Seq<u8>) -> Option<Seq<u8>> {
    let t = stripped(s);
    if exists|i: int| is_line_end(t, i) {
        Some(t.subrange(0, choose|i: int| is_line_end(t, i)))
    } else {
        None
    }
}

/// Extracts one command line from gathered bytes, exactly as `line_of`
/// describes: leading spaces dropped, content up to the first CR-LF.
pub fn take_line(buf: &Vec<u8>) -> (r: Option<Vec<u8>>)
    ensures
        match r {
            Some(l) => line_of(buf@) == Some(l@),
            None => line_of(buf@) is None,
        },
{
    let n = buf.len();
    let mut start: usize = 0;
    while start < n && buf[start] == 32
        invariant
            start <= n == buf@.len(),
            forall|j: int| 0 <= j < start ==> buf@[j] == 32,
        decreases n - start,
    {
        start += 1;
    }
    proof {
        lemma_first_non_space_unique(buf@, start as int);
    }
    let ghost t = stripped(buf@);
    proof {
        assert(t =~= buf@.subrange(start as int, n as int));
    }
    let mut i: usize = start;
    while n - i > 1
        invariant
            start <= i <= n == buf@.len(),
            t == buf@.subrange(start as int, n as int),
            t == stripped(buf@),
            forall|j: int| 0 <= j < i - start ==> !crlf_at(t, j),
        decreases n - i,
    {
        if buf[i] == 13 && buf[i + 1] == 10 {
            let ghost p = i - start;
            proof {
                assert(t[p as int] == buf@[i as int]);
                assert(t[p + 1] == buf@[i + 1]);
                assert(is_line_end(t, p as int));
                let c = choose|q: int| is_line_end(t, q);
                lemma_line_end_unique(t, c, p as int);
            }
            let mut out: Vec<u8> = Vec::new();
            let mut k: usize = start;
            while k < i
                invariant
                    start <= k <= i <= n == buf@.len(),
                    out@ =~= buf@.subrange(start as int, k as int),
                decreases i - k,
            {
                out.push(buf[k]);
                k += 1;
            }
            proof {
                assert(is_line_end(t, p as int));
                assert(exists|q: int| is_line_end(t, q));
                let c = choose|q: int| is_line_end(t, q);
                lemma_line_end_unique(t, c, p as int);
                assert(line_of(buf@) == Some(t.subrange(0, p as int)));
                assert(out@ =~= t.subrange(0, p as int));
            }
            return Some(out);
        }
        i += 1;
    }
    proof {
        assert forall|q: int| !is_line_end(t, q) by {
            if crlf_at(t, q) {
                assert(0 <= q && q + 2 <= t.len());
                assert(q < i - start);
            }
        }
    }
    None
}

/// The integer value of the three digit bytes that start a reply line.
pub open spec fn code_of_line(line: Seq<u8>) -> int
    recommends
        line.len() >= 3,
{
    (line[0] - 48) * 100 + (line[1] - 48) * 10 + (line[2] - 48)
}

/// Reads the leading three-digit status code back from a reply line.
pub fn parse_code(line: &Vec<u8>) -> (r: u32)
    requires
        line@.len() >= 3,
        forall|j: int| 0 <= j < 3 ==> 48 <= #[trigger] line@[j] <= 57,
    ensures
        r == code_of_line(line@),
{
    let a = (line[0] - 48) as u32;
    let b = (line[1] - 48) as u32;
    let c = (line[2] - 48) as u32;
    a * 100 + b * 10 + c
}

/// The byte of one decimal digit character.
pub proof fn lemma_digit_char_byte(d: nat)
    requires
        d < 10,
    ensures
        digit_char(d) as u8 == 48 + d,
{
}

/// UTF-8 encoded text holds a CR or LF byte only where the text holds a
/// CR or LF character.
pub proof fn lemma_encode_utf8_no_crlf(chars: Seq<char>)
    requires
        forall|i: int| 0 <= i < chars.len() ==> chars[i] != '\r' && chars[i] != '\n',
    ensures
        forall|k: int|
            0 <= k < encode_utf8(chars).len() ==> encode_utf8(chars)[k] != 13 && encode_utf8(
                chars,
            )[k] != 10,
    decreases chars.len(),
{
    if chars.len() > 0 {
        let c = chars[0];
        vstd::utf8::char_is_scalar(c);
        let s = c as u32;
        let first = encode_scalar(s);
        let rest = encode_utf8(chars.drop_first());
        assert(chars[0 as int] != '\r' && chars[0 as int] != '\n');
        assert('\r' as u32 == 13);
        assert('\n' as u32 == 10);
        assert forall|k: int| 0 <= k < first.len() implies first[k] != 13 && first[k] != 10 by {
            if has_width_1_encoding(s) {
                assert(s & 0x7F == s) by (bit_vector)
                    requires
                        s <= 0x7F,
                ;
                if first[0] == 13 {
                    assert(s == 13);
                    char_u32_cast(c, 13);
                    char_u32_cast('\r', 13);
                    assert(c == '\r');
                }
                if first[0] == 10 {
                    assert(s == 10);
                    char_u32_cast(c, 10);
                    char_u32_cast('\n', 10);
                    assert(c == '\n');
                }
            } else {
                assert forall|b: u8|
                    (0x80u8 | b) >= 0x80 && (0xC0u8 | b) >= 0x80 && (0xE0u8 | b) >= 0x80 && (
                    0xF0u8 | b) >= 0x80 by {
                    assert((0x80u8 | b) >= 0x80 && (0xC0u8 | b) >= 0x80 && (0xE0u8 | b) >= 0x80
                        && (0xF0u8 | b) >= 0x80) by (bit_vector);
                }
            }
        }
        assert forall|j: int| 0 <= j < chars.drop_first().len() implies chars.drop_first()[j]
            != '\r' && chars.drop_first()[j] != '\n' by {
            assert(chars[j + 1] != '\r' && chars[j + 1] != '\n');
        }
        lemma_encode_utf8_no_crlf(chars.drop_first());
        assert forall|k: int|
            0 <= k < encode_utf8(chars).len() implies encode_utf8(chars)[k] != 13 && encode_utf8(
            chars,
        )[k] != 10 by {
            if k < first.len() {
                assert(encode_utf8(chars)[k] == first[k]);
            } else {
                assert(encode_utf8(chars)[k] == rest[k - first.len()]);
            }
        }
    }
}

/// Law: framing round-trips. For any code and any message without CR or
/// LF, encoding a reply and then reading it back as a line yields the
/// code's digits, a space, and the message's bytes; the leading digits
/// parse back to the code's number, and the message bytes decode back to
/// the message.
#[verifier::rlimit(50)]
pub proof fn lemma_encode_round_trip(code: ResultCode, msg: Seq<char>)
    requires
        forall|i: int| 0 <= i < msg.len() ==> msg[i] != '\r' && msg[i] != '\n',
    ensures
        ({
            let content = if msg.len() == 0 {
                code_digits(code)
            } else {
                code_digits(code) + seq![32u8] + encode_utf8(msg)
            };
            &&& line_of(encoded_response(code, msg)) == Some(content)
            &&& content.len() >= 3
            &&& code_of_line(content) == code.spec_value()
            &&& msg.len() > 0 ==> decode_utf8(content.subrange(4, content.len() as int)) == msg
        }),
{
    let v = code.spec_value() as nat;
    code.lemma_value_three_digits();
    lemma_dec_digits_three(v);
    lemma_dec_digits_ascii(v);
    let digits = dec_digits(v);
    let d0 = digit_char((v / 100) as nat);
    lemma_digit_char_byte((v / 100) as nat);
    lemma_digit_char_byte(((v / 10) % 10) as nat);
    lemma_digit_char_byte((v % 10) as nat);
    assert(1 <= v / 100 <= 5);
    let content = if msg.len() == 0 {
        code_digits(code)
    } else {
        code_digits(code) + seq![32u8] + encode_utf8(msg)
    };
    let encoded = encoded_response(code, msg);
    assert(code_digits(code).len() == 3);
    assert(code_digits(code)[0] == d0 as u8);
    assert(encoded =~= content + seq![13u8, 10u8]);
    // No byte before the final CR-LF is a CR, so the first CR-LF pair is
    // the terminator, and the first byte is a digit, so nothing is
    // stripped.
    lemma_encode_utf8_no_crlf(msg);
    assert forall|j: int| 0 <= j < content.len() implies content[j] != 13 by {
        if j < 3 {
            lemma_digit_char_byte((if j == 0 {
                v / 100
            } else if j == 1 {
                (v / 10) % 10
            } else {
                v % 10
            }) as nat);
        } else if msg.len() > 0 && j >= 4 {
            assert(content[j] == encode_utf8(msg)[j - 4]);
        }
    }
    assert(encoded[0 as int] == d0 as u8);
    assert(encoded[0 as int] != 32);
    lemma_first_non_space_unique(encoded, 0);
    assert(stripped(encoded) =~= encoded);
    let ll = content.len() as int;
    assert(crlf_at(encoded, ll));
    assert forall|j: int| 0 <= j < ll implies !crlf_at(encoded, j) by {
        assert(encoded[j] == content[j]);
    }
    assert(is_line_end(encoded, ll));
    let c = choose|i: int| is_line_end(stripped(encoded), i);
    assert(is_line_end(stripped(encoded), c));
    assert(is_line_end(encoded, c));
    lemma_line_end_unique(encoded, c, ll);
    assert(line_of(encoded) == Some(stripped(encoded).subrange(0, ll)));
    assert(stripped(encoded).subrange(0, ll) =~= content);
    // The digits parse back to the code's number.
    assert(code_of_line(content) == (v / 100) * 100 + ((v / 10) % 10) * 10 + v % 10);
    assert((v / 100) * 100 + ((v / 10) % 10) * 10 + v % 10 == v) by (nonlinear_arith)
        requires
            100 <= v <= 999,
    ;
    // The message bytes decode back to the message.
    if msg.len() > 0 {
        assert(content.subrange(4, content.len() as int) =~= encode_utf8(msg));
        encode_utf8_decode_utf8(msg);
    }
}

} // verus!
