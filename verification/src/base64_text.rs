//! Bytes written as text in base 64.

use base64::engine::general_purpose::STANDARD;
use base64::Engine;
use vstd::prelude::*;

verus! {

/// Why a text is not base 64.
#[verifier::external_type_specification]
#[verifier::external_body]
pub struct ExDecodeError(base64::DecodeError);

/// The character that stands for the six bits of `v`.
pub open spec fn base64_char(v: int) -> char {
    if v < 26 {
        (65 + v) as char
    } else if v < 52 {
        (71 + v) as char
    } else if v < 62 {
        (v - 4) as char
    } else if v == 62 {
        '+'
    } else {
        '/'
    }
}

/// `bytes` in base 64: four characters for every three bytes, the last ones filled up
/// with equal signs.
pub open spec fn base64_text(bytes: Seq<u8>) -> Seq<char>
    decreases bytes.len(),
{
    if bytes.len() == 0 {
        Seq::empty()
    } else if bytes.len() == 1 {
        let a = bytes[0] as int;
        seq![base64_char(a / 4), base64_char(a % 4 * 16), '=', '=']
    } else if bytes.len() == 2 {
        let a = bytes[0] as int;
        let b = bytes[1] as int;
        seq![
            base64_char(a / 4),
            base64_char(a % 4 * 16 + b / 16),
            base64_char(b % 16 * 4),
            '=',
        ]
    } else {
        let a = bytes[0] as int;
        let b = bytes[1] as int;
        let c = bytes[2] as int;
        seq![
            base64_char(a / 4),
            base64_char(a % 4 * 16 + b / 16),
            base64_char(b % 16 * 4 + c / 64),
            base64_char(c % 64),
        ] + base64_text(bytes.skip(3))
    }
}

/// The number of characters that `n` bytes take in base 64.
pub open spec fn base64_len(n: int) -> int {
    (n + 2) / 3 * 4
}

/// `base64::engine::Engine::encode` with the engine `STANDARD`: the standard alphabet,
/// padded. It gives up where the text would be larger than memory can be.
#[verifier::external_body]
pub(crate) fn encode_base64(bytes: &Vec<u8>) -> (r: String)
    requires
        base64_len(bytes@.len() as int) <= isize::MAX,
    ensures
        r@ == base64_text(bytes@),
{
    STANDARD.encode(bytes)
}

/// `base64::engine::Engine::decode` with the engine `STANDARD`: it reads exactly what
/// that engine writes, so the padding has to be there and no stray bits may be set.
#[verifier::external_body]
pub(crate) fn decode_base64(text: &str) -> (r: Result<Vec<u8>, base64::DecodeError>)
    ensures
        match r {
            Ok(bytes) => base64_text(bytes@) == text@,
            Err(_) => forall|bytes: Seq<u8>| #[trigger] base64_text(bytes) != text@,
        },
{
    STANDARD.decode(text)
}

proof fn lemma_char_injective(v: int, w: int)
    requires
        0 <= v < 64,
        0 <= w < 64,
        base64_char(v) == base64_char(w),
    ensures
        v == w,
{
    lemma_char_value(v);
    lemma_char_value(w);
}

proof fn lemma_char_value(v: int)
    requires
        0 <= v < 64,
    ensures
        base64_char(v) as int == if v < 26 {
            65 + v
        } else if v < 52 {
            71 + v
        } else if v < 62 {
            v - 4
        } else if v == 62 {
            43
        } else {
            47
        },
        base64_char(v) != '=',
{
}

/// Different bytes are written differently, so that what was written can be read back.
pub proof fn law_base64_injective(a: Seq<u8>, b: Seq<u8>)
    requires
        base64_text(a) == base64_text(b),
    ensures
        a == b,
    decreases a.len(),
{
    let s = base64_text(a);
    let t = base64_text(b);
    lemma_text_len(a);
    lemma_text_len(b);
    if a.len() == 0 || b.len() == 0 {
        assert(a == b);
    } else {
        lemma_first_chars(a);
        lemma_first_chars(b);
        lemma_char_injective(a[0] as int / 4, b[0] as int / 4);
        let a1: int = if a.len() > 1 {
            a[1] as int
        } else {
            0
        };
        let b1: int = if b.len() > 1 {
            b[1] as int
        } else {
            0
        };
        lemma_char_injective(a[0] as int % 4 * 16 + a1 / 16, b[0] as int % 4 * 16 + b1 / 16);
        assert(a[0] == b[0]);
        assert((s[2] == '=') == (a.len() == 1)) by {
            lemma_third_char(a);
        }
        assert((t[2] == '=') == (b.len() == 1)) by {
            lemma_third_char(b);
        }
        assert((s[3] == '=') == (a.len() <= 2)) by {
            lemma_fourth_char(a);
        }
        assert((t[3] == '=') == (b.len() <= 2)) by {
            lemma_fourth_char(b);
        }
        if a.len() == 1 {
            assert(a == b);
        } else {
            lemma_third_char(a);
            lemma_third_char(b);
            let a2: int = if a.len() > 2 {
                a[2] as int
            } else {
                0
            };
            let b2: int = if b.len() > 2 {
                b[2] as int
            } else {
                0
            };
            lemma_char_injective(a[1] as int % 16 * 4 + a2 / 64, b[1] as int % 16 * 4 + b2 / 64);
            assert(a[1] == b[1]);
            if a.len() == 2 {
                assert(a == b);
            } else {
                lemma_fourth_char(a);
                lemma_fourth_char(b);
                lemma_char_injective(a[2] as int % 64, b[2] as int % 64);
                assert(a[2] == b[2]);
                assert(s.skip(4) == base64_text(a.skip(3)));
                assert(t.skip(4) == base64_text(b.skip(3)));
                law_base64_injective(a.skip(3), b.skip(3));
                assert(a == a.take(3) + a.skip(3));
                assert(b == b.take(3) + b.skip(3));
                assert(a.take(3) == b.take(3));
            }
        }
    }
}

proof fn lemma_text_len(bytes: Seq<u8>)
    ensures
        base64_text(bytes).len() == base64_len(bytes.len() as int),
    decreases bytes.len(),
{
    if bytes.len() > 2 {
        lemma_text_len(bytes.skip(3));
    }
}

proof fn lemma_first_chars(bytes: Seq<u8>)
    requires
        bytes.len() > 0,
    ensures
        base64_text(bytes)[0] == base64_char(bytes[0] as int / 4),
        base64_text(bytes)[1] == base64_char(
            bytes[0] as int % 4 * 16 + (if bytes.len() > 1 {
                bytes[1] as int
            } else {
                0
            }) / 16,
        ),
{
}

proof fn lemma_third_char(bytes: Seq<u8>)
    requires
        bytes.len() > 0,
    ensures
        bytes.len() == 1 ==> base64_text(bytes)[2] == '=',
        bytes.len() > 1 ==> base64_text(bytes)[2] != '=' && base64_text(bytes)[2] == base64_char(
            bytes[1] as int % 16 * 4 + (if bytes.len() > 2 {
                bytes[2] as int
            } else {
                0
            }) / 64,
        ),
{
    if bytes.len() > 1 {
        lemma_char_value(
            bytes[1] as int % 16 * 4 + (if bytes.len() > 2 {
                bytes[2] as int
            } else {
                0
            }) / 64,
        );
    }
}

proof fn lemma_fourth_char(bytes: Seq<u8>)
    requires
        bytes.len() > 0,
    ensures
        bytes.len() <= 2 ==> base64_text(bytes)[3] == '=',
        bytes.len() > 2 ==> base64_text(bytes)[3] != '=' && base64_text(bytes)[3] == base64_char(
            bytes[2] as int % 64,
        ),
{
    if bytes.len() > 2 {
        lemma_char_value(bytes[2] as int % 64);
    }
}

} // verus!
