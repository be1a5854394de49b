use vstd::prelude::*;
use crate::{EXCHID_BINANCE, EXCHID_OKX, COIN_TYPE_SPOT, COIN_TYPE_MARGIN, COIN_TYPE_SWAP, COIN_TYPE_FUTURES, COIN_TYPE_OPTION};
use vstd::slice::slice_subrange;
use vstd::string::StringSliceAdditionalSpecFns;
use vstd::utf8::{
    encode_utf8, decode_utf8, valid_utf8, encode_scalar, has_width_1_encoding,
    leading_byte_width_1, leading_byte_width_2, leading_byte_width_3, leading_byte_width_4,
    last_continuation_byte, second_last_continuation_byte, third_last_continuation_byte,
    encode_utf8_valid_utf8, encode_utf8_decode_utf8, char_is_scalar,
};

verus! {

/// What the standard library's lossy UTF-8 decoding makes of `bytes`.
pub uninterp spec fn utf8_lossy(bytes: Seq<u8>) -> Seq<char>;

/// `String::from_utf8_lossy`, owned: decodes `bytes`, replacing each invalid sequence
/// with U+FFFD. Stated here: the result is the named decoding of `bytes`, and for valid
/// UTF-8 it is the exact decoding. What replaces invalid sequences is left unsaid.
#[verifier::external_body]
fn string_from_utf8_lossy(bytes: &[u8]) -> (s: String)
    ensures
        s@ == utf8_lossy(bytes@),
        valid_utf8(bytes@) ==> s@ == decode_utf8(bytes@),
{
    String::from_utf8_lossy(bytes).to_string()
}

/// The bytes a fixed-size field of `dst_len` bytes holds after `text` was written into it:
/// its UTF-8 bytes, cut at `dst_len`, then zeros.
pub open spec fn fixed_field(text: Seq<char>, dst_len: int) -> Seq<u8> {
    let b = encode_utf8(text);
    let n = if b.len() < dst_len { b.len() as int } else { dst_len };
    b.subrange(0, n) + Seq::new((dst_len - n) as nat, |i: int| 0u8)
}

/// Index of the first zero byte of `s`, or its length when it has none.
pub open spec fn nul_index(s: Seq<u8>) -> int
    decreases s.len(),
{
    if s.len() == 0 {
        0
    } else if s[0] == 0 {
        0
    } else {
        1 + nul_index(s.drop_first())
    }
}

proof fn lemma_nul_index(s: Seq<u8>, n: int)
    requires
        0 <= n <= s.len(),
        forall|j: int| 0 <= j < n ==> s[j] != 0,
        n == s.len() || s[n] == 0,
    ensures
        nul_index(s) == n,
    decreases n,
{
    if n > 0 {
        lemma_nul_index(s.drop_first(), n - 1);
    }
}

/// Writes `s` into the fixed-size field `dst`: its UTF-8 bytes, cut to fit, then zeros.
pub fn write_fixed(dst: &mut [u8], s: &str)
    ensures
        final(dst)@ == fixed_field(s@, old(dst)@.len() as int),
{
    let bytes = s.as_bytes();
    let n = if bytes.len() < dst.len() { bytes.len() } else { dst.len() };
    let ghost target = fixed_field(s@, old(dst)@.len() as int);
    let mut i: usize = 0;
    while i < dst.len()
        invariant
            n <= dst@.len(),
            n <= bytes@.len(),
            bytes@ == s.spec_bytes(),
            dst@.len() == old(dst)@.len(),
            target == fixed_field(s@, old(dst)@.len() as int),
            n == (if bytes@.len() < dst@.len() { bytes@.len() as int } else { dst@.len() as int }),
            0 <= i <= dst@.len(),
            forall|j: int| 0 <= j < i ==> dst@[j] == target[j],
        decreases dst@.len() - i,
    {
        if i < n {
            dst[i] = bytes[i];
        } else {
            dst[i] = 0;
        }
        i = i + 1;
    }
    assert(dst@ =~= target);
}

/// Reads a fixed-size text field: the bytes before the first zero, decoded as UTF-8
/// with invalid sequences replaced.
pub fn read_fixed(src: &[u8]) -> (s: String)
    ensures
        s@ == utf8_lossy(src@.subrange(0, nul_index(src@))),
        valid_utf8(src@.subrange(0, nul_index(src@))) ==> s@ == decode_utf8(
            src@.subrange(0, nul_index(src@)),
        ),
{
    let mut len: usize = 0;
    while len < src.len() && src[len] != 0
        invariant
            0 <= len <= src@.len(),
            forall|j: int| 0 <= j < len ==> src@[j] != 0,
        decreases src@.len() - len,
    {
        len = len + 1;
    }
    proof { lemma_nul_index(src@, len as int); }
    string_from_utf8_lossy(slice_subrange(src, 0, len))
}

/// No byte of the UTF-8 encoding of text without NUL characters is zero.
proof fn lemma_encoding_has_no_zero(text: Seq<char>)
    requires
        forall|j: int| 0 <= j < text.len() ==> text[j] != '\0',
    ensures
        forall|j: int| 0 <= j < encode_utf8(text).len() ==> encode_utf8(text)[j] != 0,
    decreases text.len(),
{
    if text.len() > 0 {
        let c = text[0] as u32;
        char_is_scalar(text[0]);
        assert(c != 0) by {
            vstd::utf8::char_u32_cast(text[0], c);
            if c == 0 {
                assert(c as char == '\0');
            }
        }
        let head = encode_scalar(c);
        if has_width_1_encoding(c) {
            assert(leading_byte_width_1(c) != 0) by (bit_vector)
                requires 0 < c <= 0x7F;
        } else {
            assert(leading_byte_width_2(c) != 0) by (bit_vector);
            assert(leading_byte_width_3(c) != 0) by (bit_vector);
            assert(leading_byte_width_4(c) != 0) by (bit_vector);
            assert(last_continuation_byte(c) != 0) by (bit_vector);
            assert(second_last_continuation_byte(c) != 0) by (bit_vector);
            assert(third_last_continuation_byte(c) != 0) by (bit_vector);
        }
        assert(forall|j: int| 0 <= j < head.len() ==> head[j] != 0);
        lemma_encoding_has_no_zero(text.drop_first());
        assert(encode_utf8(text) == head + encode_utf8(text.drop_first()));
    }
}

/// Writing text into a fixed-size field and reading the field back gives the text,
/// when its UTF-8 encoding fits and it holds no NUL character.
pub proof fn law_fixed_field_round_trip(text: Seq<char>, dst_len: int)
    requires
        encode_utf8(text).len() <= dst_len,
        forall|j: int| 0 <= j < text.len() ==> text[j] != '\0',
    ensures
        ({
            let field = fixed_field(text, dst_len);
            let n = nul_index(field);
            &&& field.subrange(0, n) =~= encode_utf8(text)
            &&& valid_utf8(field.subrange(0, n))
            &&& decode_utf8(field.subrange(0, n)) == text
        }),
{
    let b = encode_utf8(text);
    let field = fixed_field(text, dst_len);
    lemma_encoding_has_no_zero(text);
    assert(field.subrange(0, b.len() as int) =~= b);
    lemma_nul_index(field, b.len() as int);
    encode_utf8_valid_utf8(text);
    encode_utf8_decode_utf8(text);
}

/// The display name of an exchange id.
pub fn exchange_name(id: i32) -> (name: &'static str)
    ensures
        id == EXCHID_BINANCE ==> name@ == "Binance"@,
        id == EXCHID_OKX ==> name@ == "OKX"@,
        id != EXCHID_BINANCE && id != EXCHID_OKX ==> name@ == "Unknown"@,
{
    if id == EXCHID_BINANCE {
        "Binance"
    } else if id == EXCHID_OKX {
        "OKX"
    } else {
        "Unknown"
    }
}

/// The display name of an instrument type.
pub fn coin_type_name(data_type: i32) -> (name: &'static str)
    ensures
        data_type == COIN_TYPE_SPOT ==> name@ == "Spot"@,
        data_type == COIN_TYPE_MARGIN ==> name@ == "Margin"@,
        data_type == COIN_TYPE_SWAP ==> name@ == "Swap"@,
        data_type == COIN_TYPE_FUTURES ==> name@ == "Futures"@,
        data_type == COIN_TYPE_OPTION ==> name@ == "Option"@,
        data_type != COIN_TYPE_SPOT && data_type != COIN_TYPE_MARGIN && data_type != COIN_TYPE_SWAP
            && data_type != COIN_TYPE_FUTURES && data_type != COIN_TYPE_OPTION ==> name@ == "Unknown"@,
{
    if data_type == COIN_TYPE_SPOT {
        "Spot"
    } else if data_type == COIN_TYPE_MARGIN {
        "Margin"
    } else if data_type == COIN_TYPE_SWAP {
        "Swap"
    } else if data_type == COIN_TYPE_FUTURES {
        "Futures"
    } else if data_type == COIN_TYPE_OPTION {
        "Option"
    } else {
        "Unknown"
    }
}

} // verus!
