//! NUL-terminated buffers, the form in which MbedTLS takes PEM text.

use vstd::prelude::*;
use vstd::utf8;

verus! {

/// The bytes end in a NUL and hold no other.
pub open spec fn is_c_string(bytes: Seq<u8>) -> bool {
    &&& bytes.len() > 0
    &&& bytes.last() == 0
    &&& forall|i: int| 0 <= i < bytes.len() - 1 ==> #[trigger] bytes[i] != 0
}

/// `text` in UTF-8 with a NUL appended; `None` where `text` holds a NUL itself, as
/// C would take it for the end.
pub open spec fn c_string(text: Seq<char>) -> Option<Seq<u8>> {
    if text.contains('\0') {
        None
    } else {
        Some(utf8::encode_utf8(text).push(0))
    }
}

/// A character is encoded with a NUL byte if and only if it is NUL.
proof fn lemma_encode_scalar_nul(c: char)
    ensures
        utf8::encode_scalar(c as u32).contains(0u8) <==> c == '\0',
{
    let v: u32 = c as u32;
    let bytes: Seq<u8> = utf8::encode_scalar(v);
    utf8::char_is_scalar(c);
    if utf8::has_width_1_encoding(v) {
        assert((v & 0x7F) as u8 == 0 <==> v == 0) by (bit_vector)
            requires
                v <= 0x7F,
        ;
        assert(bytes[0] == utf8::leading_byte_width_1(v));
    } else {
        assert(0xC0 | ((v >> 6) & 0x1F) as u8 != 0) by (bit_vector);
        assert(0xE0 | ((v >> 12) & 0x0F) as u8 != 0) by (bit_vector);
        assert(0xF0 | ((v >> 18) & 0x7) as u8 != 0) by (bit_vector);
        assert(0x80 | (v & 0x3F) as u8 != 0) by (bit_vector);
        assert(0x80 | ((v >> 6) & 0x3F) as u8 != 0) by (bit_vector);
        assert(0x80 | ((v >> 12) & 0x3F) as u8 != 0) by (bit_vector);
    }
}

/// UTF-8 holds a NUL byte if and only if the text holds a NUL.
pub proof fn law_utf8_nul(text: Seq<char>)
    ensures
        utf8::encode_utf8(text).contains(0u8) <==> text.contains('\0'),
    decreases text.len(),
{
    if text.len() > 0 {
        let first: Seq<u8> = utf8::encode_scalar(text[0] as u32);
        let rest: Seq<u8> = utf8::encode_utf8(text.drop_first());
        lemma_encode_scalar_nul(text[0]);
        law_utf8_nul(text.drop_first());
        if first.contains(0u8) {
            let i: int = choose|i: int| 0 <= i < first.len() && first[i] == 0u8;
            assert((first + rest)[i] == 0u8);
        }
        if rest.contains(0u8) {
            let i: int = choose|i: int| 0 <= i < rest.len() && rest[i] == 0u8;
            assert((first + rest)[first.len() + i] == 0u8);
        }
        if text.drop_first().contains('\0') {
            let i: int = choose|i: int|
                0 <= i < text.drop_first().len() && text.drop_first()[i] == '\0';
            assert(text[i + 1] == '\0');
        }
        if text.contains('\0') && text[0] != '\0' {
            let i: int = choose|i: int| 0 <= i < text.len() && text[i] == '\0';
            assert(text.drop_first()[i - 1] == '\0');
        }
    }
}

/// What is handed to MbedTLS ends in a NUL and holds no other.
pub proof fn law_c_string(text: Seq<char>)
    ensures
        c_string(text) matches Some(bytes) ==> is_c_string(bytes),
{
    law_utf8_nul(text);
    let encoded: Seq<u8> = utf8::encode_utf8(text);
    if !text.contains('\0') {
        assert forall|i: int| 0 <= i < encoded.len() implies #[trigger] encoded.push(0)[i] != 0 by {
            assert(encoded.push(0)[i] == encoded[i]);
        }
    }
}

/// The buffer is the text: its last byte is NUL and the bytes before it are `text` in
/// UTF-8, from which `text` is decoded again. Only a text with a NUL has no buffer.
pub proof fn law_c_string_is_the_text(text: Seq<char>)
    ensures
        c_string(text) is None <==> text.contains('\0'),
        c_string(text) matches Some(bytes) ==> {
            &&& bytes == utf8::encode_utf8(text).push(0)
            &&& bytes.len() > 0
            &&& bytes.last() == 0
            &&& utf8::valid_utf8(bytes.drop_last())
            &&& utf8::decode_utf8(bytes.drop_last()) == text
            &&& forall|i: int| 0 <= i < bytes.len() - 1 ==> #[trigger] bytes[i] != 0
        },
{
    law_c_string(text);
    utf8::encode_utf8_valid_utf8(text);
    utf8::encode_utf8_decode_utf8(text);
    assert(utf8::encode_utf8(text).push(0).drop_last() =~= utf8::encode_utf8(text));
}

/// Copies `text` into a buffer that ends in its only NUL.
pub fn to_c_string(text: &str) -> (buffer: Option<Vec<u8>>)
    ensures
        buffer is Some <==> c_string(text@) is Some,
        buffer is None <==> text@.contains('\0'),
        buffer matches Some(bytes) ==> bytes@ == utf8::encode_utf8(text@).push(0),
        buffer matches Some(bytes) ==> bytes@ == c_string(text@)->0 && is_c_string(bytes@),
{
    proof {
        law_utf8_nul(text@);
        law_c_string(text@);
    }
    let bytes: &[u8] = text.as_bytes();
    let mut buffer: Vec<u8> = Vec::new();
    let mut i: usize = 0;
    while i < bytes.len()
        invariant
            i <= bytes.len(),
            bytes@ == utf8::encode_utf8(text@),
            buffer@ == bytes@.take(i as int),
            utf8::encode_utf8(text@).contains(0u8) <==> text@.contains('\0'),
            forall|j: int| 0 <= j < i ==> bytes@[j] != 0,
        decreases bytes.len() - i,
    {
        if bytes[i] == 0 {
            assert(bytes@[i as int] == 0u8);
            return None;
        }
        buffer.push(bytes[i]);
        i = i + 1;
    }
    buffer.push(0);
    Some(buffer)
}

} // verus!
