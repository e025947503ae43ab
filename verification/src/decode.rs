//! Permissive decoding of bytes to text, as far as character counting needs it.

use std::borrow::Cow;
use vstd::prelude::*;
use vstd::string::StrSliceExecFns;
use vstd::utf8::{decode_utf8, pop_first_scalar, valid_utf8};

verus! {

/// The text that permissive UTF-8 decoding makes of `bytes`: the characters
/// that the valid parts encode, with one U+FFFD in place of each invalid
/// sequence. Which bytes make up one invalid sequence is the decoder's
/// choice: a sequence that breaks off is replaced as a whole, and a byte that
/// can start no sequence by itself.
pub uninterp spec fn lossy_decode(bytes: Seq<u8>) -> Seq<char>;

/// `String::from_utf8_lossy` of the standard library. Its result is named
/// [`lossy_decode`]; where the input is valid UTF-8 the standard library
/// returns it as a string unchanged, so the result is then the plain
/// decoding of the input. Nothing is claimed here of how invalid input is cut
/// into replaced sequences.
pub assume_specification[ String::from_utf8_lossy ](v: &[u8]) -> (text: Cow<'_, str>)
    ensures
        text@ == lossy_decode(v@),
        valid_utf8(v@) ==> text@ == decode_utf8(v@),
;

/// What decoding `bytes` once shows of their permissive decoding: its length
/// fits a machine word, and valid UTF-8 decodes to the characters that it
/// encodes.
pub open spec fn decoding_known(bytes: Seq<u8>) -> bool {
    &&& lossy_decode(bytes).len() <= usize::MAX
    &&& valid_utf8(bytes) ==> lossy_decode(bytes) == decode_utf8(bytes)
}

/// Whether every byte is an ASCII character.
pub open spec fn is_ascii_bytes(bytes: Seq<u8>) -> bool {
    forall|i: int| 0 <= i < bytes.len() ==> #[trigger] bytes[i] < 0x80
}

/// ASCII bytes are valid UTF-8, one character to the byte.
pub proof fn lemma_ascii_is_text(bytes: Seq<u8>)
    requires
        is_ascii_bytes(bytes),
    ensures
        valid_utf8(bytes),
        decode_utf8(bytes).len() == bytes.len(),
    decreases bytes.len(),
{
    if bytes.len() > 0 {
        let first = bytes[0];
        assert((first & 0x7F) < 0x80) by (bit_vector);
        let rest = pop_first_scalar(bytes);
        assert forall|i: int| 0 <= i < rest.len() implies #[trigger] rest[i] < 0x80 by {
            assert(rest[i] == bytes[i + 1]);
        }
        lemma_ascii_is_text(rest);
    }
}

/// The number of characters in the permissive decoding of `chunk`.
pub fn lossy_char_count(chunk: &[u8]) -> (count: usize)
    ensures
        count == lossy_decode(chunk@).len(),
        decoding_known(chunk@),
{
    let text = String::from_utf8_lossy(chunk);
    match &text {
        Cow::Borrowed(slice) => slice.unicode_len(),
        Cow::Owned(string) => string.as_str().unicode_len(),
    }
}

} // verus!
