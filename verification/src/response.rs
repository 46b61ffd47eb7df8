//! Reading the body of an HTTP response.

use vstd::prelude::*;
use vstd::utf8::*;

use crate::outside;
use crate::seqs;
use crate::text;

verus! {

/// Why a body cannot be read.
#[derive(Clone, Copy, Debug, PartialEq, Eq, Structural)]
pub enum BodyError {
    Decompressing,
    CompressedText,
    Text,
}

impl BodyError {
    /// What was attempted.
    pub open spec fn text(self) -> Seq<char> {
        match self {
            BodyError::Decompressing => "decompressing gzip response body"@,
            BodyError::CompressedText => "decoding gzip response as UTF-8"@,
            BodyError::Text => "decoding response as UTF-8"@,
        }
    }

    /// What was attempted.
    pub fn message(&self) -> (r: &'static str)
        ensures
            r@ == self.text(),
    {
        match self {
            BodyError::Decompressing => "decompressing gzip response body",
            BodyError::CompressedText => "decoding gzip response as UTF-8",
            BodyError::Text => "decoding response as UTF-8",
        }
    }
}

/// Whether a body with this content encoding is compressed. Upper and lower case do not count.
pub open spec fn says_gzip(content_encoding: Option<Seq<char>>) -> bool {
    match content_encoding {
        Some(encoding) => seqs::ascii_lower(encoding) == "gzip"@,
        None => false,
    }
}

/// Whether a body with this content encoding is compressed.
pub fn is_gzip(content_encoding: &Option<String>) -> (r: bool)
    ensures
        r == says_gzip(content_encoding.deep_view()),
{
    match content_encoding {
        Some(encoding) => {
            let chars = text::chars_of(encoding.as_str());
            let lower = text::ascii_lower(&chars);
            let gzip = text::chars_of("gzip");
            text::eq(&lower, &gzip)
        },
        None => false,
    }
}

/// What was read, with its text.
pub open spec fn text_of(read: Result<String, BodyError>) -> Result<Seq<char>, BodyError> {
    match read {
        Ok(text) => Ok(text@),
        Err(error) => Err(error),
    }
}

/// The text that bytes encode, or the given error.
pub open spec fn decoded(bytes: Seq<u8>, error: BodyError) -> Result<Seq<char>, BodyError> {
    if valid_utf8(bytes) {
        Ok(decode_utf8(bytes))
    } else {
        Err(error)
    }
}

/// The text of a compressed body, given what decompressing it gives.
pub open spec fn decompressed_text(decompressed: Option<Seq<u8>>) -> Result<Seq<char>, BodyError> {
    match decompressed {
        Some(bytes) => decoded(bytes, BodyError::CompressedText),
        None => Err(BodyError::Decompressing),
    }
}

fn decode(bytes: Vec<u8>, error: BodyError) -> (r: Result<String, BodyError>)
    ensures
        text_of(r) == decoded(bytes@, error),
{
    match outside::utf8_text(bytes) {
        Some(text) => Ok(text),
        None => Err(error),
    }
}

/// The text of a compressed body, given what decompressing it gives.
pub fn read_decompressed(decompressed: Option<Vec<u8>>) -> (r: Result<String, BodyError>)
    ensures
        text_of(r) == decompressed_text(decompressed.deep_view()),
{
    match decompressed {
        Some(bytes) => {
            assert(bytes.deep_view() =~= bytes@);
            decode(bytes, BodyError::CompressedText)
        },
        None => Err(BodyError::Decompressing),
    }
}

/// The text of a body with the given content encoding.
pub fn read_response_text(content_encoding: &Option<String>, body: Vec<u8>) -> (r: Result<
    String,
    BodyError,
>)
    ensures
        text_of(r) == if says_gzip(content_encoding.deep_view()) {
            decompressed_text(outside::gunzipped(body@))
        } else {
            decoded(body@, BodyError::Text)
        },
{
    if is_gzip(content_encoding) {
        read_decompressed(outside::gunzip(&body))
    } else {
        decode(body, BodyError::Text)
    }
}

/// A body that is not compressed is read back as the text that was sent.
pub proof fn sent_text_is_read(text: Seq<char>)
    ensures
        decoded(encode_utf8(text), BodyError::Text) == Ok::<Seq<char>, BodyError>(text),
{
    encode_utf8_valid_utf8(text);
    encode_utf8_decode_utf8(text);
}

/// A body is taken to be compressed exactly if its encoding is gzip, in whatever case it is
/// written.
pub proof fn encoding_is_read_in_any_case(encoding: Seq<char>)
    ensures
        !says_gzip(None),
        says_gzip(Some(encoding)) <==> encoding.len() == 4 && (encoding[0] == 'g' || encoding[0]
            == 'G') && (encoding[1] == 'z' || encoding[1] == 'Z') && (encoding[2] == 'i'
            || encoding[2] == 'I') && (encoding[3] == 'p' || encoding[3] == 'P'),
{
    reveal_strlit("gzip");
    let lower = seqs::ascii_lower(encoding);
    if encoding.len() == 4 {
        letter_is_small(encoding[0], 'g', 'G');
        letter_is_small(encoding[1], 'z', 'Z');
        letter_is_small(encoding[2], 'i', 'I');
        letter_is_small(encoding[3], 'p', 'P');
        if says_gzip(Some(encoding)) {
            assert(lower[0] == 'g' && lower[1] == 'z' && lower[2] == 'i' && lower[3] == 'p');
        }
        if (encoding[0] == 'g' || encoding[0] == 'G') && (encoding[1] == 'z' || encoding[1] == 'Z')
            && (encoding[2] == 'i' || encoding[2] == 'I') && (encoding[3] == 'p' || encoding[3]
            == 'P') {
            assert(lower =~= "gzip"@);
        }
    } else {
        assert(lower.len() != "gzip"@.len());
    }
}

proof fn letter_is_small(c: char, small: char, capital: char)
    requires
        'a' <= small <= 'z',
        capital as u32 + 32 == small as u32,
    ensures
        seqs::lower_char(c) == small <==> c == small || c == capital,
{
}

/// A compressed body is read as the text that was compressed. What cannot be decompressed, and what
/// is no text after it, are different errors.
pub proof fn compressed_text_is_read(text: Seq<char>, bytes: Seq<u8>)
    ensures
        decompressed_text(Some(encode_utf8(text))) == Ok::<Seq<char>, BodyError>(text),
        decompressed_text(None) == Err::<Seq<char>, BodyError>(BodyError::Decompressing),
        !valid_utf8(bytes) ==> decompressed_text(Some(bytes)) == Err::<Seq<char>, BodyError>(
            BodyError::CompressedText,
        ),
        !valid_utf8(bytes) ==> decoded(bytes, BodyError::Text) == Err::<Seq<char>, BodyError>(
            BodyError::Text,
        ),
        decoded(encode_utf8(text), BodyError::Text) == Ok::<Seq<char>, BodyError>(text),
{
    sent_text_is_read(text);
    encode_utf8_valid_utf8(text);
}
/// What was read is passed on as it is.
pub proof fn read_text_is_passed_on(text: String, error: BodyError)
    ensures
        text_of(Ok(text)) == Ok::<Seq<char>, BodyError>(text@),
        text_of(Err(error)) == Err::<Seq<char>, BodyError>(error),
{
}
/// A body is decompressed exactly if its encoding says so, and is read as the text it then is.
pub proof fn body_is_read_by_encoding(
    encoding: Option<String>,
    body: Vec<u8>,
    text: Seq<char>,
    read: Result<String, BodyError>,
)
    requires
        call_ensures(read_response_text, (&encoding, body), read),
    ensures
        !says_gzip(encoding.deep_view()) && body@ == encode_utf8(text) ==> read is Ok
            && read->Ok_0@ == text,
        says_gzip(encoding.deep_view()) && outside::gunzipped(body@) == Some(encode_utf8(text))
            ==> read is Ok && read->Ok_0@ == text,
        says_gzip(encoding.deep_view()) && outside::gunzipped(body@) is None ==> read is Err
            && read->Err_0 == BodyError::Decompressing,
{
    compressed_text_is_read(text, body@);
}
} // verus!
