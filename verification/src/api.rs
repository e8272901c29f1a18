//! The decisions of the HTTP handlers that do not need the network or the database: checking
//! and decoding a post sent by the editor, and naming an embedded file.
use vstd::prelude::*;
use vstd::utf8::encode_utf8;
use crate::text::chars_of;

verus! {

/// A post as the editor sends it: the serialized document comes Base64-encoded.
pub struct BlogPostInput {
    pub slug: String,
    pub title: String,
    pub content: String,
    pub content_flatbuffer64: String,
}

#[verifier::external_type_specification]
#[verifier::external_body]
pub struct ExDecodeError(base64::DecodeError);

/// The bytes that standard Base64 (with padding) decodes `input` to, or `None` when `input`
/// is not valid standard Base64.
pub uninterp spec fn spec_base64_decode(input: Seq<u8>) -> Option<Seq<u8>>;

/// base64's `decode` (version 0.21: the standard alphabet with padding). Trusted: its result is
/// named by `spec_base64_decode`, a function of the input's bytes alone.
#[verifier::external_body]
fn base64_decode(input: &str) -> (r: Result<Vec<u8>, base64::DecodeError>)
    ensures
        match r {
            Ok(v) => spec_base64_decode(encode_utf8(input@)) == Some(v@),
            Err(_) => spec_base64_decode(encode_utf8(input@)) is None,
        },
{
    #[allow(deprecated)]
    base64::decode(input)
}

/// Why a post sent by the editor was refused.
pub enum InputError {
    /// The serialized document is missing.
    MissingFlatbuffer,
    /// The serialized document is not valid Base64.
    InvalidBase64,
}

/// The serialized document of a new post, decoded.
pub fn decode_create_input(input: &BlogPostInput) -> (r: Result<Vec<u8>, InputError>)
    ensures
        match r {
            Ok(v) => spec_base64_decode(encode_utf8(input.content_flatbuffer64@)) == Some(v@),
            Err(e) => e is InvalidBase64 && spec_base64_decode(
                encode_utf8(input.content_flatbuffer64@),
            ) is None,
        },
{
    match base64_decode(input.content_flatbuffer64.as_str()) {
        Ok(v) => Ok(v),
        Err(_) => Err(InputError::InvalidBase64),
    }
}

/// The serialized document of an updated post, decoded; an update must carry one.
pub fn check_update_input(input: &BlogPostInput) -> (r: Result<Vec<u8>, InputError>)
    ensures
        match r {
            Ok(v) => input.content_flatbuffer64@.len() > 0 && spec_base64_decode(
                encode_utf8(input.content_flatbuffer64@),
            ) == Some(v@),
            Err(InputError::MissingFlatbuffer) => input.content_flatbuffer64@.len() == 0,
            Err(InputError::InvalidBase64) => input.content_flatbuffer64@.len() > 0
                && spec_base64_decode(encode_utf8(input.content_flatbuffer64@)) is None,
        },
{
    if input.content_flatbuffer64.as_str().is_empty() {
        return Err(InputError::MissingFlatbuffer);
    }
    decode_create_input(input)
}

/// `s` without its leading `/` characters.
pub open spec fn trim_leading_slashes(s: Seq<char>) -> Seq<char>
    decreases s.len(),
{
    if s.len() > 0 && s[0] == '/' {
        trim_leading_slashes(s.drop_first())
    } else {
        s
    }
}

/// The embedded file that a request for `/pz-admin{tail}` asks for: `tail` without its
/// leading slashes, or `index.html` when nothing is left.
pub open spec fn spec_asset_path(tail: Seq<char>) -> Seq<char> {
    if trim_leading_slashes(tail).len() == 0 {
        "index.html"@
    } else {
        trim_leading_slashes(tail)
    }
}

/// The embedded file that a request for `/pz-admin{tail}` asks for.
pub fn embedded_asset_path(tail: &str) -> (r: String)
    ensures
        r@ == spec_asset_path(tail@),
{
    let cs = chars_of(tail);
    let n = cs.len();
    let mut i: usize = 0;
    assert(cs@.skip(0) == cs@);
    while i < n && cs[i] == '/'
        invariant
            n == cs@.len(),
            i <= n,
            trim_leading_slashes(cs@) == trim_leading_slashes(cs@.skip(i as int)),
        decreases n - i,
    {
        proof {
            assert(cs@.skip(i as int).drop_first() == cs@.skip(i + 1));
        }
        i = i + 1;
    }
    proof {
        if i == n {
            assert(cs@.skip(i as int).len() == 0);
        }
    }
    if i == n {
        "index.html".to_owned()
    } else {
        crate::text::string_from_range(&cs, i, n)
    }
}

/// The media type that mime_guess gives a path by its extension, `application/octet-stream`
/// when it knows none.
pub uninterp spec fn spec_mime_guess(path: Seq<char>) -> Seq<char>;

/// mime_guess's `from_path(path).first_or_octet_stream()`, as text. Trusted: its result is
/// named by `spec_mime_guess`, a function of the path alone.
#[verifier::external_body]
fn mime_guess_first_or_octet_stream(path: &str) -> (r: String)
    ensures
        r@ == spec_mime_guess(path@),
{
    mime_guess::from_path(path).first_or_octet_stream().to_string()
}

/// The media type an embedded file is served with.
pub fn embedded_mime_type(path: &str) -> (r: String)
    ensures
        r@ == spec_mime_guess(path@),
{
    mime_guess_first_or_octet_stream(path)
}

/// The slug that a request for a page asks for: the path, or the empty slug of the home page.
pub fn requested_slug(path: Option<String>) -> (r: String)
    ensures
        r@ == match path {
            Some(p) => p@,
            None => Seq::<char>::empty(),
        },
{
    match path {
        Some(p) => p,
        None => String::new(),
    }
}

} // verus!
