use vstd::prelude::*;
use vstd::string::*;
use base64::Engine;
use sha1::Digest;

verus! {

/// Size in bytes of a complete copy of the speech model.
pub const WHISPER_FILE_SIZE: u64 = 147964211;

/// Whether the model file must be fetched, given its size on disk, or `None`
/// where it is missing or its size cannot be read: only a file of exactly
/// the expected size is kept.
pub fn model_needs_download(file_size: Option<u64>) -> (r: bool)
    ensures
        r == (file_size != Some(WHISPER_FILE_SIZE)),
{
    match file_size {
        Some(size) => size != WHISPER_FILE_SIZE,
        None => true,
    }
}

/// The SHA-1 digest of `data`, written as forty lower-case hex digits.
pub uninterp spec fn sha1_hex(data: Seq<u8>) -> Seq<char>;

/// The standard, padded base64 encoding of `data`.
pub uninterp spec fn base64_of(data: Seq<u8>) -> Seq<char>;

/// Relies on `sha1::Sha1::digest` for the digest of `data`, written out in
/// lower-case hex by the digest array's `LowerHex` formatting.
#[verifier::external_body]
fn sha1_digest_hex(data: &[u8]) -> (r: String)
    ensures
        r@ == sha1_hex(data@),
{
    format!("{:x}", sha1::Sha1::digest(data))
}

/// A character of the standard base64 alphabet: `A`-`Z`, `a`-`z`, `0`-`9`,
/// `+` and `/`.
pub open spec fn is_base64_symbol(c: char) -> bool {
    ('A' <= c <= 'Z') || ('a' <= c <= 'z') || ('0' <= c <= '9') || c == '+' || c == '/'
}

/// Relies on `base64::Engine::encode` of the standard engine for the padded
/// base64 text of `data`: four characters for every started group of three
/// bytes, each from the standard alphabet or the padding `=`. The engine
/// panics only where the encoded length overflows `usize`, which the bound on
/// `data` rules out.
#[verifier::external_body]
fn base64_encode(data: &[u8]) -> (r: String)
    requires
        data@.len() <= 0x5fff_ffff_ffff_ffff,
    ensures
        r@ == base64_of(data@),
        r@.len() == 4 * ((data@.len() + 2) / 3),
        forall|i: int| 0 <= i < r@.len() ==> is_base64_symbol(#[trigger] r@[i]) || r@[i] == '=',
{
    base64::engine::general_purpose::STANDARD.encode(data)
}

/// Whether `contents` has the SHA-1 digest `sha`, given in lower-case hex.
pub fn hash_matches(contents: &[u8], sha: &str) -> (r: bool)
    ensures
        r == (sha1_hex(contents@) == sha@),
{
    let digest = sha1_digest_hex(contents);
    digest_matches(digest.as_str(), sha)
}

/// Whether the hex digest `digest` equals `sha`.
pub fn digest_matches(digest: &str, sha: &str) -> (r: bool)
    ensures
        r == (digest@ == sha@),
{
    digest.to_owned() == sha.to_owned()
}

/// The data URL that carries a JPEG image inline: the prefix
/// `data:image/jpeg;base64,` followed by the base64 text of `image`.
pub fn image_data_url(image: &[u8]) -> (r: String)
    requires
        image@.len() <= 0x5fff_ffff_ffff_ffff,
    ensures
        r@ == "data:image/jpeg;base64,"@ + base64_of(image@),
        base64_of(image@).len() == 4 * ((image@.len() + 2) / 3),
{
    let encoded = base64_encode(image);
    let mut url = String::from_str("data:image/jpeg;base64,");
    url.append(encoded.as_str());
    url
}

} // verus!
