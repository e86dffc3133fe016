//! Directory listings: the request, its defaults, and the compressed form of a
//! long listing.
use vstd::prelude::*;
use vstd::utf8::encode_utf8;
use crate::text::{chars_of, decimal, decimal_chars, string_of};

verus! {

/// An error carried across tasks as its message.
#[derive(Debug)]
pub struct SendError(String);

impl SendError {
    pub closed spec fn message_view(&self) -> Seq<char> {
        self.0@
    }

    /// An error with the message `message`.
    pub fn new(message: &str) -> (r: Self)
        ensures
            r.message_view() == message@,
    {
        SendError(string_of(chars_of(message).as_slice()))
    }

    /// The message of the error.
    pub fn message(&self) -> (r: &str)
        ensures
            r@ == self.message_view(),
    {
        self.0.as_str()
    }
}

/// A request to list the directory at `path`.
pub struct ListFilesTool {
    /// The path of the directory to list.
    pub path: String,
    /// Whether to list recursively (default: false).
    pub recursive: Option<bool>,
    /// Whether a long listing is sent compressed (default: false).
    pub compress_output: Option<bool>,
    /// Most entries listed (default: 10000).
    pub max_entries: Option<u64>,
}

/// Listings longer than this, in bytes, may be compressed.
pub const COMPRESSION_MIN_LEN: usize = 4096;

/// Entries listed when the request sets no limit.
pub const DEFAULT_MAX_ENTRIES: u64 = 10000;

/// The LZ4 block of `input`, preceded by its length as four little-endian bytes.
pub uninterp spec fn lz4_size_prepended(input: Seq<u8>) -> Seq<u8>;

/// The standard base64 encoding of `input`, with padding.
pub uninterp spec fn base64_standard(input: Seq<u8>) -> Seq<char>;

/// Relies on `lz4_flex::compress_prepend_size`: the compressed block of
/// `input`, its uncompressed length in front.
#[verifier::external_body]
fn lz4_compress(input: &[u8]) -> (r: Vec<u8>)
    ensures
        r@ == lz4_size_prepended(input@),
{
    lz4_flex::compress_prepend_size(input)
}

/// Relies on `base64::engine::general_purpose::STANDARD.encode`.
#[verifier::external_body]
fn base64_encode(input: &[u8]) -> (r: String)
    ensures
        r@ == base64_standard(input@),
{
    base64::Engine::encode(&base64::engine::general_purpose::STANDARD, input)
}

/// `COMPRESSED_LISTING:<n>\n<base64>` for the compressed block of `n` bytes.
pub open spec fn compressed_listing(listing: Seq<char>) -> Seq<char> {
    let block = lz4_size_prepended(encode_utf8(listing));
    "COMPRESSED_LISTING:"@ + decimal(block.len()) + "\n"@ + base64_standard(block)
}

impl ListFilesTool {
    /// Whether the listing is recursive.
    pub fn is_recursive(&self) -> (r: bool)
        ensures
            r == (self.recursive == Some(true)),
    {
        self.recursive == Some(true)
    }

    /// The most entries to list.
    pub fn entry_limit(&self) -> (r: u64)
        ensures
            r == match self.max_entries {
                Some(n) => n,
                None => DEFAULT_MAX_ENTRIES,
            },
    {
        match self.max_entries {
            Some(n) => n,
            None => DEFAULT_MAX_ENTRIES,
        }
    }

    /// Whether a listing of `listing_len` bytes is sent compressed.
    pub fn compresses(&self, listing_len: usize) -> (r: bool)
        ensures
            r == (self.compress_output == Some(true) && listing_len > COMPRESSION_MIN_LEN),
    {
        self.compress_output == Some(true) && listing_len > COMPRESSION_MIN_LEN
    }

    /// The listing LZ4-compressed, base64-encoded, under a header that gives
    /// the compressed size.
    pub fn compress_listing(listing: &str) -> (r: String)
        ensures
            r@ == compressed_listing(listing@),
    {
        let block = lz4_compress(listing.as_bytes());
        let encoded = base64_encode(block.as_slice());
        let mut out = chars_of("COMPRESSED_LISTING:");
        out.extend_from_slice(decimal_chars(block.len() as u128).as_slice());
        out.extend_from_slice(chars_of("\n").as_slice());
        out.extend_from_slice(chars_of(encoded.as_str()).as_slice());
        let r = string_of(out.as_slice());
        assert(r@ =~= compressed_listing(listing@));
        r
    }
}

} // verus!
