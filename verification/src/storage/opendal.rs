//! Identifiers as places: an object of an S3 bucket, or a file under a root.

use vstd::prelude::*;
use vstd::string::StringExecFns;
use vstd::utf8::{decode_utf8, encode_utf8, valid_utf8};
use crate::iiif::escape::utf8_text;
use crate::iiif::parse::SLASH;
use crate::storage::StorageError;
use crate::text::{cut, first_index, head, lemma_first_index, skip, starts_with, tail};

verus! {

/// The scheme and the two slashes that begin the identifier of an S3 object.
pub const S3_SCHEME: [u8; 5] = ['s' as u8, '3' as u8, ':' as u8, '/' as u8, '/' as u8];

/// A place where the bytes of an image are kept.
#[derive(Clone, Debug, PartialEq, Eq)]
pub enum StorageLocation {
    /// An object of an S3 bucket.
    S3 { region: String, bucket: String, key: String },
    /// A file below the root of the local storage.
    Local { key: String },
}

/// A place as a mathematical value.
pub enum LocationView {
    S3 { region: Seq<char>, bucket: Seq<char>, key: Seq<char> },
    Local { key: Seq<char> },
}

impl View for StorageLocation {
    type V = LocationView;

    open spec fn view(&self) -> LocationView {
        match self {
            StorageLocation::S3 { region, bucket, key } => LocationView::S3 {
                region: region@,
                bucket: bucket@,
                key: key@,
            },
            StorageLocation::Local { key } => LocationView::Local { key: key@ },
        }
    }
}

/// Why an identifier that begins like an S3 object's names no object.
#[derive(Clone, Copy, Debug, PartialEq, Eq, Structural)]
pub enum LocationError {
    /// Nothing follows the region.
    NoBucket,
    /// Nothing follows the bucket.
    NoKey,
}

/// The place that the bytes of an identifier name: `s3://region/bucket/key`
/// is an S3 object, whose key is all that follows the bucket; every other
/// identifier is the key of a local file.
pub open spec fn location_read(id: Seq<u8>) -> Result<LocationView, LocationError> {
    if S3_SCHEME@.is_prefix_of(id) {
        let rest = id.skip(5);
        match tail(rest, SLASH) {
            None => Err(LocationError::NoBucket),
            Some(t) => match tail(t, SLASH) {
                None => Err(LocationError::NoKey),
                Some(key) => Ok(
                    LocationView::S3 {
                        region: decode_utf8(head(rest, SLASH)),
                        bucket: decode_utf8(head(t, SLASH)),
                        key: decode_utf8(key),
                    },
                ),
            },
        }
    } else {
        Ok(LocationView::Local { key: decode_utf8(id) })
    }
}

/// What stands before and after an ASCII byte of a UTF-8 text is UTF-8 text.
pub proof fn lemma_cut_utf8(s: Seq<u8>, sep: u8)
    requires
        valid_utf8(s),
        sep < 128,
    ensures
        valid_utf8(head(s, sep)),
        tail(s, sep) is Some ==> valid_utf8(tail(s, sep)->0),
{
    let k = first_index(s, sep);
    lemma_first_index(s, sep);
    if k < s.len() {
        assert(!vstd::utf8::is_continuation_byte(s[k]));
        vstd::utf8::is_char_boundary_iff_not_is_continuation_byte(s, k);
        vstd::utf8::valid_utf8_split(s, k);
        let right = s.subrange(k, s.len() as int);
        assert(right[0] == sep);
        assert(vstd::utf8::is_leading_byte_width_1(right[0]));
        assert(vstd::utf8::pop_first_scalar(right) =~= s.subrange(k + 1, s.len() as int));
    } else {
        assert(s.subrange(0, k) =~= s);
    }
}

/// The text that UTF-8 bytes encode.
fn text_of(bytes: &[u8]) -> (text: String)
    requires
        valid_utf8(bytes@),
    ensures
        text@ == decode_utf8(bytes@),
{
    utf8_text(vstd::slice::slice_to_vec(bytes)).unwrap()
}

/// The error that tells a client what is wrong with an S3 identifier.
pub open spec fn location_error_text(e: LocationError) -> Seq<char> {
    match e {
        LocationError::NoBucket => "invalid S3 URI specification"@,
        LocationError::NoKey => "invalid S3 bucket/key specification"@,
    }
}

/// True if `r` is the outcome `v`: the place that `v` holds, or the error
/// with the text for the fault that `v` holds.
pub open spec fn is_location(
    r: Result<StorageLocation, StorageError>,
    v: Result<LocationView, LocationError>,
) -> bool {
    match (r, v) {
        (Ok(l), Ok(w)) => l@ == w,
        (Err(StorageError::Other(text)), Err(e)) => text@ == location_error_text(e),
        _ => false,
    }
}

/// The storage of images: local files below a root, and S3 objects.
pub struct OpenDalStorageProvider {
    path: String,
}

impl OpenDalStorageProvider {
    /// The root of the local storage.
    pub closed spec fn root(self) -> Seq<char> {
        self.path@
    }

    /// The storage with local files below `path`.
    pub fn new(path: String) -> (provider: OpenDalStorageProvider)
        ensures
            provider.root() == path@,
    {
        OpenDalStorageProvider { path }
    }

    /// The root of the local storage.
    pub fn path(&self) -> (root: &str)
        ensures
            root@ == self.root(),
    {
        self.path.as_str()
    }

    /// The place that an identifier names.
    pub fn locate(&self, id: &str) -> (r: Result<StorageLocation, StorageError>)
        ensures
            is_location(r, location_read(encode_utf8(id@))),
    {
        let bytes = id.as_bytes();
        proof {
            vstd::utf8::encode_utf8_valid_utf8(id@);
        }
        if !starts_with(bytes, S3_SCHEME.as_slice()) {
            return Ok(StorageLocation::Local { key: text_of(bytes) });
        }
        let rest = skip(bytes, 5);
        proof {
            // the scheme is five ASCII bytes, so what follows it is UTF-8 text
            assert(bytes@.subrange(0, 5) =~= S3_SCHEME@);
            assert(bytes@[4] == '/' as u8);
            let four = bytes@.skip(4);
            assert(four[0] == '/' as u8);
            assert(!vstd::utf8::is_continuation_byte(bytes@[4]));
            vstd::utf8::is_char_boundary_iff_not_is_continuation_byte(bytes@, 4);
            vstd::utf8::valid_utf8_split(bytes@, 4);
            assert(bytes@.subrange(4, bytes@.len() as int) =~= four);
            assert(first_index(four, SLASH) == 0);
            lemma_cut_utf8(four, SLASH);
            assert(tail(four, SLASH)->0 =~= rest@);
            lemma_cut_utf8(rest@, SLASH);
            if tail(rest@, SLASH) is Some {
                lemma_cut_utf8(tail(rest@, SLASH)->0, SLASH);
            }
        }
        let (region, t) = cut(rest, SLASH);
        let t = match t {
            Some(t) => t,
            None => {
                return Err(StorageError::Other(String::from_str("invalid S3 URI specification")));
            },
        };
        let (bucket, key) = cut(t, SLASH);
        match key {
            Some(key) => Ok(
                StorageLocation::S3 {
                    region: text_of(region),
                    bucket: text_of(bucket),
                    key: text_of(key),
                },
            ),
            None => Err(
                StorageError::Other(String::from_str("invalid S3 bucket/key specification")),
            ),
        }
    }
}

} // verus!
