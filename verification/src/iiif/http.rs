//! Between HTTP and the image service: which request a URL path and an
//! `If-Modified-Since` header denote, and which status, headers and body
//! answer it.

use vstd::prelude::*;
use vstd::string::StringExecFns;
use vstd::utf8::encode_utf8;
use crate::http_date::{header_time, is_text, last_modified_header, last_modified_text,
    read_header_time};
use crate::iiif::parse::{read_request, request_read, Element, ParseError, Reason, SLASH};
use crate::iiif::service::{ImageServiceError, ImageServiceRequest, ImageServiceRequestKind,
    ImageServiceResponse, ImageServiceResponseKind, ImageStream, RequestView};
use crate::iiif::Dimension;
use crate::image::info::{ImageInfo, PreferredSize, Tile};
use crate::storage::StorageError;
use crate::text::{same, skip, starts_with};

verus! {

/// The route of an image request, as traces name it.
pub const IMAGE_REQUEST_ROUTE: &'static str =
    "/<prefix>/<identifier>/<region>/<size>/<rotation>/<quality>.<format>";

/// The route of a request for an image's description.
pub const INFO_REQUEST_ROUTE: &'static str = "/<prefix>/<identifier>/info.json";

/// The body of the answer to a health probe.
pub const HEALTH_BODY: &'static str = "OK!";

/// The media type of an image's description.
pub const INFO_MEDIA_TYPE: &'static str = "application/ld+json";

/// The status of a response with what was asked for.
pub const OK: u16 = 200;

/// The status of a response to a client whose copy is as new as the object.
pub const NOT_MODIFIED: u16 = 304;

/// The status of a response to a request that cannot be read or met.
pub const BAD_REQUEST: u16 = 400;

/// The status of a response where the image is not there.
pub const NOT_FOUND: u16 = 404;

/// The status of a response to a request that failed for another reason.
pub const INTERNAL_SERVER_ERROR: u16 = 500;

impl Element {
    /// The name of the element in messages.
    pub open spec fn name_text(self) -> &'static str {
        match self {
            Element::Path => "path",
            Element::Identifier => "identifier",
            Element::Region => "region",
            Element::Size => "size",
            Element::Rotation => "rotation",
            Element::Quality => "quality",
            Element::Format => "format",
        }
    }

    /// The name of the element in messages.
    pub fn name(&self) -> (n: &'static str)
        ensures
            n == self.name_text(),
    {
        match self {
            Element::Path => "path",
            Element::Identifier => "identifier",
            Element::Region => "region",
            Element::Size => "size",
            Element::Rotation => "rotation",
            Element::Quality => "quality",
            Element::Format => "format",
        }
    }
}

impl Reason {
    /// What is wrong, in words.
    pub open spec fn phrase_text(self) -> &'static str {
        match self {
            Reason::Missing => "it is missing",
            Reason::Encoding => "a '%' is not followed by two hexadecimal digits",
            Reason::NotUtf8 => "it is not UTF-8",
            Reason::Malformed => "it does not follow the grammar",
            Reason::OutOfRange => "a number is out of range",
            Reason::Zero => "a width or height is zero",
            Reason::Unknown => "the word is not known",
        }
    }

    /// What is wrong, in words.
    pub fn phrase(&self) -> (p: &'static str)
        ensures
            p == self.phrase_text(),
    {
        match self {
            Reason::Missing => "it is missing",
            Reason::Encoding => "a '%' is not followed by two hexadecimal digits",
            Reason::NotUtf8 => "it is not UTF-8",
            Reason::Malformed => "it does not follow the grammar",
            Reason::OutOfRange => "a number is out of range",
            Reason::Zero => "a width or height is zero",
            Reason::Unknown => "the word is not known",
        }
    }
}

impl ParseError {
    /// What the error says of itself: it names the element at fault.
    pub open spec fn message_text(self) -> Seq<char> {
        "Request path "@ + self.element.name_text()@ + " is invalid: "@
            + self.reason.phrase_text()@ + "."@
    }

    /// What the error says of itself.
    pub fn message(&self) -> (text: String)
        ensures
            text@ == self.message_text(),
    {
        String::from_str("Request path ").concat(self.element.name()).concat(
            " is invalid: ",
        ).concat(self.reason.phrase()).concat(".")
    }
}

/// Why an HTTP request is no request to the image service.
#[derive(Clone, Debug, Eq, PartialEq)]
pub enum IiifRequestError {
    /// If the URI did not contain an expected element.
    UriMissingElement(&'static str),
    /// If the URI contained a text element that was not in UTF-8.
    UriNotUtf8(&'static str),
    /// If the request contained input that could not be parsed.
    ParseError(ParseError),
}

impl IiifRequestError {
    /// The error for a path that could not be read: a missing element and
    /// one that is no UTF-8 have variants of their own.
    pub open spec fn of(e: ParseError) -> IiifRequestError {
        match e.reason {
            Reason::Missing => IiifRequestError::UriMissingElement(e.element.name_text()),
            Reason::NotUtf8 => IiifRequestError::UriNotUtf8(e.element.name_text()),
            _ => IiifRequestError::ParseError(e),
        }
    }

    /// What the error says of itself.
    pub open spec fn message_text(self) -> Seq<char> {
        match self {
            IiifRequestError::UriMissingElement(element) => "Request path missing "@ + element@
                + "."@,
            IiifRequestError::UriNotUtf8(element) => "Request path "@ + element@
                + " was not in UTF-8."@,
            IiifRequestError::ParseError(e) => e.message_text(),
        }
    }

    /// What the error says of itself.
    pub fn message(&self) -> (text: String)
        ensures
            text@ == self.message_text(),
    {
        match self {
            IiifRequestError::UriMissingElement(element) => String::from_str(
                "Request path missing ",
            ).concat(element).concat("."),
            IiifRequestError::UriNotUtf8(element) => String::from_str("Request path ").concat(
                element,
            ).concat(" was not in UTF-8."),
            IiifRequestError::ParseError(e) => e.message(),
        }
    }
}

impl From<ParseError> for IiifRequestError {
    fn from(value: ParseError) -> (r: IiifRequestError) {
        match value.reason {
            Reason::Missing => IiifRequestError::UriMissingElement(value.element.name()),
            Reason::NotUtf8 => IiifRequestError::UriNotUtf8(value.element.name()),
            _ => IiifRequestError::ParseError(value),
        }
    }
}

impl vstd::std_specs::convert::FromSpecImpl<ParseError> for IiifRequestError {
    open spec fn obeys_from_spec() -> bool {
        true
    }

    open spec fn from_spec(value: ParseError) -> IiifRequestError {
        IiifRequestError::of(value)
    }
}

/// `prefix` without the slashes at its end.
pub open spec fn trimmed(prefix: Seq<u8>) -> Seq<u8>
    decreases prefix.len(),
{
    if prefix.len() > 0 && prefix.last() == SLASH {
        trimmed(prefix.drop_last())
    } else {
        prefix
    }
}

/// `path` without the prefix under which the service is mounted, if it
/// begins with that prefix; the slashes at the end of the prefix stay with
/// the path.
pub open spec fn stripped(path: Seq<u8>, prefix: Seq<u8>) -> Seq<u8> {
    if trimmed(prefix).is_prefix_of(path) {
        path.skip(trimmed(prefix).len() as int)
    } else {
        path
    }
}

/// Takes the prefix off a path.
pub fn strip_prefix<'a>(path: &'a [u8], prefix: &[u8]) -> (r: &'a [u8])
    ensures
        r@ == stripped(path@, prefix@),
{
    let mut n: usize = prefix.len();
    assert(prefix@.subrange(0, n as int) =~= prefix@);
    while n > 0 && prefix[n - 1] == SLASH
        invariant
            n <= prefix@.len(),
            trimmed(prefix@) == trimmed(prefix@.subrange(0, n as int)),
        decreases n,
    {
        assert(prefix@.subrange(0, n as int).drop_last() =~= prefix@.subrange(0, n - 1));
        n -= 1;
    }
    let short = vstd::slice::slice_subrange(prefix, 0, n);
    if starts_with(path, short) {
        skip(path, n)
    } else {
        path
    }
}

/// What an HTTP request asks of the server.
#[derive(Clone, Debug, PartialEq, Eq)]
pub enum Route {
    /// The health probe at the root of the service.
    Health,
    /// A request to the image service.
    Service(ImageServiceRequest),
    /// A path that is no request.
    Rejected(IiifRequestError),
}

/// True if `route` is what the path `path`, the prefix taken off, and the
/// time `seen` of the `If-Modified-Since` header denote.
pub open spec fn is_route(route: Route, path: Seq<u8>, seen: Option<u64>) -> bool {
    if path == seq![SLASH] {
        route == Route::Health
    } else {
        match request_read(path) {
            Ok(v) => route matches Route::Service(q) && q@ == (RequestView {
                last_access_time: seen,
                ..v
            }),
            Err(e) => route == Route::Rejected(IiifRequestError::of(e)),
        }
    }
}

/// The image service behind HTTP, mounted under a prefix.
#[derive(Clone)]
pub struct HttpImageService<S> {
    inner: S,
    prefix: String,
}

impl<S> HttpImageService<S> {
    /// The prefix under which the service is mounted.
    pub closed spec fn spec_prefix(self) -> Seq<char> {
        self.prefix@
    }

    /// The service that is mounted.
    pub closed spec fn spec_inner(self) -> S {
        self.inner
    }

    /// `image_service`, mounted under `prefix`.
    pub fn new_with_prefix(image_service: S, prefix: &str) -> (service: Self)
        ensures
            service.spec_prefix() == prefix@,
            service.spec_inner() == image_service,
    {
        Self { inner: image_service, prefix: prefix.to_owned() }
    }

    /// The service that is mounted.
    pub fn inner(&self) -> (service: &S)
        ensures
            *service == self.spec_inner(),
    {
        &self.inner
    }

    /// The prefix under which the service is mounted.
    pub fn prefix(&self) -> (prefix: &str)
        ensures
            prefix@ == self.spec_prefix(),
    {
        self.prefix.as_str()
    }

    /// Reads an HTTP request: the path of its URL, and the value of its
    /// `If-Modified-Since` header if it has one.
    pub fn decode_request(&self, path: &str, if_modified_since: Option<&str>) -> (route: Route)
        ensures
            is_route(
                route,
                stripped(encode_utf8(path@), encode_utf8(self.spec_prefix())),
                header_time(
                    match if_modified_since {
                        Some(text) => Some(text@),
                        None => None,
                    },
                ),
            ),
    {
        let local = strip_prefix(path.as_bytes(), self.prefix.as_str().as_bytes());
        if local.len() == 1 && local[0] == SLASH {
            assert(local@ =~= seq![SLASH]);
            return Route::Health;
        }
        match read_request(local) {
            Ok(request) => Route::Service(
                request.with_last_access_time(read_header_time(if_modified_since)),
            ),
            Err(e) => Route::Rejected(IiifRequestError::from(e)),
        }
    }
}

/// The name of the route of a request, for traces.
pub fn route_name(kind: &ImageServiceRequestKind) -> (name: &'static str)
    ensures
        name == match kind {
            ImageServiceRequestKind::Info => INFO_REQUEST_ROUTE,
            ImageServiceRequestKind::Image(_) => IMAGE_REQUEST_ROUTE,
        },
{
    match kind {
        ImageServiceRequestKind::Info => INFO_REQUEST_ROUTE,
        ImageServiceRequestKind::Image(_) => IMAGE_REQUEST_ROUTE,
    }
}

/// One entry of the `sizes` of an image's description.
#[derive(Clone, Copy, Debug, PartialEq, Eq)]
pub struct SizeDocument {
    /// The member `type`.
    pub kind: &'static str,
    pub width: Dimension,
    pub height: Dimension,
}

/// One entry of the `tiles` of an image's description. A height that is
/// `None` is left out.
#[derive(Clone, Debug, PartialEq, Eq)]
pub struct TileDocument {
    /// The member `type`.
    pub kind: &'static str,
    pub width: Dimension,
    pub height: Option<Dimension>,
    /// The member `scaleFactors`.
    pub scale_factors: Vec<u16>,
}

/// The `info.json` document of an image: its members in the order in which
/// they are written. A member that is `None` is left out.
#[derive(Clone, Debug, PartialEq, Eq)]
pub struct InfoDocument {
    /// The member `@context`.
    pub context: &'static str,
    /// The member `type`.
    pub kind: &'static str,
    pub protocol: &'static str,
    pub profile: &'static str,
    pub width: Dimension,
    pub height: Dimension,
    pub sizes: Option<Vec<SizeDocument>>,
    pub tiles: Option<Vec<TileDocument>>,
    pub rights: Option<String>,
}

/// The entry for a preferred size.
pub open spec fn size_document(size: PreferredSize) -> SizeDocument {
    SizeDocument { kind: "Size", width: size.width, height: size.height }
}

/// True if `d` is the entry for the tile grid `tile`.
pub open spec fn is_tile_document(d: TileDocument, tile: Tile) -> bool {
    &&& d.kind == "Tile"
    &&& d.width == tile.width
    &&& d.height == tile.height
    &&& d.scale_factors@ == tile.scale_factors@
}

impl InfoDocument {
    /// True if this is the document for the image that `info` describes.
    pub open spec fn describes(self, info: ImageInfo) -> bool {
        &&& self.context == "http://iiif.io/api/image/3/context.json"
        &&& self.kind == "ImageService3"
        &&& self.protocol == "http://iiif.io/api/image"
        &&& self.profile == "level0"
        &&& self.width == info.width
        &&& self.height == info.height
        &&& match (self.sizes, info.sizes) {
            (Some(d), Some(s)) => d@ == s@.map_values(|size: PreferredSize| size_document(size)),
            (None, None) => true,
            _ => false,
        }
        &&& match (self.tiles, info.tiles) {
            (Some(d), Some(t)) => d@.len() == t@.len() && forall|i: int|
                0 <= i < d@.len() ==> is_tile_document(#[trigger] d@[i], t@[i]),
            (None, None) => true,
            _ => false,
        }
        &&& match (self.rights, info.rights) {
            (Some(d), Some(r)) => d@ == r@,
            (None, None) => true,
            _ => false,
        }
    }
}

fn copy_factors(factors: &Vec<u16>) -> (r: Vec<u16>)
    ensures
        r@ == factors@,
{
    let mut out: Vec<u16> = Vec::new();
    let mut i: usize = 0;
    while i < factors.len()
        invariant
            i <= factors@.len(),
            out@ == factors@.subrange(0, i as int),
        decreases factors@.len() - i,
    {
        out.push(factors[i]);
        assert(out@ =~= factors@.subrange(0, i + 1));
        i += 1;
    }
    assert(factors@.subrange(0, i as int) =~= factors@);
    out
}

impl ImageInfo {
    /// The `info.json` document of the image.
    pub fn document(&self) -> (d: InfoDocument)
        ensures
            d.describes(*self),
    {
        let sizes: Option<Vec<SizeDocument>> = match &self.sizes {
            None => None,
            Some(list) => {
                let mut out: Vec<SizeDocument> = Vec::new();
                let mut i: usize = 0;
                while i < list.len()
                    invariant
                        i <= list@.len(),
                        out@ == list@.subrange(0, i as int).map_values(
                            |size: PreferredSize| size_document(size),
                        ),
                    decreases list@.len() - i,
                {
                    let size: &PreferredSize = &list[i];
                    out.push(SizeDocument { kind: "Size", width: size.width, height: size.height });
                    assert(out@ =~= list@.subrange(0, i + 1).map_values(
                        |size: PreferredSize| size_document(size),
                    ));
                    i += 1;
                }
                assert(list@.subrange(0, i as int) =~= list@);
                Some(out)
            },
        };
        let tiles: Option<Vec<TileDocument>> = match &self.tiles {
            None => None,
            Some(list) => {
                let mut out: Vec<TileDocument> = Vec::new();
                let mut i: usize = 0;
                while i < list.len()
                    invariant
                        i <= list@.len(),
                        out@.len() == i,
                        forall|j: int|
                            0 <= j < i ==> is_tile_document(#[trigger] out@[j], list@[j]),
                    decreases list@.len() - i,
                {
                    let tile: &Tile = &list[i];
                    out.push(
                        TileDocument {
                            kind: "Tile",
                            width: tile.width,
                            height: tile.height,
                            scale_factors: copy_factors(&tile.scale_factors),
                        },
                    );
                    i += 1;
                }
                Some(out)
            },
        };
        let rights: Option<String> = match &self.rights {
            None => None,
            Some(text) => Some(text.clone()),
        };
        InfoDocument {
            context: "http://iiif.io/api/image/3/context.json",
            kind: "ImageService3",
            protocol: "http://iiif.io/api/image",
            profile: "level0",
            width: self.width,
            height: self.height,
            sizes,
            tiles,
            rights,
        }
    }
}

/// The body of an HTTP response.
#[derive(Clone, Debug, PartialEq, Eq)]
pub enum HttpBody {
    /// No bytes.
    Empty,
    /// A text.
    Text(String),
    /// An `info.json` document, written as pretty-printed JSON.
    Document(InfoDocument),
    /// The bytes of an encoded image, as they are produced.
    Stream(ImageStream),
}

/// An HTTP response: the status, the two headers that the service sets, and
/// the body.
#[derive(Clone, Debug, PartialEq, Eq)]
pub struct HttpResponse {
    pub status: u16,
    pub content_type: Option<String>,
    pub last_modified: Option<String>,
    pub body: HttpBody,
}

impl HttpResponse {
    /// True if this is a response of status `status` whose body is `text`,
    /// without headers of the service.
    pub open spec fn is_plain(self, status: u16, text: Seq<char>) -> bool {
        &&& self.status == status
        &&& self.content_type is None
        &&& self.last_modified is None
        &&& self.body matches HttpBody::Text(t)
        &&& t@ == text
    }

    /// True if this is the response to the answer `response` of the service:
    /// `304` without a body for a cache hit, `200` with the stream of the
    /// format's media type for an image, `200` with the document for a
    /// description; each with the HTTP date at which the object was last
    /// written, if that is known.
    pub open spec fn answers(self, response: ImageServiceResponse) -> bool {
        &&& is_text(self.last_modified, last_modified_text(response.last_modified_time))
        &&& match response.kind {
            ImageServiceResponseKind::CacheHit => {
                &&& self.status == NOT_MODIFIED
                &&& self.content_type is None
                &&& self.body == HttpBody::Empty
            },
            ImageServiceResponseKind::Image(stream) => {
                &&& self.status == OK
                &&& is_text(self.content_type, Some(stream.media_type.media_type()))
                &&& self.body == HttpBody::Stream(stream)
            },
            ImageServiceResponseKind::Info(info) => {
                &&& self.status == OK
                &&& is_text(self.content_type, Some(INFO_MEDIA_TYPE@))
                &&& self.body matches HttpBody::Document(d)
                &&& d.describes(info)
            },
        }
    }

    /// True if this is the response to the failure `e` of the service: `404`
    /// where the image is not there, `400` with the reason where the image
    /// cannot meet the parameters, `500` for all else.
    pub open spec fn reports(self, e: ImageServiceError) -> bool {
        match e {
            ImageServiceError::Storage(StorageError::NotFound) => self.is_plain(
                NOT_FOUND,
                "Image file not found"@,
            ),
            ImageServiceError::Parameters(p) => self.is_plain(BAD_REQUEST, p.message_text()),
            _ => self.is_plain(INTERNAL_SERVER_ERROR, "An internal error occurred"@),
        }
    }

    /// The response with status `status` and the body `text`.
    pub fn plain(status: u16, text: String) -> (r: HttpResponse)
        ensures
            r.is_plain(status, text@),
    {
        HttpResponse { status, content_type: None, last_modified: None, body: HttpBody::Text(text) }
    }

    /// The response to a health probe.
    pub fn health() -> (r: HttpResponse)
        ensures
            r.is_plain(OK, HEALTH_BODY@),
    {
        HttpResponse::plain(OK, String::from_str(HEALTH_BODY))
    }

    /// The response to a path that is no request: `400`, with a text that
    /// names the element at fault.
    pub fn rejected(e: &IiifRequestError) -> (r: HttpResponse)
        ensures
            r.is_plain(BAD_REQUEST, e.message_text()),
    {
        HttpResponse::plain(BAD_REQUEST, e.message())
    }

    /// The response to a failure of the service.
    pub fn failed(e: &ImageServiceError) -> (r: HttpResponse)
        ensures
            r.reports(*e),
    {
        match e {
            ImageServiceError::Storage(StorageError::NotFound) => HttpResponse::plain(
                NOT_FOUND,
                String::from_str("Image file not found"),
            ),
            ImageServiceError::Parameters(p) => HttpResponse::plain(BAD_REQUEST, p.message()),
            _ => HttpResponse::plain(
                INTERNAL_SERVER_ERROR,
                String::from_str("An internal error occurred"),
            ),
        }
    }
}

impl ImageServiceResponse {
    /// The HTTP response to this answer.
    pub fn into_http(self) -> (r: HttpResponse)
        ensures
            r.answers(self),
    {
        let last_modified: Option<String> = last_modified_header(self.last_modified_time);
        match self.kind {
            ImageServiceResponseKind::CacheHit => HttpResponse {
                status: NOT_MODIFIED,
                content_type: None,
                last_modified,
                body: HttpBody::Empty,
            },
            ImageServiceResponseKind::Image(stream) => HttpResponse {
                status: OK,
                content_type: Some(String::from_str(stream.media_type.mime())),
                last_modified,
                body: HttpBody::Stream(stream),
            },
            ImageServiceResponseKind::Info(info) => HttpResponse {
                status: OK,
                content_type: Some(String::from_str(INFO_MEDIA_TYPE)),
                last_modified,
                body: HttpBody::Document(info.document()),
            },
        }
    }
}

/// A cache hit is answered with status `304` and an empty body.
pub proof fn lemma_cache_hit_response(r: HttpResponse, response: ImageServiceResponse)
    requires
        r.answers(response),
        response.kind == ImageServiceResponseKind::CacheHit,
    ensures
        r.status == 304,
        r.body == HttpBody::Empty,
{
}

/// True if both headers are absent, or both are there with the same text.
pub open spec fn same_header(a: Option<String>, b: Option<String>) -> bool {
    match (a, b) {
        (Some(x), Some(y)) => x@ == y@,
        (None, None) => true,
        _ => false,
    }
}

/// Two responses to the same answer of the service agree in status and
/// headers, and in the body as far as it is made here: a repeated request for
/// an unchanged object gets the same `Last-Modified`, and an image is encoded
/// with the same format and size. The bytes of an image are the codec's.
pub proof fn lemma_repeated_answer(a: HttpResponse, b: HttpResponse, response: ImageServiceResponse)
    requires
        a.answers(response),
        b.answers(response),
    ensures
        a.status == b.status,
        same_header(a.last_modified, b.last_modified),
        same_header(a.content_type, b.content_type),
        response.kind is CacheHit ==> a.body == b.body,
        response.kind is Image ==> a.body == b.body,
        response.kind matches ImageServiceResponseKind::Info(info) ==> (a.body matches HttpBody::Document(
            d,
        ) && d.describes(info)) && (b.body matches HttpBody::Document(e) && e.describes(info)),
{
}

} // verus!
