//! Requests to the image service, and what the service decides.

use vstd::prelude::*;
use vstd::utf8::encode_utf8;
use vstd::string::StringExecFns;
use crate::http_date::Timestamp;
use crate::iiif::parse::{read_request, request_read, ParseError};
use crate::iiif::{Dimension, Format, Quality, Region, Rotation, Size};
use crate::image::info::ImageInfo;
use crate::image::resolve::ParameterError;
use crate::image::transcoding::{planned, TranscodingPipeline, TranscodingPlan};
use crate::storage::{StorageError, StorageObject};

verus! {

/// The parameters of an image request.
#[derive(Clone, Copy, Debug, PartialEq, Eq, Structural)]
pub struct ImageParameters {
    pub region: Region,
    pub size: Size,
    pub rotation: Rotation,
    pub quality: Quality,
    pub format: Format,
}

impl ImageParameters {
    /// True if each parameter is in the range that the request grammar allows.
    pub open spec fn wf(self) -> bool {
        &&& self.region.wf()
        &&& self.size.wf()
        &&& self.rotation.wf()
    }
}

/// What a request asks for: the image's description, or pixels.
#[derive(Clone, Copy, Debug, PartialEq, Eq, Structural)]
pub enum ImageServiceRequestKind {
    Info,
    Image(ImageParameters),
}

/// A request to the image service.
#[derive(Clone, Debug, PartialEq, Eq)]
pub struct ImageServiceRequest {
    /// The identifier of the image, percent-decoded.
    pub identifier: String,
    pub kind: ImageServiceRequestKind,
    /// The time of the `If-Modified-Since` header, if the request has one.
    pub last_access_time: Option<Timestamp>,
}

/// A request as a mathematical value.
pub struct RequestView {
    pub identifier: Seq<char>,
    pub kind: ImageServiceRequestKind,
    pub last_access_time: Option<Timestamp>,
}

impl RequestView {
    /// True of the requests that a path can denote: the identifier is not
    /// empty and the parameters are in range.
    pub open spec fn wf(self) -> bool {
        &&& self.identifier.len() > 0
        &&& (self.kind matches ImageServiceRequestKind::Image(p) ==> p.wf())
    }
}

impl View for ImageServiceRequest {
    type V = RequestView;

    open spec fn view(&self) -> RequestView {
        RequestView {
            identifier: self.identifier@,
            kind: self.kind,
            last_access_time: self.last_access_time,
        }
    }
}

/// True if `r` is the outcome `v`: the same error, or a request with the value
/// that `v` holds.
pub open spec fn is_outcome(
    r: Result<ImageServiceRequest, ParseError>,
    v: Result<RequestView, ParseError>,
) -> bool {
    match (r, v) {
        (Ok(q), Ok(w)) => q@ == w,
        (Err(e), Err(f)) => e == f,
        _ => false,
    }
}

impl ImageServiceRequest {
    /// A request for the description of the image `identifier`.
    pub fn info(identifier: &str) -> (r: ImageServiceRequest)
        ensures
            r@ == (RequestView {
                identifier: identifier@,
                kind: ImageServiceRequestKind::Info,
                last_access_time: None,
            }),
    {
        ImageServiceRequest {
            identifier: identifier.to_owned(),
            kind: ImageServiceRequestKind::Info,
            last_access_time: None,
        }
    }

    /// A request for pixels of the image `identifier`.
    pub fn image(
        identifier: &str,
        region: Region,
        size: Size,
        rotation: Rotation,
        quality: Quality,
        format: Format,
    ) -> (r: ImageServiceRequest)
        ensures
            r@ == (RequestView {
                identifier: identifier@,
                kind: ImageServiceRequestKind::Image(
                    ImageParameters { region, size, rotation, quality, format },
                ),
                last_access_time: None,
            }),
    {
        ImageServiceRequest {
            identifier: identifier.to_owned(),
            last_access_time: None,
            kind: ImageServiceRequestKind::Image(
                ImageParameters { region, size, rotation, quality, format },
            ),
        }
    }

    /// The same request, with `last_access_time` as the time of its
    /// `If-Modified-Since` header.
    pub fn with_last_access_time(self, last_access_time: Option<Timestamp>) -> (r:
        ImageServiceRequest)
        ensures
            r@ == (RequestView { last_access_time, ..self@ }),
    {
        ImageServiceRequest {
            identifier: self.identifier,
            kind: self.kind,
            last_access_time,
        }
    }

    /// Reads a request from the path of a URL, the prefix taken off.
    pub fn parse(path: &str) -> (r: Result<ImageServiceRequest, ParseError>)
        ensures
            is_outcome(r, request_read(encode_utf8(path@))),
            r is Ok ==> r->Ok_0@.wf(),
    {
        read_request(path.as_bytes())
    }
}

impl std::str::FromStr for ImageServiceRequest {
    type Err = ParseError;

    fn from_str(path: &str) -> (r: Result<ImageServiceRequest, ParseError>)
        ensures
            is_outcome(r, request_read(encode_utf8(path@))),
    {
        ImageServiceRequest::parse(path)
    }
}

/// The description of a stream of encoded image data: its format, and the
/// size in pixels of the image it holds. The bytes flow outside this library.
#[derive(Clone, Copy, Debug, PartialEq, Eq, Structural)]
pub struct ImageStream {
    pub media_type: Format,
    pub width: Dimension,
    pub height: Dimension,
}

/// What the service answers.
#[derive(Clone, Debug, PartialEq, Eq)]
pub enum ImageServiceResponseKind {
    /// The description of the image.
    Info(ImageInfo),
    /// The encoded image.
    Image(ImageStream),
    /// The client's copy is as new as the stored object.
    CacheHit,
}

/// An answer of the service, with the time at which the stored object was
/// last written.
#[derive(Clone, Debug, PartialEq, Eq)]
pub struct ImageServiceResponse {
    pub kind: ImageServiceResponseKind,
    pub last_modified_time: Option<Timestamp>,
}

/// Why the service has no answer.
#[derive(Clone, Debug, PartialEq, Eq)]
pub enum ImageServiceError {
    /// The stored object could not be opened.
    Storage(StorageError),
    /// The image cannot meet the parameters of the request.
    Parameters(ParameterError),
}

impl ImageServiceError {
    /// What the error says of itself.
    pub open spec fn message_text(self) -> Seq<char> {
        match self {
            ImageServiceError::Storage(e) => "storage: "@ + e.message_text(),
            ImageServiceError::Parameters(e) => "parameters: "@ + e.message_text(),
        }
    }

    /// What the error says of itself.
    pub fn message(&self) -> (text: String)
        ensures
            text@ == self.message_text(),
    {
        match self {
            ImageServiceError::Storage(e) => {
                let inner: String = e.message();
                String::from_str("storage: ").concat(inner.as_str())
            },
            ImageServiceError::Parameters(e) => {
                let inner: String = e.message();
                String::from_str("parameters: ").concat(inner.as_str())
            },
        }
    }
}

/// What the service does with a request once the stored object is open.
#[derive(Clone, Copy, Debug, PartialEq, Eq, Structural)]
pub enum Dispatch {
    /// Answer that nothing has changed, without reading the image.
    CacheHit,
    /// Read the image and describe it.
    Info,
    /// Read the image and transcode it.
    Image(ImageParameters),
}

/// True if a client that last saw the object at `last_access_time` has seen
/// it as it is: both times are known, and the object was not written since.
pub open spec fn is_fresh(last_access_time: Option<Timestamp>, last_modified: Option<Timestamp>) -> bool {
    last_access_time matches Some(seen) && last_modified matches Some(written) && seen >= written
}

/// What the service does with the request `request` for an object last
/// written at `last_modified`.
pub open spec fn dispatched(request: RequestView, last_modified: Option<Timestamp>) -> Dispatch {
    if is_fresh(request.last_access_time, last_modified) {
        Dispatch::CacheHit
    } else {
        match request.kind {
            ImageServiceRequestKind::Info => Dispatch::Info,
            ImageServiceRequestKind::Image(p) => Dispatch::Image(p),
        }
    }
}

/// Decides what to do with a request once the stored object is open.
pub fn dispatch(request: &ImageServiceRequest, object: &StorageObject) -> (d: Dispatch)
    ensures
        d == dispatched(request@, object.last_modified),
{
    let fresh: bool = match (request.last_access_time, object.last_modified) {
        (Some(seen), Some(written)) => seen >= written,
        _ => false,
    };
    if fresh {
        Dispatch::CacheHit
    } else {
        match request.kind {
            ImageServiceRequestKind::Info => Dispatch::Info,
            ImageServiceRequestKind::Image(p) => Dispatch::Image(p),
        }
    }
}

/// What the service does once the storage has answered: a failure of the
/// storage is the failure of the request, and an object that was opened is
/// dispatched.
pub fn opened(request: &ImageServiceRequest, storage: Result<StorageObject, StorageError>) -> (r:
    Result<(Dispatch, StorageObject), ImageServiceError>)
    ensures
        match storage {
            Err(e) => r == Err::<(Dispatch, StorageObject), ImageServiceError>(
                ImageServiceError::Storage(e),
            ),
            Ok(object) => r == Ok::<(Dispatch, StorageObject), ImageServiceError>(
                (dispatched(request@, object.last_modified), object),
            ),
        },
{
    match storage {
        Err(e) => Err(ImageServiceError::Storage(e)),
        Ok(object) => {
            let d: Dispatch = dispatch(request, &object);
            Ok((d, object))
        },
    }
}

/// What the service has for a request: the kind of its answer, and for an
/// image the plan of the transcoding that gives the bytes.
#[derive(Clone, Debug, PartialEq, Eq)]
pub struct Served {
    pub kind: ImageServiceResponseKind,
    pub plan: Option<TranscodingPlan>,
}

/// The answer that needs no image: a cache hit is answered at once, and
/// everything else waits for the image to be read.
pub open spec fn answered_at_once(dispatch: Dispatch) -> Option<ImageServiceResponseKind> {
    match dispatch {
        Dispatch::CacheHit => Some(ImageServiceResponseKind::CacheHit),
        _ => None,
    }
}

/// What the service has for a dispatched request for the image that `info`
/// describes: a cache hit stays one; a request for the description is
/// answered with `info`; a request for pixels is answered with the stream of
/// its plan, or fails with the reason for which the image cannot meet the
/// parameters.
pub open spec fn served(dispatch: Dispatch, info: ImageInfo, upscaling: bool) -> Result<
    Served,
    ImageServiceError,
> {
    match dispatch {
        Dispatch::CacheHit => Ok(Served { kind: ImageServiceResponseKind::CacheHit, plan: None }),
        Dispatch::Info => Ok(Served { kind: ImageServiceResponseKind::Info(info), plan: None }),
        Dispatch::Image(params) => match planned(info, params, upscaling) {
            Ok(plan) => Ok(
                Served { kind: ImageServiceResponseKind::Image(plan.stream), plan: Some(plan) },
            ),
            Err(e) => Err(ImageServiceError::Parameters(e)),
        },
    }
}

/// The answer to a request that needs no image, if it is one.
pub fn answer_at_once(dispatch: &Dispatch) -> (kind: Option<ImageServiceResponseKind>)
    ensures
        kind == answered_at_once(*dispatch),
{
    match dispatch {
        Dispatch::CacheHit => Some(ImageServiceResponseKind::CacheHit),
        _ => None,
    }
}

/// Decides the answer to a dispatched request once the image is read and
/// `info` describes it; `upscaling` says whether the server gives leave to
/// upscale.
pub fn answer(dispatch: Dispatch, info: ImageInfo, upscaling: bool) -> (r: Result<
    Served,
    ImageServiceError,
>)
    ensures
        r == served(dispatch, info, upscaling),
{
    match dispatch {
        Dispatch::CacheHit => Ok(Served { kind: ImageServiceResponseKind::CacheHit, plan: None }),
        Dispatch::Info => Ok(Served { kind: ImageServiceResponseKind::Info(info), plan: None }),
        Dispatch::Image(params) => {
            let pipeline = TranscodingPipeline { info, params };
            match pipeline.run(upscaling) {
                Ok(plan) => Ok(
                    Served { kind: ImageServiceResponseKind::Image(plan.stream), plan: Some(plan) },
                ),
                Err(e) => Err(ImageServiceError::Parameters(e)),
            }
        },
    }
}

/// The answer of kind `kind` about the stored object `object`: every answer
/// carries the time at which the object was last written.
pub fn respond(kind: ImageServiceResponseKind, object: &StorageObject) -> (r: ImageServiceResponse)
    ensures
        r.kind == kind,
        r.last_modified_time == object.last_modified,
{
    ImageServiceResponse { kind, last_modified_time: object.last_modified }
}

/// A request that repeats the time at which the object was last written is
/// answered with a cache hit, whatever it asks for.
pub proof fn lemma_conditional_get(request: RequestView, last_modified: Timestamp)
    requires
        request.last_access_time == Some(last_modified),
    ensures
        dispatched(request, Some(last_modified)) == Dispatch::CacheHit,
{
}

/// Without both times there is no cache hit: the request is served by its kind.
pub proof fn lemma_unconditional_get(request: RequestView, last_modified: Option<Timestamp>)
    requires
        request.last_access_time is None || last_modified is None,
    ensures
        dispatched(request, last_modified) != Dispatch::CacheHit,
{
}

} // verus!
