use laya::decimal::Decimal;
use laya::http_date::{last_modified_header, read_header_time};
use laya::iiif::http::{
    strip_prefix, HttpBody, HttpImageService, HttpResponse, IiifRequestError, Route, route_name,
};
use laya::iiif::parse::{Element, ParseError, Reason};
use laya::image::resolve::ParameterError;
use laya::iiif::service::{
    answer, answer_at_once, dispatch, opened, respond, Dispatch, Served, ImageParameters, ImageServiceError, ImageServiceRequest,
    ImageServiceRequestKind, ImageServiceResponse, ImageServiceResponseKind, ImageStream,
};
use laya::iiif::{Format, Quality, Region, Rotation, Scale, Size};
use laya::image::info::{CodestreamInfo, ImageInfo};
use laya::storage::{StorageError, StorageObject};

const RFC_EXAMPLE: &str = "Sun, 06 Nov 1994 08:49:37 GMT";

fn service(prefix: &str) -> HttpImageService<()> {
    HttpImageService::new_with_prefix((), prefix)
}

fn object(last_modified: Option<u64>) -> StorageObject {
    StorageObject { name: Some("abcd1234".to_string()), last_modified }
}

fn sample_info() -> ImageInfo {
    ImageInfo::from_codestream(&CodestreamInfo {
        width: 1024,
        height: 768,
        tile_width: 1024,
        tile_height: 768,
        dwt_levels: 3,
    })
    .unwrap()
}

fn parameters_of(path: &str) -> ImageParameters {
    match ImageServiceRequest::parse(path).unwrap().kind {
        ImageServiceRequestKind::Image(parameters) => parameters,
        ImageServiceRequestKind::Info => panic!("an image request was expected"),
    }
}

fn text(status: u16, body: &str) -> HttpResponse {
    HttpResponse {
        status,
        content_type: None,
        last_modified: None,
        body: HttpBody::Text(body.to_string()),
    }
}

#[test]
fn http_dates_are_written_and_read_by_the_date_library() {
    assert_eq!(last_modified_header(Some(784111777)), Some(RFC_EXAMPLE.to_string()));
    assert_eq!(last_modified_header(Some(0)), Some("Thu, 01 Jan 1970 00:00:00 GMT".to_string()));
    assert_eq!(last_modified_header(Some(253_402_300_799)), Some("Fri, 31 Dec 9999 23:59:59 GMT".to_string()));
    assert_eq!(last_modified_header(Some(253_402_300_800)), None);
    assert_eq!(last_modified_header(Some(u64::MAX)), None);
    assert_eq!(last_modified_header(None), None);
    assert_eq!(read_header_time(Some(RFC_EXAMPLE)), Some(784111777));
    assert_eq!(read_header_time(Some("Sunday, 06-Nov-94 08:49:37 GMT")), Some(784111777));
    assert_eq!(read_header_time(Some("Sun Nov  6 08:49:37 1994")), Some(784111777));
    assert_eq!(read_header_time(Some("784111777")), None);
    assert_eq!(read_header_time(Some("")), None);
    assert_eq!(read_header_time(None), None);
}

#[test]
fn the_prefix_is_taken_off() {
    assert_eq!(strip_prefix(b"/iiif/abcd/info.json", b"/iiif/"), b"/abcd/info.json");
    assert_eq!(strip_prefix(b"/iiif/abcd/info.json", b"/iiif"), b"/abcd/info.json");
    assert_eq!(strip_prefix(b"/iiif/abcd/info.json", b"/iiif///"), b"/abcd/info.json");
    assert_eq!(strip_prefix(b"/abcd/info.json", b"/"), b"/abcd/info.json");
    assert_eq!(strip_prefix(b"/abcd/info.json", b""), b"/abcd/info.json");
    assert_eq!(strip_prefix(b"/other/abcd/info.json", b"/iiif/"), b"/other/abcd/info.json");
    assert_eq!(strip_prefix(b"/iiif/iiif/x", b"/iiif/"), b"/iiif/x");
    assert_eq!(strip_prefix(b"/iiif", b"/iiif/"), b"");
}

#[test]
fn the_root_is_the_health_probe() {
    assert_eq!(service("/").decode_request("/", None), Route::Health);
    assert_eq!(service("/iiif/").decode_request("/iiif/", None), Route::Health);
    assert_eq!(service("/iiif").decode_request("/iiif/", Some(RFC_EXAMPLE)), Route::Health);
    assert_eq!(
        HttpResponse::health(),
        HttpResponse { status: 200, content_type: None, last_modified: None, body: HttpBody::Text("OK!".to_string()) }
    );
}

#[test]
fn requests_are_routed_to_the_service() {
    assert_eq!(
        service("/").decode_request("/abcd1234/info.json", None),
        Route::Service(ImageServiceRequest::info("abcd1234"))
    );
    assert_eq!(
        service("/iiif/").decode_request("/iiif/abcd1234/info.json", Some(RFC_EXAMPLE)),
        Route::Service(ImageServiceRequest::info("abcd1234").with_last_access_time(Some(784111777)))
    );
    assert_eq!(
        service("/").decode_request("/abcd1234/info.json", Some("yesterday")),
        Route::Service(ImageServiceRequest::info("abcd1234"))
    );
    assert_eq!(
        service("/").decode_request("/a%2F%3F%23%5B%5D%40%25z/full/max/0/default.jpg", None),
        Route::Service(ImageServiceRequest::image(
            "a/?#[]@%z",
            Region::Full,
            Size::new(Scale::Max),
            Rotation::new(Decimal::whole(0)),
            Quality::Default,
            Format::Jpg,
        ))
    );
}

#[test]
fn prefix_and_inner_service_are_kept() {
    let service = HttpImageService::new_with_prefix(17u8, "/iiif/");
    assert_eq!(service.prefix(), "/iiif/");
    assert_eq!(*service.inner(), 17);
}

#[test]
fn a_rotation_out_of_range_is_a_bad_request_that_names_the_rotation() {
    let route = service("/").decode_request("/abcd1234/full/max/720/default.jpg", None);
    let error = IiifRequestError::ParseError(ParseError {
        element: Element::Rotation,
        reason: Reason::OutOfRange,
    });
    assert_eq!(route, Route::Rejected(error.clone()));
    let response = HttpResponse::rejected(&error);
    assert_eq!(response, text(400, "Request path rotation is invalid: a number is out of range."));
}

#[test]
fn request_errors_say_what_is_wrong() {
    let of = |element, reason| IiifRequestError::from(ParseError { element, reason });
    assert_eq!(of(Element::Size, Reason::Missing), IiifRequestError::UriMissingElement("size"));
    assert_eq!(of(Element::Identifier, Reason::NotUtf8), IiifRequestError::UriNotUtf8("identifier"));
    assert_eq!(
        of(Element::Region, Reason::Malformed),
        IiifRequestError::ParseError(ParseError { element: Element::Region, reason: Reason::Malformed })
    );
    assert_eq!(of(Element::Size, Reason::Missing).message(), "Request path missing size.");
    assert_eq!(of(Element::Identifier, Reason::NotUtf8).message(), "Request path identifier was not in UTF-8.");
    assert_eq!(
        of(Element::Identifier, Reason::Encoding).message(),
        "Request path identifier is invalid: a '%' is not followed by two hexadecimal digits."
    );
    assert_eq!(of(Element::Region, Reason::Malformed).message(), "Request path region is invalid: it does not follow the grammar.");
    assert_eq!(of(Element::Size, Reason::Zero).message(), "Request path size is invalid: a width or height is zero.");
    assert_eq!(of(Element::Quality, Reason::Unknown).message(), "Request path quality is invalid: the word is not known.");
    assert_eq!(of(Element::Format, Reason::Unknown).message(), "Request path format is invalid: the word is not known.");
    assert_eq!(of(Element::Path, Reason::Malformed).message(), "Request path path is invalid: it does not follow the grammar.");
    assert_eq!(
        ParseError { element: Element::Rotation, reason: Reason::Missing }.message(),
        "Request path rotation is invalid: it is missing."
    );
    assert_eq!(
        ParseError { element: Element::Identifier, reason: Reason::NotUtf8 }.message(),
        "Request path identifier is invalid: it is not UTF-8."
    );
}

#[test]
fn a_missing_image_is_not_found() {
    let error = ImageServiceError::Storage(StorageError::NotFound);
    assert_eq!(HttpResponse::failed(&error), text(404, "Image file not found"));
    assert_eq!(error.message(), "storage: data could not be found");
}

#[test]
fn parameters_that_cannot_be_met_are_a_bad_request() {
    let failures = [
        (ParameterError::EmptyRegion, "The region holds no pixel."),
        (ParameterError::RegionOutOfBounds, "The region reaches beyond the image."),
        (ParameterError::ZeroDimension, "The size has a width or height of zero."),
        (ParameterError::UpscalingDisabled, "The size asks for upscaling, which is disabled."),
        (ParameterError::TooLarge, "The size is beyond the limits of the image."),
        (ParameterError::UnsupportedRotation, "The rotation is not supported."),
        (ParameterError::UnsupportedQuality, "The quality is not supported."),
        (ParameterError::UnsupportedFormat, "The format is not supported."),
    ];
    for (failure, message) in failures {
        assert_eq!(failure.message(), message);
        assert_eq!(HttpResponse::failed(&ImageServiceError::Parameters(failure)), text(400, message));
    }
    assert_eq!(
        ImageServiceError::Parameters(ParameterError::TooLarge).message(),
        "parameters: The size is beyond the limits of the image."
    );
}

#[test]
fn a_failure_of_the_storage_is_the_failure_of_the_request() {
    let request = ImageServiceRequest::info("missing");
    assert_eq!(
        opened(&request, Err(StorageError::NotFound)),
        Err(ImageServiceError::Storage(StorageError::NotFound))
    );
    assert_eq!(opened(&request, Ok(object(Some(5)))), Ok((Dispatch::Info, object(Some(5)))));
    let seen = request.with_last_access_time(Some(5));
    assert_eq!(opened(&seen, Ok(object(Some(5)))), Ok((Dispatch::CacheHit, object(Some(5)))));
}

#[test]
fn other_failures_are_internal_errors() {
    for error in [StorageError::AccessDenied, StorageError::Other("disk on fire".to_string())] {
        assert_eq!(
            HttpResponse::failed(&ImageServiceError::Storage(error)),
            text(500, "An internal error occurred")
        );
    }
}

#[test]
fn a_cache_hit_is_not_modified_and_empty() {
    let response = ImageServiceResponse {
        kind: ImageServiceResponseKind::CacheHit,
        last_modified_time: Some(784111777),
    };
    assert_eq!(
        response.into_http(),
        HttpResponse {
            status: 304,
            content_type: None,
            last_modified: Some(RFC_EXAMPLE.to_string()),
            body: HttpBody::Empty,
        }
    );
}

#[test]
fn an_image_is_a_stream_of_its_media_type() {
    let stream = ImageStream { media_type: Format::Jpg, width: 1024, height: 768 };
    let response = ImageServiceResponse {
        kind: ImageServiceResponseKind::Image(stream),
        last_modified_time: None,
    };
    assert_eq!(
        response.into_http(),
        HttpResponse {
            status: 200,
            content_type: Some("image/jpeg".to_string()),
            last_modified: None,
            body: HttpBody::Stream(stream),
        }
    );
}

#[test]
fn a_description_is_a_json_ld_document() {
    let info = sample_info();
    let response = ImageServiceResponse {
        kind: ImageServiceResponseKind::Info(info.clone()),
        last_modified_time: Some(0),
    };
    assert_eq!(
        response.into_http(),
        HttpResponse {
            status: 200,
            content_type: Some("application/ld+json".to_string()),
            last_modified: Some("Thu, 01 Jan 1970 00:00:00 GMT".to_string()),
            body: HttpBody::Document(info.document()),
        }
    );
}

#[test]
fn requests_are_dispatched_by_their_kind() {
    let parameters = ImageParameters {
        region: Region::Full,
        size: Size::new(Scale::Max),
        rotation: Rotation::new(Decimal::whole(0)),
        quality: Quality::Default,
        format: Format::Jpg,
    };
    let info = ImageServiceRequest::info("abcd1234");
    let image = ImageServiceRequest::image(
        "abcd1234",
        parameters.region,
        parameters.size,
        parameters.rotation,
        parameters.quality,
        parameters.format,
    );
    assert_eq!(dispatch(&info, &object(Some(100))), Dispatch::Info);
    assert_eq!(dispatch(&image, &object(Some(100))), Dispatch::Image(parameters));
    assert_eq!(dispatch(&image, &object(None)), Dispatch::Image(parameters));
    assert_eq!(route_name(&info.kind), "/<prefix>/<identifier>/info.json");
    assert_eq!(
        route_name(&ImageServiceRequestKind::Image(parameters)),
        "/<prefix>/<identifier>/<region>/<size>/<rotation>/<quality>.<format>"
    );
}

#[test]
fn a_copy_that_is_as_new_as_the_object_is_a_cache_hit() {
    let seen = |t| ImageServiceRequest::info("abcd1234").with_last_access_time(t);
    assert_eq!(dispatch(&seen(Some(100)), &object(Some(100))), Dispatch::CacheHit);
    assert_eq!(dispatch(&seen(Some(101)), &object(Some(100))), Dispatch::CacheHit);
    assert_eq!(dispatch(&seen(Some(99)), &object(Some(100))), Dispatch::Info);
    assert_eq!(dispatch(&seen(Some(100)), &object(None)), Dispatch::Info);
    assert_eq!(dispatch(&seen(None), &object(Some(100))), Dispatch::Info);
}

#[test]
fn a_cache_hit_is_answered_without_the_image() {
    assert_eq!(answer_at_once(&Dispatch::CacheHit), Some(ImageServiceResponseKind::CacheHit));
    assert_eq!(answer_at_once(&Dispatch::Info), None);
    let parameters = parameters_of("/abcd1234/full/max/0/default.jpg");
    assert_eq!(answer_at_once(&Dispatch::Image(parameters)), None);
}

#[test]
fn the_kind_of_the_answer_follows_the_dispatch() {
    let info = sample_info();
    assert_eq!(
        answer(Dispatch::CacheHit, info.clone(), true),
        Ok(Served { kind: ImageServiceResponseKind::CacheHit, plan: None })
    );
    assert_eq!(
        answer(Dispatch::Info, info.clone(), true),
        Ok(Served { kind: ImageServiceResponseKind::Info(info.clone()), plan: None })
    );

    let parameters = parameters_of("/abcd1234/0,0,256,256/128,/0/default.jpg");
    let served = answer(Dispatch::Image(parameters), info.clone(), true).unwrap();
    let stream = ImageStream { media_type: Format::Jpg, width: 128, height: 128 };
    assert_eq!(served.kind, ImageServiceResponseKind::Image(stream));
    let plan = served.plan.unwrap();
    assert_eq!(plan.stream, stream);
    assert_eq!((plan.width, plan.height), (128, 128));

    let png = parameters_of("/abcd1234/full/max/0/default.png");
    let failure = answer(Dispatch::Image(png), info.clone(), true).unwrap_err();
    assert_eq!(failure, ImageServiceError::Parameters(ParameterError::UnsupportedFormat));
    assert_eq!(HttpResponse::failed(&failure), text(400, "The format is not supported."));

    let turned = parameters_of("/abcd1234/full/max/90/default.jpg");
    assert_eq!(
        answer(Dispatch::Image(turned), info.clone(), true),
        Err(ImageServiceError::Parameters(ParameterError::UnsupportedRotation))
    );
    let upscaled = parameters_of("/abcd1234/full/^max/0/default.jpg");
    assert_eq!(
        answer(Dispatch::Image(upscaled), info, false),
        Err(ImageServiceError::Parameters(ParameterError::UpscalingDisabled))
    );
}

#[test]
fn every_answer_carries_the_time_of_the_object() {
    let response = respond(ImageServiceResponseKind::CacheHit, &object(Some(42)));
    assert_eq!(response.kind, ImageServiceResponseKind::CacheHit);
    assert_eq!(response.last_modified_time, Some(42));
    assert_eq!(respond(ImageServiceResponseKind::CacheHit, &object(None)).last_modified_time, None);
}

#[test]
fn repeating_a_request_with_the_date_of_the_first_answer_is_not_modified() {
    let stored = object(Some(1475419451));
    let path = "/abcd1234/full/max/0/default.jpg";
    let first = match service("/").decode_request(path, None) {
        Route::Service(request) => request,
        other => panic!("unexpected route {:?}", other),
    };
    let parameters = match dispatch(&first, &stored) {
        Dispatch::Image(parameters) => parameters,
        other => panic!("unexpected dispatch {:?}", other),
    };
    assert_eq!(parameters.format, Format::Jpg);
    let stream = ImageStream { media_type: Format::Jpg, width: 1024, height: 768 };
    let answer = respond(ImageServiceResponseKind::Image(stream), &stored).into_http();
    assert_eq!(answer.status, 200);
    let date = answer.last_modified.unwrap();
    assert_eq!(date, "Sun, 02 Oct 2016 14:44:11 GMT");

    let second = match service("/").decode_request(path, Some(&date)) {
        Route::Service(request) => request,
        other => panic!("unexpected route {:?}", other),
    };
    assert_eq!(dispatch(&second, &stored), Dispatch::CacheHit);
    let answer = respond(ImageServiceResponseKind::CacheHit, &stored).into_http();
    assert_eq!(answer.status, 304);
    assert_eq!(answer.body, HttpBody::Empty);
    assert_eq!(answer.last_modified, Some(date));
}
