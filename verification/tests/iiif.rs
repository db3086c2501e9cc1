use laya::decimal::Decimal;
use laya::iiif::parse::{Element, ParseError, Reason};
use laya::iiif::service::{ImageServiceRequest, ImageServiceRequestKind};
use laya::iiif::{Format, NonZeroDimension, Quality, Region, Rotation, Scale, Size};

fn parse(path: &str) -> Result<ImageServiceRequest, ParseError> {
    path.parse()
}

fn error(element: Element, reason: Reason) -> Result<ImageServiceRequest, ParseError> {
    Err(ParseError { element, reason })
}

fn parameters(path: &str) -> (Region, Size, Rotation, Quality, Format) {
    match parse(path).unwrap().kind {
        ImageServiceRequestKind::Image(p) => (p.region, p.size, p.rotation, p.quality, p.format),
        ImageServiceRequestKind::Info => panic!("an image request was expected"),
    }
}

fn decimal(text: &str) -> Decimal {
    Decimal::read(text.as_bytes()).unwrap()
}

#[test]
fn decode_basic_info_request() {
    let request = "/abcd1234/info.json".parse();

    assert_eq!(request, Ok(ImageServiceRequest::info("abcd1234")));
}

#[test]
fn decode_basic_image_request() {
    let request = "/abcd1234/full/max/0/default.jpg".parse();

    assert_eq!(
        request,
        Ok(ImageServiceRequest::image(
            "abcd1234",
            Region::Full,
            Size::new(Scale::Max),
            Rotation::new(Decimal::whole(0)),
            Quality::Default,
            Format::Jpg,
        ))
    );
}

#[test]
fn decode_encoded_image_request() {
    // Image API 3.0, s 9: to-encode = "/" / "?" / "#" / "[" / "]" / "@" / "%"
    let request = "/a%2F%3F%23%5B%5D%40%25z/full/max/0/default.jpg".parse();

    assert_eq!(
        request,
        Ok(ImageServiceRequest::image(
            "a/?#[]@%z",
            Region::Full,
            Size::new(Scale::Max),
            Rotation::new(Decimal::whole(0)),
            Quality::Default,
            Format::Jpg,
        ))
    );
}

#[test]
fn parse_method_agrees_with_from_str() {
    assert_eq!(
        ImageServiceRequest::parse("/abcd1234/info.json"),
        Ok(ImageServiceRequest::info("abcd1234"))
    );
}

#[test]
fn lower_case_escapes_and_plain_bytes_are_decoded() {
    assert_eq!(parse("/a%2fb%41/info.json"), Ok(ImageServiceRequest::info("a/bA")));
    assert_eq!(parse("/caf%C3%A9/info.json"), Ok(ImageServiceRequest::info("café")));
}

#[test]
fn regions_are_read() {
    assert_eq!(parameters("/i/square/max/0/default.jpg").0, Region::Square);
    assert_eq!(
        parameters("/i/0,10,256,128/max/0/default.jpg").0,
        Region::Absolute { x: 0, y: 10, width: 256, height: 128 }
    );
    assert_eq!(
        parameters("/i/pct:0,12.5,100,50/max/0/default.jpg").0,
        Region::Percentage {
            x: decimal("0"),
            y: decimal("12.5"),
            width: decimal("100"),
            height: decimal("50"),
        }
    );
}

#[test]
fn sizes_are_read() {
    let n = |v: u32| NonZeroDimension::new(v);
    assert_eq!(parameters("/i/full/^max/0/default.jpg").1, Size::upscaled(Scale::Max));
    assert_eq!(parameters("/i/full/128,/0/default.jpg").1, Size::new(Scale::fixed_width(n(128))));
    assert_eq!(parameters("/i/full/,64/0/default.jpg").1, Size::new(Scale::fixed_height(n(64))));
    assert_eq!(parameters("/i/full/128,64/0/default.jpg").1, Size::new(Scale::fixed(n(128), n(64))));
    assert_eq!(
        parameters("/i/full/!128,64/0/default.jpg").1,
        Size::new(Scale::AspectPreserving { width: n(128).unwrap(), height: n(64).unwrap() })
    );
    assert_eq!(
        parameters("/i/full/^!128,64/0/default.jpg").1,
        Size::upscaled(Scale::AspectPreserving { width: n(128).unwrap(), height: n(64).unwrap() })
    );
    assert_eq!(
        parameters("/i/full/pct:50/0/default.jpg").1,
        Size::new(Scale::Percentage(decimal("50")))
    );
    assert_eq!(
        parameters("/i/full/^pct:150/0/default.jpg").1,
        Size::upscaled(Scale::Percentage(decimal("150")))
    );
}

#[test]
fn size_accessors_give_the_parts() {
    let size = Size::upscaled(Scale::Max);
    assert!(size.upscale());
    assert_eq!(size.scale(), Scale::Max);
    assert!(!Size::new(Scale::Max).upscale());
    assert_eq!(NonZeroDimension::new(7).unwrap().get(), 7);
    assert_eq!(NonZeroDimension::new(0), None);
}

#[test]
fn rotations_are_read() {
    assert_eq!(parameters("/i/full/max/90/default.jpg").2, Rotation::new(Decimal::whole(90)));
    assert_eq!(parameters("/i/full/max/!22.5/default.jpg").2, Rotation::mirrored(decimal("22.5")));
    assert_eq!(parameters("/i/full/max/359.999999999/default.jpg").2.degrees().billionths(), 359_999_999_999);
}

#[test]
fn rotation_zero_and_mirrored_zero_differ_only_by_the_mirror() {
    let plain = parameters("/i/full/max/0/default.jpg").2;
    let mirrored = parameters("/i/full/max/!0/default.jpg").2;
    assert_eq!(plain.degrees(), mirrored.degrees());
    assert!(!plain.mirror());
    assert!(mirrored.mirror());
    assert_ne!(plain, mirrored);
}

#[test]
fn qualities_and_formats_are_read() {
    assert_eq!(parameters("/i/full/max/0/color.tif").3, Quality::Color);
    assert_eq!(parameters("/i/full/max/0/gray.png").3, Quality::Gray);
    assert_eq!(parameters("/i/full/max/0/bitonal.gif").3, Quality::Bitonal);
    assert_eq!(parameters("/i/full/max/0/default.jp2").3, Quality::Default);
    assert_eq!(parameters("/i/full/max/0/color.tif").4, Format::Tif);
    assert_eq!(parameters("/i/full/max/0/gray.png").4, Format::Png);
    assert_eq!(parameters("/i/full/max/0/bitonal.gif").4, Format::Gif);
    assert_eq!(parameters("/i/full/max/0/default.jp2").4, Format::Jp2);
    assert_eq!(parameters("/i/full/max/0/default.pdf").4, Format::Pdf);
    assert_eq!(parameters("/i/full/max/0/default.webp").4, Format::Webp);
}

#[test]
fn media_types_of_the_formats() {
    assert_eq!(Format::Jpg.mime(), "image/jpeg");
    assert_eq!(Format::Tif.mime(), "image/tiff");
    assert_eq!(Format::Png.mime(), "image/png");
    assert_eq!(Format::Gif.mime(), "image/gif");
    assert_eq!(Format::Jp2.mime(), "image/jp2");
    assert_eq!(Format::Pdf.mime(), "application/pdf");
    assert_eq!(Format::Webp.mime(), "image/webp");
}

#[test]
fn missing_elements_are_reported() {
    assert_eq!(parse(""), error(Element::Path, Reason::Malformed));
    assert_eq!(parse("abcd/info.json"), error(Element::Path, Reason::Malformed));
    assert_eq!(parse("/"), error(Element::Identifier, Reason::Missing));
    assert_eq!(parse("//info.json"), error(Element::Identifier, Reason::Missing));
    assert_eq!(parse("/abcd"), error(Element::Region, Reason::Missing));
    assert_eq!(parse("/abcd/full"), error(Element::Size, Reason::Missing));
    assert_eq!(parse("/abcd/full/max"), error(Element::Rotation, Reason::Missing));
    assert_eq!(parse("/abcd/full/max/0"), error(Element::Quality, Reason::Missing));
    assert_eq!(parse("/abcd/full/max/0/default"), error(Element::Format, Reason::Missing));
}

#[test]
fn bad_identifiers_are_reported() {
    assert_eq!(parse("/a%2/info.json"), error(Element::Identifier, Reason::Encoding));
    assert_eq!(parse("/a%zz/info.json"), error(Element::Identifier, Reason::Encoding));
    assert_eq!(parse("/a%/info.json"), error(Element::Identifier, Reason::Encoding));
    assert_eq!(parse("/a%FF/info.json"), error(Element::Identifier, Reason::NotUtf8));
}

#[test]
fn bad_regions_are_reported() {
    assert_eq!(parse("/i/fuller/max/0/default.jpg"), error(Element::Region, Reason::Malformed));
    assert_eq!(parse("/i/1,2,3/max/0/default.jpg"), error(Element::Region, Reason::Malformed));
    assert_eq!(parse("/i/1,2,3,4,5/max/0/default.jpg"), error(Element::Region, Reason::Malformed));
    assert_eq!(parse("/i/1,2,,4/max/0/default.jpg"), error(Element::Region, Reason::Malformed));
    assert_eq!(parse("/i/-1,2,3,4/max/0/default.jpg"), error(Element::Region, Reason::Malformed));
    assert_eq!(parse("/i/1,2,3,4294967296/max/0/default.jpg"), error(Element::Region, Reason::OutOfRange));
    assert_eq!(parse("/i/pct:0,0,100.5,100/max/0/default.jpg"), error(Element::Region, Reason::OutOfRange));
    assert_eq!(parse("/i/pct:0,0,1.,100/max/0/default.jpg"), error(Element::Region, Reason::Malformed));
    assert_eq!(parse("/i/pct:0,0,.5,100/max/0/default.jpg"), error(Element::Region, Reason::Malformed));
    assert_eq!(parse("/i/pct:0,0,1.0000000001,100/max/0/default.jpg"), error(Element::Region, Reason::Malformed));
}

#[test]
fn bad_sizes_are_reported() {
    assert_eq!(parse("/i/full/big/0/default.jpg"), error(Element::Size, Reason::Malformed));
    assert_eq!(parse("/i/full/,/0/default.jpg"), error(Element::Size, Reason::Malformed));
    assert_eq!(parse("/i/full/0,/0/default.jpg"), error(Element::Size, Reason::Zero));
    assert_eq!(parse("/i/full/,0/0/default.jpg"), error(Element::Size, Reason::Zero));
    assert_eq!(parse("/i/full/10,0/0/default.jpg"), error(Element::Size, Reason::Zero));
    assert_eq!(parse("/i/full/!0,10/0/default.jpg"), error(Element::Size, Reason::Zero));
    assert_eq!(parse("/i/full/!10/0/default.jpg"), error(Element::Size, Reason::Malformed));
    assert_eq!(parse("/i/full/!10,/0/default.jpg"), error(Element::Size, Reason::Malformed));
    assert_eq!(parse("/i/full/pct:101/0/default.jpg"), error(Element::Size, Reason::OutOfRange));
    assert_eq!(parse("/i/full/pct:x/0/default.jpg"), error(Element::Size, Reason::Malformed));
    assert_eq!(parse("/i/full/99999999999,/0/default.jpg"), error(Element::Size, Reason::OutOfRange));
}

#[test]
fn bad_rotations_are_reported() {
    assert_eq!(parse("/abcd1234/full/max/720/default.jpg"), error(Element::Rotation, Reason::OutOfRange));
    assert_eq!(parse("/abcd1234/full/max/1000/default.jpg"), error(Element::Rotation, Reason::OutOfRange));
    assert_eq!(parse("/abcd1234/full/max/360/default.jpg"), error(Element::Rotation, Reason::OutOfRange));
    assert_eq!(parse("/abcd1234/full/max/-90/default.jpg"), error(Element::Rotation, Reason::Malformed));
    assert_eq!(parse("/abcd1234/full/max//default.jpg"), error(Element::Rotation, Reason::Malformed));
    assert_eq!(parse("/abcd1234/full/max/!/default.jpg"), error(Element::Rotation, Reason::Malformed));
}

#[test]
fn unknown_words_are_reported() {
    assert_eq!(parse("/i/full/max/0/grey.jpg"), error(Element::Quality, Reason::Unknown));
    assert_eq!(parse("/i/full/max/0/default.jpeg"), error(Element::Format, Reason::Unknown));
    assert_eq!(parse("/i/full/max/0/default.jpg/more"), error(Element::Format, Reason::Unknown));
    assert_eq!(parse("/i/info.json/more"), error(Element::Rotation, Reason::Missing));
}

#[test]
fn the_first_fault_from_the_left_is_reported() {
    assert_eq!(parse("/i/nowhere/0,/720/grey.jpeg"), error(Element::Region, Reason::Malformed));
    assert_eq!(parse("/i/full/0,/720/grey.jpeg"), error(Element::Size, Reason::Zero));
    assert_eq!(parse("/i/full/max/720/grey.jpeg"), error(Element::Rotation, Reason::OutOfRange));
    assert_eq!(parse("/i%/nowhere"), error(Element::Identifier, Reason::Encoding));
}

#[test]
fn canonical_paths_are_read_back() {
    let paths = [
        "/abcd1234/info.json",
        "/abcd1234/full/max/0/default.jpg",
        "/a%2F%3F%23%5B%5D%40%25z/full/max/0/default.jpg",
        "/i/square/^max/!90/color.png",
        "/i/0,0,256,256/128,/0/default.jpg",
        "/i/pct:0,12.5,100,50.25/,64/359.5/gray.tif",
        "/i/full/!128,64/0/bitonal.gif",
        "/i/full/^pct:150.125/0.000000001/default.webp",
        "/caf%C3%A9%20au%20lait/full/12,34/0/default.pdf",
    ];
    for path in paths {
        let request = parse(path).unwrap();
        assert_eq!(request.canonical_path(), path.as_bytes().to_vec(), "path {}", path);
    }
}

#[test]
fn requests_are_read_back_from_their_canonical_paths() {
    let n = |v: u32| NonZeroDimension::new(v);
    let requests = [
        ImageServiceRequest::info("a/?#[]@%z"),
        ImageServiceRequest::info("white space\tand\u{7f}more"),
        ImageServiceRequest::image(
            "日本語",
            Region::Percentage {
                x: decimal("0.5"),
                y: decimal("100"),
                width: decimal("33.333333333"),
                height: decimal("0"),
            },
            Size::upscaled(Scale::fixed(n(4294967295), n(1))),
            Rotation::mirrored(decimal("180.25")),
            Quality::Bitonal,
            Format::Jp2,
        ),
    ];
    for request in requests {
        let path = String::from_utf8(request.canonical_path()).unwrap();
        assert_eq!(parse(&path), Ok(request));
    }
}

#[test]
fn a_path_that_is_not_canonical_is_read_but_not_written_back() {
    let request = parse("/%41/full/max/00.50/default.jpg").unwrap();
    assert_eq!(request.canonical_path(), b"/A/full/max/0.5/default.jpg".to_vec());
}

#[test]
fn paths_with_needless_zeros_or_escapes_come_back_in_canonical_form() {
    let pairs = [
        ("/i/000,01,2,3/max/0/default.jpg", "/i/0,1,2,3/max/0/default.jpg"),
        ("/i/pct:1.50,0,10,10/max/0/default.jpg", "/i/pct:1.5,0,10,10/max/0/default.jpg"),
        ("/i/full/010,/0/default.jpg", "/i/full/10,/0/default.jpg"),
        ("/i/full/^pct:50.0/0/default.jpg", "/i/full/^pct:50/0/default.jpg"),
        ("/i/full/max/!090.0/default.jpg", "/i/full/max/!90/default.jpg"),
        ("/a%2fb/info.json", "/a%2Fb/info.json"),
        ("/a%62c/info.json", "/abc/info.json"),
        ("/a b/info.json", "/a%20b/info.json"),
        ("/a[b]/info.json", "/a%5Bb%5D/info.json"),
    ];
    for (path, canonical) in pairs {
        let request = parse(path).unwrap();
        assert_eq!(request.canonical_path(), canonical.as_bytes().to_vec(), "path {}", path);
        assert_eq!(parse(canonical), Ok(request));
    }
}

#[test]
fn reserved_characters_are_written_escaped() {
    let path = ImageServiceRequest::info("a/?#[]@%z").canonical_path();
    assert_eq!(path, b"/a%2F%3F%23%5B%5D%40%25z/info.json".to_vec());
}

#[test]
fn last_access_time_is_set() {
    let request = ImageServiceRequest::info("abcd").with_last_access_time(Some(784111777));
    assert_eq!(request.last_access_time, Some(784111777));
    assert_eq!(request.identifier, "abcd");
    assert_eq!(request.kind, ImageServiceRequestKind::Info);
}
