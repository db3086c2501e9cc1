use laya::image::info::{CodestreamInfo, ImageInfo, PreferredSize, Tile};
use laya::iiif::http::{InfoDocument, SizeDocument, TileDocument};

fn header(dwt_levels: u32) -> CodestreamInfo {
    CodestreamInfo { width: 1024, height: 768, tile_width: 256, tile_height: 128, dwt_levels }
}

#[test]
fn three_levels_give_three_sizes_and_factors() {
    let info = ImageInfo::from_codestream(&header(3)).unwrap();
    assert_eq!(info.width, 1024);
    assert_eq!(info.height, 768);
    assert_eq!(info.max_width, Some(1024));
    assert_eq!(info.max_height, Some(768));
    assert_eq!(info.max_area, None);
    assert_eq!(info.preferred_formats, None);
    assert_eq!(info.rights, None);
    assert_eq!(
        info.sizes,
        Some(vec![
            PreferredSize { width: 1024, height: 768 },
            PreferredSize { width: 512, height: 384 },
            PreferredSize { width: 256, height: 192 },
        ])
    );
    assert_eq!(
        info.tiles,
        Some(vec![Tile { width: 256, height: Some(128), scale_factors: vec![1, 2, 4] }])
    );
}

#[test]
fn levels_at_the_limit() {
    let info = ImageInfo::from_codestream(&header(16)).unwrap();
    let tiles = info.tiles.unwrap();
    assert_eq!(tiles[0].scale_factors.len(), 16);
    assert_eq!(tiles[0].scale_factors[15], 32768);
    assert_eq!(info.sizes.unwrap()[15], PreferredSize { width: 0, height: 0 });
    assert_eq!(ImageInfo::from_codestream(&header(17)), None);
    let none = ImageInfo::from_codestream(&header(0)).unwrap();
    assert_eq!(none.sizes, Some(vec![]));
    assert_eq!(none.tiles.unwrap()[0].scale_factors, Vec::<u16>::new());
}

#[test]
fn chunk_height_follows_full_width_tiles() {
    let mut info = ImageInfo::from_codestream(&header(1)).unwrap();
    // tiles narrower than the image
    assert_eq!(info.chunk_height(), 16);
    info.tiles = Some(vec![Tile { width: 1024, height: Some(128), scale_factors: vec![1] }]);
    assert_eq!(info.chunk_height(), 128);
    info.tiles = Some(vec![Tile { width: 2048, height: Some(8), scale_factors: vec![1] }]);
    assert_eq!(info.chunk_height(), 16);
    info.tiles = Some(vec![Tile { width: 1024, height: None, scale_factors: vec![1] }]);
    assert_eq!(info.chunk_height(), 16);
    info.tiles = Some(vec![]);
    assert_eq!(info.chunk_height(), 16);
    info.tiles = None;
    assert_eq!(info.chunk_height(), 16);
}

#[test]
fn the_document_of_an_image() {
    let mut info = ImageInfo::from_codestream(&header(3)).unwrap();
    info.rights = Some("http://rightsstatements.org/vocab/InC/1.0/".to_string());
    assert_eq!(
        info.document(),
        InfoDocument {
            context: "http://iiif.io/api/image/3/context.json",
            kind: "ImageService3",
            protocol: "http://iiif.io/api/image",
            profile: "level0",
            width: 1024,
            height: 768,
            sizes: Some(vec![
                SizeDocument { kind: "Size", width: 1024, height: 768 },
                SizeDocument { kind: "Size", width: 512, height: 384 },
                SizeDocument { kind: "Size", width: 256, height: 192 },
            ]),
            tiles: Some(vec![TileDocument {
                kind: "Tile",
                width: 256,
                height: Some(128),
                scale_factors: vec![1, 2, 4],
            }]),
            rights: Some("http://rightsstatements.org/vocab/InC/1.0/".to_string()),
        }
    );
}

#[test]
fn members_without_a_value_are_left_out_of_the_document() {
    let info = ImageInfo {
        width: 10,
        height: 20,
        max_width: None,
        max_height: None,
        max_area: None,
        sizes: None,
        tiles: None,
        preferred_formats: None,
        rights: None,
    };
    let document = info.document();
    assert_eq!(document.width, 10);
    assert_eq!(document.height, 20);
    assert_eq!(document.sizes, None);
    assert_eq!(document.tiles, None);
    assert_eq!(document.rights, None);
}
