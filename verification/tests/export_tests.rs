use pdf_export::content::{Element, Op, Page, Pos};
use pdf_export::doc::{export, Env};
use pdf_export::font::FaceData;
use pdf_export::images::ImageData;
use pdf_export::{Error, ResourceKind};

fn test_face() -> FaceData {
    FaceData {
        postscript_name: Some(b"TestFace".to_vec()),
        units_per_em: Some(1000),
        monospaced: false,
        italic: false,
        italic_angle_milli: 0,
        ascender: 800,
        descender: -200,
        cap_height: Some(700),
        weight: 400,
        bbox_x_min: -100,
        bbox_y_min: -250,
        bbox_x_max: 1100,
        bbox_y_max: 950,
        num_glyphs: 2,
        advances: vec![0, 500],
        cmap: vec![(65, Some(1))],
        data: vec![9, 9, 9],
    }
}

fn opaque_image() -> ImageData {
    ImageData { width: 1, height: 2, has_alpha: false, pixels: vec![1, 2, 3, 4, 5, 6] }
}

fn alpha_image() -> ImageData {
    ImageData { width: 1, height: 1, has_alpha: true, pixels: vec![7, 8, 9, 128] }
}

#[test]
fn scenario_one_page_one_text() {
    // One page, 200 x 200 units, one text element at (10, 10), a single
    // glyph, face size 12.
    let pages = vec![Page {
        width: 200,
        height: 200,
        elements: vec![
            (
                Pos { x: 10, y: 10 },
                Element::Text { face: 7, size: 12, glyphs: vec![1] },
            ),
        ],
    }];
    let env = Env { fonts: vec![(7, test_face())], images: vec![] };
    let doc = export(&pages, &env).unwrap();

    // Exactly one page object, one content stream, one font group.
    assert_eq!(doc.pages.len(), 1);
    assert_eq!(doc.contents.len(), 1);
    assert_eq!(doc.fonts.len(), 1);
    assert_eq!(doc.images.len(), 0);

    // Identifier layout: catalog 1, page tree 2, page 3, content 4,
    // font group 5..9.
    assert_eq!(doc.refs.catalog, 1);
    assert_eq!(doc.refs.page_tree, 2);
    assert_eq!(doc.pages[0].id, 3);
    assert_eq!(doc.pages[0].parent, 2);
    assert_eq!(doc.pages[0].width, 200);
    assert_eq!(doc.pages[0].height, 200);
    assert_eq!(doc.pages[0].content_id, 4);
    assert_eq!(doc.contents[0].id, 4);
    assert_eq!(doc.fonts[0].refs.type0_font, 5);
    assert_eq!(doc.font_resources, vec![(0, 5)]);

    // One font selection and one show instruction, with the y-coordinate
    // flipped to 200 - 10 - 12 = 178.
    assert_eq!(
        doc.contents[0].ops,
        vec![
            Op::SelectFont { index: 0, size: 12 },
            Op::MoveText { x: 10, y: 178 },
            Op::ShowGlyphs { bytes: vec![0, 1] },
        ]
    );
}

#[test]
fn scenario_opaque_and_transparent_images() {
    // One page with two images, one opaque and one with alpha.
    let pages = vec![Page {
        width: 100,
        height: 100,
        elements: vec![
            (
                Pos { x: 0, y: 0 },
                Element::Image { res: 1, width: 10, height: 10 },
            ),
            (
                Pos { x: 20, y: 20 },
                Element::Image { res: 2, width: 10, height: 10 },
            ),
        ],
    }];
    let env = Env { fonts: vec![], images: vec![(1, opaque_image()), (2, alpha_image())] };
    let doc = export(&pages, &env).unwrap();

    // Two image objects and one alpha mask.
    assert_eq!(doc.images.len(), 2);
    assert!(doc.images[0].mask.is_none());
    let mask = doc.images[1].mask.as_ref().expect("transparent image must carry a mask");
    let masks: usize = doc.images.iter().filter(|i| i.mask.is_some()).count();
    assert_eq!(masks, 1);

    // Identifiers: catalog 1, tree 2, page 3, content 4, images 5 and 6,
    // mask 7 — and the mask reference is exactly alpha_mask(0).
    assert_eq!(doc.images[0].id, 5);
    assert_eq!(doc.images[1].id, 6);
    assert_eq!(mask.id, doc.refs.alpha_mask(0));
    assert_eq!(mask.id, 7);
    assert_eq!(doc.refs.end, 8);
    assert_eq!(mask.samples, vec![128]);
    assert_eq!(doc.images[1].rgb, vec![7, 8, 9]);
}

#[test]
fn export_is_repeatable() {
    let pages = vec![
        Page {
            width: 300,
            height: 400,
            elements: vec![
                (
                    Pos { x: 10, y: 10 },
                    Element::Text { face: 7, size: 12, glyphs: vec![1, 2] },
                ),
                (
                    Pos { x: 0, y: 50 },
                    Element::Image { res: 2, width: 40, height: 30 },
                ),
                (
                    Pos { x: 10, y: 90 },
                    Element::Text { face: 7, size: 12, glyphs: vec![1] },
                ),
            ],
        },
        Page { width: 300, height: 400, elements: vec![] },
    ];
    let env = Env { fonts: vec![(7, test_face())], images: vec![(2, alpha_image())] };
    let d1 = export(&pages, &env).unwrap();
    let d2 = export(&pages, &env).unwrap();
    assert_eq!(d1, d2);
}

#[test]
fn paint_order_is_element_order() {
    // A text element after an image element stays after it in the stream.
    let pages = vec![Page {
        width: 100,
        height: 100,
        elements: vec![
            (
                Pos { x: 0, y: 0 },
                Element::Image { res: 2, width: 10, height: 10 },
            ),
            (
                Pos { x: 5, y: 5 },
                Element::Text { face: 7, size: 10, glyphs: vec![3] },
            ),
        ],
    }];
    let env = Env { fonts: vec![(7, test_face())], images: vec![(2, opaque_image())] };
    let doc = export(&pages, &env).unwrap();
    assert_eq!(
        doc.contents[0].ops,
        vec![
            Op::PlaceImage { index: 0, x: 0, y: 90, width: 10, height: 10 },
            Op::SelectFont { index: 0, size: 10 },
            Op::MoveText { x: 5, y: 85 },
            Op::ShowGlyphs { bytes: vec![0, 3] },
        ]
    );
}

#[test]
fn missing_font_fails_export() {
    let pages = vec![Page {
        width: 100,
        height: 100,
        elements: vec![
            (
                Pos { x: 0, y: 0 },
                Element::Text { face: 42, size: 12, glyphs: vec![1] },
            ),
        ],
    }];
    let env = Env { fonts: vec![], images: vec![] };
    assert_eq!(
        export(&pages, &env),
        Err(Error::MissingResource(ResourceKind::Font, 42))
    );
}

#[test]
fn missing_image_fails_export() {
    let pages = vec![Page {
        width: 100,
        height: 100,
        elements: vec![
            (
                Pos { x: 0, y: 0 },
                Element::Text { face: 7, size: 12, glyphs: vec![1] },
            ),
            (
                Pos { x: 0, y: 0 },
                Element::Image { res: 5, width: 10, height: 10 },
            ),
        ],
    }];
    // The face is missing too, but the missing image is reported first.
    let env = Env { fonts: vec![], images: vec![] };
    assert_eq!(
        export(&pages, &env),
        Err(Error::MissingResource(ResourceKind::Image, 5))
    );
}

#[test]
fn repeated_resources_are_deduplicated() {
    let pages = vec![Page {
        width: 100,
        height: 100,
        elements: vec![
            (
                Pos { x: 0, y: 0 },
                Element::Text { face: 7, size: 12, glyphs: vec![1] },
            ),
            (
                Pos { x: 0, y: 30 },
                Element::Text { face: 7, size: 9, glyphs: vec![1] },
            ),
            (
                Pos { x: 0, y: 60 },
                Element::Image { res: 2, width: 5, height: 5 },
            ),
            (
                Pos { x: 0, y: 70 },
                Element::Image { res: 2, width: 5, height: 5 },
            ),
        ],
    }];
    let env = Env { fonts: vec![(7, test_face())], images: vec![(2, alpha_image())] };
    let doc = export(&pages, &env).unwrap();
    // One distinct font, one distinct image, one mask despite two uses.
    assert_eq!(doc.fonts.len(), 1);
    assert_eq!(doc.images.len(), 1);
    assert_eq!(doc.images.iter().filter(|i| i.mask.is_some()).count(), 1);
    // Both placements reference the same dense index.
    let places: Vec<&Op> = doc.contents[0]
        .ops
        .iter()
        .filter(|o| matches!(o, Op::PlaceImage { .. }))
        .collect();
    assert_eq!(places.len(), 2);
    for p in places {
        if let Op::PlaceImage { index, .. } = p {
            assert_eq!(*index, 0);
        }
    }
}

#[test]
fn masks_numbered_in_encounter_order() {
    // Three images: alpha, opaque, alpha.  The two masks take the two
    // identifiers of the alpha-mask range, in encounter order.
    let pages = vec![Page {
        width: 100,
        height: 100,
        elements: vec![
            (
                Pos { x: 0, y: 0 },
                Element::Image { res: 10, width: 5, height: 5 },
            ),
            (
                Pos { x: 10, y: 0 },
                Element::Image { res: 11, width: 5, height: 5 },
            ),
            (
                Pos { x: 20, y: 0 },
                Element::Image { res: 12, width: 5, height: 5 },
            ),
        ],
    }];
    let env = Env {
        fonts: vec![],
        images: vec![(10, alpha_image()), (11, opaque_image()), (12, alpha_image())],
    };
    let doc = export(&pages, &env).unwrap();
    assert_eq!(doc.images.len(), 3);
    let m0 = doc.images[0].mask.as_ref().unwrap();
    assert!(doc.images[1].mask.is_none());
    let m2 = doc.images[2].mask.as_ref().unwrap();
    assert_eq!(m0.id, doc.refs.alpha_mask(0));
    assert_eq!(m2.id, doc.refs.alpha_mask(1));
    assert_eq!(m2.id, m0.id + 1);
}

#[test]
fn empty_input_produces_empty_graph() {
    let pages: Vec<Page> = vec![];
    let env = Env { fonts: vec![], images: vec![] };
    let doc = export(&pages, &env).unwrap();
    assert_eq!(doc.refs.catalog, 1);
    assert_eq!(doc.refs.page_tree, 2);
    assert_eq!(doc.refs.end, 3);
    assert!(doc.pages.is_empty());
    assert!(doc.contents.is_empty());
    assert!(doc.fonts.is_empty());
    assert!(doc.images.is_empty());
}
