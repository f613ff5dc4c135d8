use pdf_export::content::{encode_glyphs_be, page_ops, Element, Op, Page, Pos};
use pdf_export::font::{
    build_cmap_pairs, build_font_object, contains_bytes, display_name, FaceData,
};
use pdf_export::images::{alpha_channel, build_image_object, rgb_channels, ImageData};
use pdf_export::metrics::{convert_i16, convert_u16, font_flags, stem_v_milli};
use pdf_export::refs::Refs;
use pdf_export::remap::Remapper;
use pdf_export::Error;

fn plain_face(name: Option<&str>, units_per_em: Option<u16>) -> FaceData {
    FaceData {
        postscript_name: name.map(|n| n.as_bytes().to_vec()),
        units_per_em,
        monospaced: false,
        italic: false,
        italic_angle_milli: 0,
        ascender: 800,
        descender: -200,
        cap_height: Some(700),
        weight: 400,
        bbox_x_min: -100,
        bbox_y_min: -250,
        bbox_x_max: 1100,
        bbox_y_max: 950,
        num_glyphs: 3,
        advances: vec![0, 500, 600],
        cmap: vec![(65, Some(1)), (66, Some(2))],
        data: vec![1, 2, 3, 4],
    }
}

#[test]
fn remapper_dense_stable_idempotent() {
    let mut r = Remapper::new();
    r.insert(10);
    r.insert(20);
    r.insert(10);
    r.insert(30);
    assert_eq!(r.len(), 3);
    assert_eq!(r.map(10), Ok(0));
    assert_eq!(r.map(20), Ok(1));
    assert_eq!(r.map(30), Ok(2));
    // Indices are dense and stable across further insertions.
    r.insert(40);
    assert_eq!(r.map(10), Ok(0));
    assert_eq!(r.map(40), Ok(3));
    assert!(r.map(10).unwrap() < r.len());
    assert_eq!(r.map(99), Err(Error::UnknownResource));
    // Iteration order equals first-insertion order.
    assert_eq!(r.layout_indices(), vec![10, 20, 30, 40]);
    assert_eq!(r.pdf_indices(), vec![0, 1, 2, 3]);
}

#[test]
fn refs_partition_covers_everything() {
    let r = Refs::new(2, 1, 2, 1);
    assert_eq!(r.catalog, 1);
    assert_eq!(r.page_tree, 2);
    assert_eq!(r.pages(), vec![3, 4]);
    assert_eq!(r.contents(), vec![5, 6]);
    let groups = r.fonts();
    assert_eq!(groups.len(), 1);
    assert_eq!(groups[0].type0_font, 7);
    assert_eq!(groups[0].cid_font, 8);
    assert_eq!(groups[0].font_descriptor, 9);
    assert_eq!(groups[0].cmap, 10);
    assert_eq!(groups[0].data, 11);
    assert_eq!(r.images(), vec![12, 13]);
    assert_eq!(r.alpha_mask(0), 14);
    assert_eq!(r.end, 15);
    // Every identifier in [1, end) is used exactly once.
    let mut all = vec![r.catalog, r.page_tree];
    all.extend(r.pages());
    all.extend(r.contents());
    for g in r.fonts() {
        all.extend(vec![g.type0_font, g.cid_font, g.font_descriptor, g.cmap, g.data]);
    }
    all.extend(r.images());
    all.push(r.alpha_mask(0));
    all.sort();
    assert_eq!(all, (1..15).collect::<Vec<i32>>());
}

#[test]
fn refs_accessors_repeatable() {
    let r = Refs::new(3, 2, 1, 0);
    assert_eq!(r.pages(), r.pages());
    assert_eq!(r.contents(), r.contents());
    assert_eq!(r.images(), r.images());
    let a = r.fonts();
    let b = r.fonts();
    assert_eq!(a.len(), b.len());
    for i in 0..a.len() {
        assert_eq!(a[i].type0_font, b[i].type0_font);
        assert_eq!(a[i].data, b[i].data);
    }
}

#[test]
fn convert_zero_identity_and_monotonic() {
    assert_eq!(convert_i16(0, 1000), 0);
    assert_eq!(convert_i16(0, 2048), 0);
    // With 1000 units per em the conversion is the identity.
    assert_eq!(convert_i16(5, 1000), 5);
    assert_eq!(convert_i16(-7, 1000), -7);
    assert_eq!(convert_i16(723, 1000), 723);
    // Exact rounding, half away from zero.
    assert_eq!(convert_u16(1024, 2048), 500);
    assert_eq!(convert_i16(1, 2000), 1);
    assert_eq!(convert_i16(-1, 2000), -1);
    assert_eq!(convert_i16(1, 3000), 0);
    // Monotonic for a fixed units-per-em value.
    let mut prev = convert_i16(-50, 2048);
    let mut v: i16 = -49;
    while v <= 50 {
        let c = convert_i16(v, 2048);
        assert!(prev <= c);
        prev = c;
        v += 1;
    }
}

#[test]
fn stem_v_formula() {
    // stem_v = 10 + 0.244 * (400 - 50) = 95.4, held as thousandths.
    assert_eq!(stem_v_milli(400), 95400);
    assert_eq!(stem_v_milli(50), 10000);
}

#[test]
fn flags_fixed_policy_bits() {
    // Symbolic (4) and small-caps (131072) always; serif adds 2,
    // fixed-pitch 1, italic 64.
    assert_eq!(font_flags(false, false, false), 131076);
    assert_eq!(font_flags(true, false, false), 131078);
    assert_eq!(font_flags(true, true, true), 131143);
}

#[test]
fn glyph_encoding_is_big_endian() {
    assert_eq!(encode_glyphs_be(&vec![0x1234]), vec![0x12, 0x34]);
    assert_eq!(encode_glyphs_be(&vec![1, 258]), vec![0, 1, 1, 2]);
    assert_eq!(encode_glyphs_be(&vec![]), Vec::<u8>::new());
}

#[test]
fn display_name_and_serif_detection() {
    let named = plain_face(Some("TimesSerifX"), Some(1000));
    assert_eq!(display_name(&named), b"ABCDEF+TimesSerifX".to_vec());
    let anon = plain_face(None, Some(1000));
    assert_eq!(display_name(&anon), b"ABCDEF+unknown".to_vec());
    assert!(contains_bytes(&b"ABCDEF+TimesSerifX".to_vec(), &b"Serif".to_vec()));
    assert!(!contains_bytes(&b"ABCDEF+unknown".to_vec(), &b"Serif".to_vec()));
}

#[test]
fn font_object_derivation() {
    let mut face = plain_face(Some("FooSerif"), Some(2000));
    face.monospaced = true;
    let refs = Refs::new(0, 1, 0, 0);
    let group = refs.fonts()[0];
    let fo = build_font_object(&face, group);
    assert_eq!(fo.base_font, b"ABCDEF+FooSerif".to_vec());
    // serif + fixed-pitch + symbolic + small-caps.
    assert_eq!(fo.flags, 131076 + 2 + 1);
    // Metrics are halved by 2000 units per em: 800 -> 400, -200 -> -100.
    assert_eq!(fo.ascent, 400);
    assert_eq!(fo.descent, -100);
    assert_eq!(fo.cap_height, 350);
    assert_eq!(fo.bbox_x_min, -50);
    assert_eq!(fo.bbox_y_max, 475);
    assert_eq!(fo.widths, vec![0, 250, 300]);
    assert_eq!(fo.cmap_pairs, vec![(1, 65), (2, 66)]);
    assert_eq!(fo.data, vec![1, 2, 3, 4]);
    assert_eq!(fo.refs.type0_font, group.type0_font);
}

#[test]
fn cap_height_falls_back_to_ascender() {
    let mut face = plain_face(Some("Foo"), Some(1000));
    face.cap_height = None;
    let refs = Refs::new(0, 1, 0, 0);
    let fo = build_font_object(&face, refs.fonts()[0]);
    assert_eq!(fo.cap_height, fo.ascent);
}

#[test]
fn cmap_pairs_filter_invalid_codepoints() {
    // A surrogate codepoint and an unmapped codepoint are dropped.
    let entries = vec![(65, Some(1)), (0xD800, Some(2)), (66, None), (0x10FFFF, Some(3))];
    assert_eq!(build_cmap_pairs(&entries), vec![(1, 65), (3, 0x10FFFF)]);
}

#[test]
fn image_without_alpha_has_no_mask() {
    let img = ImageData { width: 2, height: 1, has_alpha: false, pixels: vec![1, 2, 3, 4, 5, 6] };
    assert_eq!(rgb_channels(&img), vec![1, 2, 3, 4, 5, 6]);
    let obj = build_image_object(&img, 9, 0);
    assert_eq!(obj.id, 9);
    assert_eq!(obj.rgb, vec![1, 2, 3, 4, 5, 6]);
    assert!(obj.mask.is_none());
}

#[test]
fn image_with_alpha_splits_mask() {
    let img = ImageData {
        width: 2,
        height: 1,
        has_alpha: true,
        pixels: vec![10, 11, 12, 200, 20, 21, 22, 201],
    };
    assert_eq!(rgb_channels(&img), vec![10, 11, 12, 20, 21, 22]);
    assert_eq!(alpha_channel(&img), vec![200, 201]);
    let obj = build_image_object(&img, 5, 7);
    let mask = obj.mask.expect("alpha image must carry a mask");
    assert_eq!(mask.id, 7);
    assert_eq!(mask.samples, vec![200, 201]);
    assert_eq!(obj.rgb, vec![10, 11, 12, 20, 21, 22]);
}

#[test]
fn font_switch_is_minimized() {
    let mut fonts = Remapper::new();
    fonts.insert(7);
    let images = Remapper::new();
    let page = Page {
        width: 100,
        height: 100,
        elements: vec![
            (
                Pos { x: 0, y: 0 },
                Element::Text { face: 7, size: 12, glyphs: vec![1] },
            ),
            (
                Pos { x: 0, y: 20 },
                Element::Text { face: 7, size: 12, glyphs: vec![2] },
            ),
        ],
    };
    let ops = page_ops(&page, &fonts, &images).unwrap();
    let selects = ops
        .iter()
        .filter(|o| matches!(o, Op::SelectFont { .. }))
        .count();
    assert_eq!(selects, 1);
}

#[test]
fn font_switch_reemitted_on_change() {
    let mut fonts = Remapper::new();
    fonts.insert(7);
    let images = Remapper::new();
    let page = Page {
        width: 100,
        height: 100,
        elements: vec![
            (
                Pos { x: 0, y: 0 },
                Element::Text { face: 7, size: 12, glyphs: vec![1] },
            ),
            (
                Pos { x: 0, y: 20 },
                Element::Text { face: 7, size: 14, glyphs: vec![2] },
            ),
        ],
    };
    let ops = page_ops(&page, &fonts, &images).unwrap();
    let selects = ops
        .iter()
        .filter(|o| matches!(o, Op::SelectFont { .. }))
        .count();
    assert_eq!(selects, 2);
}

#[test]
fn page_ops_unknown_resource() {
    let fonts = Remapper::new();
    let images = Remapper::new();
    let page = Page {
        width: 100,
        height: 100,
        elements: vec![
            (
                Pos { x: 0, y: 0 },
                Element::Text { face: 7, size: 12, glyphs: vec![1] },
            ),
        ],
    };
    assert_eq!(page_ops(&page, &fonts, &images), Err(Error::UnknownResource));
}
