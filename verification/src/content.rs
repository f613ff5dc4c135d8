//! Pages, elements, and content-stream generation.
//!
//! A page's drawing instructions are derived from its elements in their
//! given order (order determines paint order).  Text keeps a local
//! `(face, size)` state so that a font-selection instruction is emitted
//! only when the pair changes; y-coordinates are flipped because the
//! output coordinate system is bottom-left while the layout is top-left.
//! Lengths are integer layout units; glyphs are shown in the fixed
//! big-endian 16-bit encoding.

use vstd::prelude::*;

use crate::remap::{key_index, Remapper};
use crate::Error;

verus! {

/// Coordinates beyond this magnitude are rejected so that the flip
/// arithmetic stays within `i64`.
pub const COORD_LIMIT: i64 = 0x1000_0000_0000_0000;

/// A position on a page, in layout units from the top-left corner.
#[derive(Clone, Copy, Debug, PartialEq, Eq, Structural)]
pub struct Pos {
    pub x: i64,
    pub y: i64,
}

/// A positioned page element: a shaped text run or a placed image.
#[derive(Clone, Debug, PartialEq, Eq)]
pub enum Element {
    Text { face: u64, size: i64, glyphs: Vec<u16> },
    Image { res: u64, width: i64, height: i64 },
}

/// One laid-out page: its size and its ordered elements.
#[derive(Clone, Debug, PartialEq, Eq)]
pub struct Page {
    pub width: i64,
    pub height: i64,
    pub elements: Vec<(Pos, Element)>,
}

/// A single content-stream instruction, with integer operands.
#[derive(Clone, Debug, PartialEq, Eq)]
pub enum Op {
    /// Select font `F<index>` at the given size.
    SelectFont { index: usize, size: i64 },
    /// Position the text origin (bottom-left coordinates).
    MoveText { x: i64, y: i64 },
    /// Show glyphs, already in the big-endian 16-bit encoding.
    ShowGlyphs { bytes: Vec<u8> },
    /// The bracketed image placement: save state, map the unit square to
    /// `width x height` at `(x, y)`, reference `Im<index>`, restore state.
    PlaceImage { index: usize, x: i64, y: i64, width: i64, height: i64 },
}

/// Mathematical model of an instruction.
pub enum OpModel {
    SelectFont { index: int, size: int },
    MoveText { x: int, y: int },
    ShowGlyphs { bytes: Seq<u8> },
    PlaceImage { index: int, x: int, y: int, width: int, height: int },
}

impl View for Op {
    type V = OpModel;

    open spec fn view(&self) -> OpModel {
        match self {
            Op::SelectFont { index, size } => OpModel::SelectFont {
                index: *index as int,
                size: *size as int,
            },
            Op::MoveText { x, y } => OpModel::MoveText { x: *x as int, y: *y as int },
            Op::ShowGlyphs { bytes } => OpModel::ShowGlyphs { bytes: bytes@ },
            Op::PlaceImage { index, x, y, width, height } => OpModel::PlaceImage {
                index: *index as int,
                x: *x as int,
                y: *y as int,
                width: *width as int,
                height: *height as int,
            },
        }
    }
}

/// The models of a sequence of instructions.
pub open spec fn ops_view(s: Seq<Op>) -> Seq<OpModel> {
    s.map_values(|o: Op| o@)
}

/// The fixed big-endian 16-bit glyph encoding: two bytes per glyph,
/// high byte first.
pub open spec fn be_bytes(gs: Seq<u16>) -> Seq<u8>
    decreases gs.len(),
{
    if gs.len() == 0 {
        Seq::empty()
    } else {
        be_bytes(gs.drop_last()) + seq![(gs.last() / 256) as u8, (gs.last() % 256) as u8]
    }
}

/// Encodes glyph identifiers in the fixed big-endian 16-bit encoding.
pub fn encode_glyphs_be(glyphs: &Vec<u16>) -> (r: Vec<u8>)
    ensures
        r@ == be_bytes(glyphs@),
{
    let n = glyphs.len();
    let mut out: Vec<u8> = Vec::new();
    let mut i: usize = 0;
    proof {
        assert(glyphs@.take(0) =~= Seq::<u16>::empty());
    }
    while i < n
        invariant
            0 <= i <= n,
            n == glyphs@.len(),
            out@ == be_bytes(glyphs@.take(i as int)),
        decreases n - i,
    {
        let g = glyphs[i];
        out.push((g / 256) as u8);
        out.push((g % 256) as u8);
        proof {
            assert(glyphs@.take(i + 1).drop_last() =~= glyphs@.take(i as int));
            assert(glyphs@.take(i + 1).last() == glyphs@[i as int]);
            assert(out@ =~= be_bytes(glyphs@.take(i + 1)));
        }
        i += 1;
    }
    proof {
        assert(glyphs@.take(n as int) =~= glyphs@);
    }
    out
}

/// A coordinate the generator accepts.
pub open spec fn coord_ok(v: int) -> bool {
    -COORD_LIMIT <= v <= COORD_LIMIT
}

/// Every coordinate of the page is within range, so the flip arithmetic
/// cannot overflow.
pub open spec fn page_wf(page: Page) -> bool {
    &&& coord_ok(page.width as int)
    &&& coord_ok(page.height as int)
    &&& forall|i: int|
        0 <= i < page.elements@.len() ==> elem_wf(
            #[trigger] page.elements@[i].0,
            page.elements@[i].1,
        )
}

/// A positioned element with in-range coordinates.
pub open spec fn elem_wf(pos: Pos, e: Element) -> bool {
    &&& coord_ok(pos.x as int)
    &&& coord_ok(pos.y as int)
    &&& match e {
        Element::Text { size, .. } => coord_ok(size as int),
        Element::Image { width, height, .. } => coord_ok(width as int) && coord_ok(height as int),
    }
}

/// The flipped vertical coordinate: layout measures `y` from the top,
/// the output measures from the bottom, and the element extends `extent`
/// below its origin.
pub open spec fn flip_y(page_h: int, y: int, extent: int) -> int {
    page_h - y - extent
}

/// The generator state: the active `(face, size)` pair, if any.
pub type FontState = Option<(u64, i64)>;

/// The instructions one element contributes, given the active font state.
pub open spec fn elem_ops(
    st: FontState,
    pos: Pos,
    e: Element,
    page_h: int,
    fonts: Seq<u64>,
    images: Seq<u64>,
) -> Seq<OpModel> {
    match e {
        Element::Text { face, size, glyphs } => {
            let tail = seq![
                OpModel::MoveText { x: pos.x as int, y: flip_y(page_h, pos.y as int, size as int) },
                OpModel::ShowGlyphs { bytes: be_bytes(glyphs@) },
            ];
            if st == Some((face, size)) {
                tail
            } else {
                seq![
                    OpModel::SelectFont { index: key_index(fonts, face), size: size as int },
                ] + tail
            }
        },
        Element::Image { res, width, height } => seq![
            OpModel::PlaceImage {
                index: key_index(images, res),
                x: pos.x as int,
                y: flip_y(page_h, pos.y as int, height as int),
                width: width as int,
                height: height as int,
            },
        ],
    }
}

/// The font state after one element: a text run becomes the active pair,
/// an image leaves it unchanged.
pub open spec fn elem_state(st: FontState, e: Element) -> FontState {
    match e {
        Element::Text { face, size, .. } => Some((face, size)),
        Element::Image { .. } => st,
    }
}

/// The instructions of the elements `elems`, processed in order starting
/// from font state `st`.
pub open spec fn page_ops_from(
    st: FontState,
    elems: Seq<(Pos, Element)>,
    page_h: int,
    fonts: Seq<u64>,
    images: Seq<u64>,
) -> Seq<OpModel>
    decreases elems.len(),
{
    if elems.len() == 0 {
        Seq::empty()
    } else {
        elem_ops(st, elems[0].0, elems[0].1, page_h, fonts, images) + page_ops_from(
            elem_state(st, elems[0].1),
            elems.drop_first(),
            page_h,
            fonts,
            images,
        )
    }
}

/// The full instruction sequence of a page: all elements in order, with
/// no font active initially.
pub open spec fn spec_page_ops(page: Page, fonts: Seq<u64>, images: Seq<u64>) -> Seq<OpModel> {
    page_ops_from(None, page.elements@, page.height as int, fonts, images)
}

/// Every face and image resource of the page is registered in the
/// respective remapper.
pub open spec fn page_keys_known(
    elems: Seq<(Pos, Element)>,
    fonts: Seq<u64>,
    images: Seq<u64>,
) -> bool {
    forall|i: int|
        0 <= i < elems.len() ==> match #[trigger] elems[i].1 {
            Element::Text { face, .. } => fonts.contains(face),
            Element::Image { res, .. } => images.contains(res),
        }
}

/// Generates the content-stream instructions of one page.
///
/// Succeeds exactly when every resource the page references was inserted
/// into the remappers by the scanning pass; a lookup for a key never
/// inserted is a caller bug and yields `UnknownResource`.
pub fn page_ops(page: &Page, fonts: &Remapper, images: &Remapper) -> (r: Result<Vec<Op>, Error>)
    requires
        page_wf(*page),
    ensures
        r is Ok <==> page_keys_known(page.elements@, fonts@, images@),
        r matches Ok(ops) ==> ops_view(ops@) == spec_page_ops(*page, fonts@, images@),
        r matches Err(e) ==> e == Error::UnknownResource,
{
    let n = page.elements.len();
    let h = page.height;
    let mut out: Vec<Op> = Vec::new();
    let mut has_active: bool = false;
    let mut active_face: u64 = 0;
    let mut active_size: i64 = 0;
    let mut i: usize = 0;
    proof {
        assert(page.elements@.skip(0) =~= page.elements@);
    }
    while i < n
        invariant
            0 <= i <= n,
            n == page.elements@.len(),
            page_wf(*page),
            h == page.height,
            page_keys_known(page.elements@.take(i as int), fonts@, images@),
            ops_view(out@) + page_ops_from(
                if has_active { Some((active_face, active_size)) } else { None },
                page.elements@.skip(i as int),
                h as int,
                fonts@,
                images@,
            ) == spec_page_ops(*page, fonts@, images@),
        decreases n - i,
    {
        let ghost st: FontState = if has_active { Some((active_face, active_size)) } else { None };
        let ghost rest = page.elements@.skip(i as int);
        let ghost out0 = out@;
        proof {
            assert(rest[0] == page.elements@[i as int]);
            assert(rest.drop_first() =~= page.elements@.skip(i + 1));
        }
        let (pos, element) = &page.elements[i];
        match element {
            Element::Text { face, size, glyphs } => {
                match fonts.map(*face) {
                    Ok(index) => {
                        proof {
                            crate::remap::lemma_key_index_in_range(fonts@, *face);
                        }
                        if !(has_active && active_face == *face && active_size == *size) {
                            out.push(Op::SelectFont { index, size: *size });
                        }
                        has_active = true;
                        active_face = *face;
                        active_size = *size;
                        let ty: i64 = h - pos.y - *size;
                        out.push(Op::MoveText { x: pos.x, y: ty });
                        let bytes = encode_glyphs_be(glyphs);
                        out.push(Op::ShowGlyphs { bytes });
                    },
                    Err(e) => {
                        proof {
                            assert(!page_keys_known(page.elements@, fonts@, images@)) by {
                                assert(page.elements@[i as int].1 matches Element::Text {
                                    face: f, .. } && !fonts@.contains(f));
                            }
                        }
                        return Err(e);
                    },
                }
            },
            Element::Image { res, width, height } => {
                match images.map(*res) {
                    Ok(index) => {
                        proof {
                            crate::remap::lemma_key_index_in_range(images@, *res);
                        }
                        out.push(Op::PlaceImage {
                            index,
                            x: pos.x,
                            y: h - pos.y - *height,
                            width: *width,
                            height: *height,
                        });
                    },
                    Err(e) => {
                        proof {
                            assert(!page_keys_known(page.elements@, fonts@, images@)) by {
                                assert(page.elements@[i as int].1 matches Element::Image {
                                    res: k, .. } && !images@.contains(k));
                            }
                        }
                        return Err(e);
                    },
                }
            },
        }
        proof {
            let st2: FontState = if has_active { Some((active_face, active_size)) } else { None };
            let elem = page.elements@[i as int];
            let contributed = elem_ops(st, elem.0, elem.1, h as int, fonts@, images@);
            let n0 = out0.len() as int;
            assert(elem == (*pos, *element));
            assert(st2 == elem_state(st, elem.1));
            assert(out@.len() == n0 + contributed.len());
            assert(forall|k: int| 0 <= k < n0 ==> out@[k] == out0[k]);
            assert(forall|k: int| n0 <= k < out@.len() ==> out@[k]@ == contributed[k - n0]);
            assert(ops_view(out@) =~= ops_view(out0) + contributed);
            assert(page_ops_from(st, rest, h as int, fonts@, images@) == contributed
                + page_ops_from(st2, page.elements@.skip(i + 1), h as int, fonts@, images@));
            assert((ops_view(out0) + contributed) + page_ops_from(
                st2,
                page.elements@.skip(i + 1),
                h as int,
                fonts@,
                images@,
            ) =~= ops_view(out0) + (contributed + page_ops_from(
                st2,
                page.elements@.skip(i + 1),
                h as int,
                fonts@,
                images@,
            )));
            assert(page.elements@.take(i + 1) =~= page.elements@.take(i as int).push(
                page.elements@[i as int]));
            assert(page_keys_known(page.elements@.take(i + 1), fonts@, images@));
        }
        i += 1;
    }
    proof {
        assert(page.elements@.take(n as int) =~= page.elements@);
        assert(page.elements@.skip(n as int) =~= Seq::<(Pos, Element)>::empty());
        assert(ops_view(out@) + Seq::<OpModel>::empty() =~= ops_view(out@));
    }
    Ok(out)
}

/// Number of font-selection instructions in a sequence.
pub open spec fn count_selects(ops: Seq<OpModel>) -> nat
    decreases ops.len(),
{
    if ops.len() == 0 {
        0
    } else {
        (if ops[0] is SelectFont {
            1nat
        } else {
            0nat
        }) + count_selects(ops.drop_first())
    }
}

/// `count_selects` distributes over concatenation.
pub proof fn lemma_count_selects_add(a: Seq<OpModel>, b: Seq<OpModel>)
    ensures
        count_selects(a + b) == count_selects(a) + count_selects(b),
    decreases a.len(),
{
    if a.len() == 0 {
        assert(a + b =~= b);
    } else {
        assert((a + b).drop_first() =~= a.drop_first() + b);
        lemma_count_selects_add(a.drop_first(), b);
    }
}

/// Law: two consecutive text elements with the same `(face, size)` emit
/// exactly one font-selection instruction across both, when that pair was
/// not already active; if the second differs from the first in face or
/// size, exactly two are emitted.
pub proof fn lemma_font_switch_minimized(
    st: FontState,
    p1: Pos,
    p2: Pos,
    e1: Element,
    e2: Element,
    page_h: int,
    fonts: Seq<u64>,
    images: Seq<u64>,
)
    requires
        ({
            &&& e1 matches Element::Text { face: f1, size: s1, .. }
            &&& e2 matches Element::Text { face: f2, size: s2, .. }
            &&& st != Some((f1, s1))
        }),
    ensures
        ({
            &&& e1 matches Element::Text { face: f1, size: s1, .. }
            &&& e2 matches Element::Text { face: f2, size: s2, .. }
            &&& count_selects(
                page_ops_from(st, seq![(p1, e1), (p2, e2)], page_h, fonts, images),
            ) == (if f1 == f2 && s1 == s2 {
                1int
            } else {
                2int
            })
        }),
{
    let elems = seq![(p1, e1), (p2, e2)];
    let st1 = elem_state(st, e1);
    assert(elems.drop_first() =~= seq![(p2, e2)]);
    assert(elems.drop_first().drop_first() =~= Seq::<(Pos, Element)>::empty());
    lemma_count_selects_add(
        elem_ops(st, p1, e1, page_h, fonts, images),
        page_ops_from(st1, elems.drop_first(), page_h, fonts, images),
    );
    lemma_count_selects_add(
        elem_ops(st1, p2, e2, page_h, fonts, images),
        page_ops_from(elem_state(st1, e2), Seq::empty(), page_h, fonts, images),
    );
    lemma_count_one_text(st, p1, e1, page_h, fonts, images);
    lemma_count_one_text(st1, p2, e2, page_h, fonts, images);
}

/// A text element emits one font selection when its `(face, size)` pair is
/// not active, and none when it is.
pub proof fn lemma_count_one_text(
    st: FontState,
    pos: Pos,
    e: Element,
    page_h: int,
    fonts: Seq<u64>,
    images: Seq<u64>,
)
    requires
        e is Text,
    ensures
        ({
            &&& e matches Element::Text { face, size, .. }
            &&& count_selects(elem_ops(st, pos, e, page_h, fonts, images)) == (if st == Some(
                (face, size),
            ) {
                0int
            } else {
                1int
            })
        }),
{
    let ops = elem_ops(st, pos, e, page_h, fonts, images);
    match e {
        Element::Text { face, size, glyphs } => {
            let mv = OpModel::MoveText {
                x: pos.x as int,
                y: flip_y(page_h, pos.y as int, size as int),
            };
            let sh = OpModel::ShowGlyphs { bytes: be_bytes(glyphs@) };
            if st == Some((face, size)) {
                assert(ops =~= seq![mv, sh]);
                assert(ops.drop_first() =~= seq![sh]);
                assert(ops.drop_first().drop_first() =~= Seq::<OpModel>::empty());
                assert(count_selects(ops.drop_first().drop_first()) == 0);
                assert(count_selects(ops.drop_first()) == 0);
                assert(count_selects(ops) == 0);
            } else {
                let sel = OpModel::SelectFont { index: key_index(fonts, face), size: size as int };
                assert(ops =~= seq![sel, mv, sh]);
                assert(ops.drop_first() =~= seq![mv, sh]);
                assert(ops.drop_first().drop_first() =~= seq![sh]);
                assert(ops.drop_first().drop_first().drop_first() =~= Seq::<OpModel>::empty());
                assert(count_selects(ops.drop_first().drop_first().drop_first()) == 0);
                assert(count_selects(ops.drop_first().drop_first()) == 0);
                assert(count_selects(ops.drop_first()) == 0);
                assert(count_selects(ops) == 1);
            }
        },
        Element::Image { .. } => {},
    }
}

} // verus!
