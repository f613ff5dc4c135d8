//! Up-front allocation of indirect-reference ranges.
//!
//! Writing the document in one forward pass requires knowing every object's
//! identifier before anything is emitted.  From the four counts (pages,
//! distinct fonts, distinct images, alpha masks) the allocator partitions
//! the identifier space `[1, end)` into contiguous, non-overlapping ranges
//! in a fixed class order: catalog, page tree, pages, content streams,
//! fonts (five identifiers each), images, alpha masks.

use vstd::prelude::*;

verus! {

/// Number of indirect objects that each embedded font occupies: composite
/// font, descendant font, descriptor, Unicode map, font-program data.
pub const OBJECTS_PER_FONT: i32 = 5;

/// The five identifiers of one embedded font, in emission order.
#[derive(Clone, Copy, Debug, PartialEq, Eq, Structural)]
pub struct FontRefs {
    pub type0_font: i32,
    pub cid_font: i32,
    pub font_descriptor: i32,
    pub cmap: i32,
    pub data: i32,
}

/// One past the last allocated identifier for the given counts.
pub open spec fn spec_end(pages: int, fonts: int, images: int, alpha_masks: int) -> int {
    3 + 2 * pages + 5 * fonts + images + alpha_masks
}

/// The ranges allocated for the given counts.
pub open spec fn spec_refs(pages: int, fonts: int, images: int, alpha_masks: int) -> Refs {
    Refs {
        catalog: 1,
        page_tree: 2,
        pages_start: 3,
        contents_start: (3 + pages) as i32,
        fonts_start: (3 + 2 * pages) as i32,
        images_start: (3 + 2 * pages + 5 * fonts) as i32,
        alpha_masks_start: (3 + 2 * pages + 5 * fonts + images) as i32,
        end: spec_end(pages, fonts, images, alpha_masks) as i32,
    }
}

/// The precomputed identifier ranges.  `catalog` and `page_tree` are single
/// identifiers; each other class owns `[its start, next start)`.
#[derive(Clone, Copy, Debug, PartialEq, Eq, Structural)]
pub struct Refs {
    pub catalog: i32,
    pub page_tree: i32,
    pub pages_start: i32,
    pub contents_start: i32,
    pub fonts_start: i32,
    pub images_start: i32,
    pub alpha_masks_start: i32,
    pub end: i32,
}

/// Identifiers of the page objects, in page order.
pub open spec fn spec_pages(r: Refs) -> Seq<i32> {
    Seq::new((r.contents_start - r.pages_start) as nat, |i: int| (r.pages_start + i) as i32)
}

/// Identifiers of the content streams, in page order.
pub open spec fn spec_contents(r: Refs) -> Seq<i32> {
    Seq::new((r.fonts_start - r.contents_start) as nat, |i: int| (r.contents_start + i) as i32)
}

/// The `i`-th font's five consecutive identifiers.
pub open spec fn spec_font_group(r: Refs, i: int) -> FontRefs {
    FontRefs {
        type0_font: (r.fonts_start + 5 * i) as i32,
        cid_font: (r.fonts_start + 5 * i + 1) as i32,
        font_descriptor: (r.fonts_start + 5 * i + 2) as i32,
        cmap: (r.fonts_start + 5 * i + 3) as i32,
        data: (r.fonts_start + 5 * i + 4) as i32,
    }
}

/// Identifier groups of the fonts, in font-index order.
pub open spec fn spec_fonts(r: Refs) -> Seq<FontRefs> {
    Seq::new(((r.images_start - r.fonts_start) / 5) as nat, |i: int| spec_font_group(r, i))
}

/// Identifiers of the color image objects, in image-index order.
pub open spec fn spec_images(r: Refs) -> Seq<i32> {
    Seq::new((r.alpha_masks_start - r.images_start) as nat, |i: int| (r.images_start + i) as i32)
}

impl Refs {
    /// Ranges are in class order, contiguous, with one catalog and one page
    /// tree identifier, equally many page and content identifiers, and a
    /// whole number of five-identifier font groups.
    pub open spec fn wf(&self) -> bool {
        &&& self.catalog == 1
        &&& self.page_tree == 2
        &&& self.pages_start == 3
        &&& self.pages_start <= self.contents_start
        &&& self.contents_start <= self.fonts_start
        &&& self.fonts_start <= self.images_start
        &&& self.images_start <= self.alpha_masks_start
        &&& self.alpha_masks_start <= self.end
        &&& self.contents_start - self.pages_start == self.fonts_start - self.contents_start
        &&& (self.images_start - self.fonts_start) % 5 == 0
    }

    /// Computes the partition for the given counts, in one arithmetic pass.
    pub fn new(pages: usize, fonts: usize, images: usize, alpha_masks: usize) -> (r: Refs)
        requires
            spec_end(pages as int, fonts as int, images as int, alpha_masks as int) <= i32::MAX,
        ensures
            r.wf(),
            r == spec_refs(pages as int, fonts as int, images as int, alpha_masks as int),
            r.catalog == 1,
            r.page_tree == 2,
            r.pages_start == 3,
            r.contents_start == 3 + pages,
            r.fonts_start == 3 + 2 * pages,
            r.images_start == 3 + 2 * pages + 5 * fonts,
            r.alpha_masks_start == 3 + 2 * pages + 5 * fonts + images,
            r.end == spec_end(pages as int, fonts as int, images as int, alpha_masks as int),
    {
        let p = pages as i64;
        let f = fonts as i64;
        let im = images as i64;
        let a = alpha_masks as i64;
        let contents_start: i64 = 3 + p;
        let fonts_start: i64 = contents_start + p;
        let images_start: i64 = fonts_start + 5 * f;
        let alpha_masks_start: i64 = images_start + im;
        let end: i64 = alpha_masks_start + a;
        Refs {
            catalog: 1,
            page_tree: 2,
            pages_start: 3,
            contents_start: contents_start as i32,
            fonts_start: fonts_start as i32,
            images_start: images_start as i32,
            alpha_masks_start: alpha_masks_start as i32,
            end: end as i32,
        }
    }

    /// The page identifiers; calling twice yields the same sequence.
    pub fn pages(&self) -> (r: Vec<i32>)
        requires
            self.wf(),
        ensures
            r@ == spec_pages(*self),
    {
        range_vec(self.pages_start, self.contents_start)
    }

    /// The content-stream identifiers; calling twice yields the same
    /// sequence.
    pub fn contents(&self) -> (r: Vec<i32>)
        requires
            self.wf(),
        ensures
            r@ == spec_contents(*self),
    {
        range_vec(self.contents_start, self.fonts_start)
    }

    /// The font identifier groups; each group holds five consecutive
    /// identifiers, and calling twice yields the same sequence.
    pub fn fonts(&self) -> (r: Vec<FontRefs>)
        requires
            self.wf(),
        ensures
            r@ == spec_fonts(*self),
    {
        let count: i32 = (self.images_start - self.fonts_start) / 5;
        let mut out: Vec<FontRefs> = Vec::new();
        let mut i: i32 = 0;
        while i < count
            invariant
                0 <= i <= count,
                count == (self.images_start - self.fonts_start) / 5,
                self.wf(),
                out@.len() == i,
                forall|j: int| 0 <= j < i ==> out@[j] == spec_font_group(*self, j),
            decreases count - i,
        {
            proof {
                assert(5 * count == self.images_start - self.fonts_start) by {
                    vstd::arithmetic::div_mod::lemma_fundamental_div_mod(
                        (self.images_start - self.fonts_start) as int,
                        5,
                    );
                }
                assert(5 * i < 5 * count) by (nonlinear_arith)
                    requires i < count;
            }
            let base: i32 = self.fonts_start + 5 * i;
            out.push(FontRefs {
                type0_font: base,
                cid_font: base + 1,
                font_descriptor: base + 2,
                cmap: base + 3,
                data: base + 4,
            });
            i += 1;
        }
        proof {
            assert(out@ =~= spec_fonts(*self));
        }
        out
    }

    /// The color image identifiers; calling twice yields the same sequence.
    pub fn images(&self) -> (r: Vec<i32>)
        requires
            self.wf(),
        ensures
            r@ == spec_images(*self),
    {
        range_vec(self.images_start, self.alpha_masks_start)
    }

    /// The identifier of the `i`-th alpha mask, in the order alpha-bearing
    /// images are encountered.
    pub fn alpha_mask(&self, i: usize) -> (r: i32)
        requires
            self.wf(),
            self.alpha_masks_start + i < self.end,
        ensures
            r == self.alpha_masks_start + i,
    {
        self.alpha_masks_start + (i as i32)
    }
}

/// The identifiers `lo, lo + 1, ..., hi - 1`.
fn range_vec(lo: i32, hi: i32) -> (r: Vec<i32>)
    requires
        lo <= hi,
    ensures
        r@ == Seq::new((hi - lo) as nat, |i: int| (lo + i) as i32),
{
    let mut out: Vec<i32> = Vec::new();
    let mut v: i32 = lo;
    while v < hi
        invariant
            lo <= v <= hi,
            out@.len() == v - lo,
            forall|j: int| 0 <= j < out@.len() ==> out@[j] == lo + j,
        decreases hi - v,
    {
        out.push(v);
        v += 1;
    }
    proof {
        assert(out@ =~= Seq::new((hi - lo) as nat, |i: int| (lo + i) as i32));
    }
    out
}

/// Law: for any counts within the identifier space, the allocated ranges
/// are pairwise disjoint and exactly cover `[1, end)`: an identifier lies
/// in `[1, end)` exactly when it belongs to one of the seven classes, and
/// it belongs to at most one of them.
pub proof fn lemma_ranges_partition(r: Refs, id: int)
    requires
        r.wf(),
    ensures
        (1 <= id < r.end) <==> (id == r.catalog || id == r.page_tree
            || (r.pages_start <= id < r.contents_start)
            || (r.contents_start <= id < r.fonts_start)
            || (r.fonts_start <= id < r.images_start)
            || (r.images_start <= id < r.alpha_masks_start)
            || (r.alpha_masks_start <= id < r.end)),
        r.catalog != r.page_tree,
        id == r.catalog || id == r.page_tree ==> !(r.pages_start <= id < r.end),
        !((r.pages_start <= id < r.contents_start) && (r.contents_start <= id < r.end)),
        !((r.contents_start <= id < r.fonts_start) && (r.fonts_start <= id < r.end)),
        !((r.fonts_start <= id < r.images_start) && (r.images_start <= id < r.end)),
        !((r.images_start <= id < r.alpha_masks_start) && (r.alpha_masks_start <= id < r.end)),
{
}

/// Law: each font group consists of exactly five consecutive identifiers,
/// and consecutive groups are adjacent.
pub proof fn lemma_font_groups_consecutive(r: Refs, i: int)
    requires
        r.wf(),
        0 <= i < spec_fonts(r).len(),
    ensures
        spec_fonts(r)[i].cid_font == spec_fonts(r)[i].type0_font + 1,
        spec_fonts(r)[i].font_descriptor == spec_fonts(r)[i].type0_font + 2,
        spec_fonts(r)[i].cmap == spec_fonts(r)[i].type0_font + 3,
        spec_fonts(r)[i].data == spec_fonts(r)[i].type0_font + 4,
        spec_fonts(r)[i].type0_font == r.fonts_start + 5 * i,
{
    assert(5 * ((r.images_start - r.fonts_start) / 5) == r.images_start - r.fonts_start) by {
        vstd::arithmetic::div_mod::lemma_fundamental_div_mod(
            (r.images_start - r.fonts_start) as int,
            5,
        );
    }
    assert(5 * i + 4 < 5 * spec_fonts(r).len()) by (nonlinear_arith)
        requires i < spec_fonts(r).len();
}

/// Law: the accessors are pure — any two results of the same accessor on
/// the same allocator are identical sequences.
pub proof fn lemma_accessors_repeatable(r: Refs, a: Seq<i32>, b: Seq<i32>)
    requires
        a == spec_pages(r) && b == spec_pages(r) || a == spec_contents(r) && b == spec_contents(r)
            || a == spec_images(r) && b == spec_images(r),
    ensures
        a == b,
{
}

/// Law: the font accessor is pure — any two results on the same allocator
/// are identical sequences of identifier groups.
pub proof fn lemma_fonts_accessor_repeatable(r: Refs, a: Seq<FontRefs>, b: Seq<FontRefs>)
    requires
        a == spec_fonts(r),
        b == spec_fonts(r),
    ensures
        a == b,
{
}

} // verus!
