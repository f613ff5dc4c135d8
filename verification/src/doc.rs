//! The export driver: from laid-out pages and a resource environment to
//! the complete document object graph.
//!
//! One scanning pass discovers the distinct fonts and images in first-seen
//! order and counts the alpha-bearing images; the allocator then fixes
//! every identifier, and the structure, content streams, font objects and
//! image objects are produced in a single forward pass.  A face or image
//! that an element references but the environment does not hold fails the
//! whole export with `MissingResource`.

use vstd::prelude::*;

use crate::content::{
    ops_view, page_keys_known, page_ops, page_wf, spec_page_ops, Element, Op, Page, Pos,
};
use crate::font::{build_font_object, face_wf, font_obj_matches, FaceData, FontObject};
use crate::images::{build_image_object, image_obj_matches, image_wf, ImageData, ImageObject};
use crate::refs::{spec_end, spec_font_group, spec_refs, Refs};
use crate::remap::{distinct_keys, insert_key, Remapper};
use crate::{Error, ResourceKind};

verus! {

/// The preloaded resources, keyed by the opaque handles that elements
/// carry.
pub struct Env {
    pub fonts: Vec<(u64, FaceData)>,
    pub images: Vec<(u64, ImageData)>,
}

/// First entry for `id`, if any.
pub open spec fn lookup_face(entries: Seq<(u64, FaceData)>, id: u64) -> Option<FaceData>
    decreases entries.len(),
{
    if entries.len() == 0 {
        None
    } else if entries[0].0 == id {
        Some(entries[0].1)
    } else {
        lookup_face(entries.drop_first(), id)
    }
}

/// First entry for `id`, if any.
pub open spec fn lookup_image(entries: Seq<(u64, ImageData)>, id: u64) -> Option<ImageData>
    decreases entries.len(),
{
    if entries.len() == 0 {
        None
    } else if entries[0].0 == id {
        Some(entries[0].1)
    } else {
        lookup_image(entries.drop_first(), id)
    }
}

/// Every preloaded face and image is well-formed.
pub open spec fn env_wf(env: Env) -> bool {
    &&& forall|i: int|
        0 <= i < env.fonts@.len() ==> face_wf(#[trigger] env.fonts@[i].1)
    &&& forall|i: int|
        0 <= i < env.images@.len() ==> image_wf(#[trigger] env.images@[i].1)
}

/// A looked-up face of a well-formed environment is well-formed.
pub proof fn lemma_lookup_face_wf(entries: Seq<(u64, FaceData)>, id: u64)
    requires
        forall|i: int| 0 <= i < entries.len() ==> face_wf(#[trigger] entries[i].1),
    ensures
        lookup_face(entries, id) matches Some(f) ==> face_wf(f),
    decreases entries.len(),
{
    if entries.len() > 0 && entries[0].0 != id {
        assert(forall|i: int|
            0 <= i < entries.drop_first().len() ==> #[trigger] entries.drop_first()[i]
                == entries[i + 1]);
        lemma_lookup_face_wf(entries.drop_first(), id);
    }
}

/// A looked-up image of a well-formed environment is well-formed.
pub proof fn lemma_lookup_image_wf(entries: Seq<(u64, ImageData)>, id: u64)
    requires
        forall|i: int| 0 <= i < entries.len() ==> image_wf(#[trigger] entries[i].1),
    ensures
        lookup_image(entries, id) matches Some(f) ==> image_wf(f),
    decreases entries.len(),
{
    if entries.len() > 0 && entries[0].0 != id {
        assert(forall|i: int|
            0 <= i < entries.drop_first().len() ==> #[trigger] entries.drop_first()[i]
                == entries[i + 1]);
        lemma_lookup_image_wf(entries.drop_first(), id);
    }
}

/// Finds the face preloaded under `id`.
pub fn find_face<'a>(env: &'a Env, id: u64) -> (r: Option<&'a FaceData>)
    ensures
        match r {
            Some(f) => lookup_face(env.fonts@, id) == Some(*f),
            None => lookup_face(env.fonts@, id) is None,
        },
{
    let n = env.fonts.len();
    let mut i: usize = 0;
    proof {
        assert(env.fonts@.skip(0) =~= env.fonts@);
    }
    while i < n
        invariant
            0 <= i <= n,
            n == env.fonts@.len(),
            lookup_face(env.fonts@, id) == lookup_face(env.fonts@.skip(i as int), id),
        decreases n - i,
    {
        proof {
            assert(env.fonts@.skip(i as int)[0] == env.fonts@[i as int]);
            assert(env.fonts@.skip(i as int).drop_first() =~= env.fonts@.skip(i + 1));
        }
        if env.fonts[i].0 == id {
            return Some(&env.fonts[i].1);
        }
        i += 1;
    }
    None
}

/// Finds the image preloaded under `id`.
pub fn find_image<'a>(env: &'a Env, id: u64) -> (r: Option<&'a ImageData>)
    ensures
        match r {
            Some(f) => lookup_image(env.images@, id) == Some(*f),
            None => lookup_image(env.images@, id) is None,
        },
{
    let n = env.images.len();
    let mut i: usize = 0;
    proof {
        assert(env.images@.skip(0) =~= env.images@);
    }
    while i < n
        invariant
            0 <= i <= n,
            n == env.images@.len(),
            lookup_image(env.images@, id) == lookup_image(env.images@.skip(i as int), id),
        decreases n - i,
    {
        proof {
            assert(env.images@.skip(i as int)[0] == env.images@[i as int]);
            assert(env.images@.skip(i as int).drop_first() =~= env.images@.skip(i + 1));
        }
        if env.images[i].0 == id {
            return Some(&env.images[i].1);
        }
        i += 1;
    }
    None
}

/// The face handles of the text elements, in element order, repeats kept.
pub open spec fn font_keys(elems: Seq<(Pos, Element)>) -> Seq<u64>
    decreases elems.len(),
{
    if elems.len() == 0 {
        Seq::empty()
    } else {
        font_keys(elems.drop_last()) + match elems.last().1 {
            Element::Text { face, .. } => seq![face],
            Element::Image { .. } => Seq::empty(),
        }
    }
}

/// The image handles of the image elements, in element order, repeats
/// kept.
pub open spec fn image_keys(elems: Seq<(Pos, Element)>) -> Seq<u64>
    decreases elems.len(),
{
    if elems.len() == 0 {
        Seq::empty()
    } else {
        image_keys(elems.drop_last()) + match elems.last().1 {
            Element::Text { .. } => Seq::empty(),
            Element::Image { res, .. } => seq![res],
        }
    }
}

/// The face handles over all pages, in scan order.
pub open spec fn pages_font_keys(pages: Seq<Page>) -> Seq<u64>
    decreases pages.len(),
{
    if pages.len() == 0 {
        Seq::empty()
    } else {
        pages_font_keys(pages.drop_last()) + font_keys(pages.last().elements@)
    }
}

/// The image handles over all pages, in scan order.
pub open spec fn pages_image_keys(pages: Seq<Page>) -> Seq<u64>
    decreases pages.len(),
{
    if pages.len() == 0 {
        Seq::empty()
    } else {
        pages_image_keys(pages.drop_last()) + image_keys(pages.last().elements@)
    }
}

/// The distinct keys in first-seen order.
pub open spec fn dedup(keys: Seq<u64>) -> Seq<u64>
    decreases keys.len(),
{
    if keys.len() == 0 {
        Seq::empty()
    } else {
        insert_key(dedup(keys.drop_last()), keys.last())
    }
}

/// Law: deduplication keeps exactly the keys that occur.
pub proof fn lemma_dedup_contains(keys: Seq<u64>, k: u64)
    ensures
        dedup(keys).contains(k) <==> keys.contains(k),
    decreases keys.len(),
{
    if keys.len() > 0 {
        let prev = keys.drop_last();
        lemma_dedup_contains(prev, k);
        assert(keys.contains(k) <==> (prev.contains(k) || keys.last() == k)) by {
            if keys.contains(k) {
                let i = choose|i: int| 0 <= i < keys.len() && keys[i] == k;
                if i < keys.len() - 1 {
                    assert(prev[i] == k);
                }
            }
            if prev.contains(k) {
                let i = choose|i: int| 0 <= i < prev.len() && prev[i] == k;
                assert(keys[i] == k);
            }
            assert(keys[keys.len() - 1] == keys.last());
        }
        let d = dedup(prev);
        assert(insert_key(d, keys.last()).contains(k) <==> (d.contains(k) || keys.last() == k))
            by {
            if d.contains(keys.last()) {
            } else {
                let t = d.push(keys.last());
                if d.contains(k) {
                    let i = choose|i: int| 0 <= i < d.len() && d[i] == k;
                    assert(t[i] == k);
                }
                assert(t[d.len() as int] == keys.last());
                if t.contains(k) {
                    let i = choose|i: int| 0 <= i < t.len() && t[i] == k;
                    if i < d.len() {
                        assert(d[i] == k);
                    }
                }
            }
        }
    }
}

/// Law: deduplication yields distinct keys.
pub proof fn lemma_dedup_distinct(keys: Seq<u64>)
    ensures
        distinct_keys(dedup(keys)),
    decreases keys.len(),
{
    if keys.len() == 0 {
        assert(distinct_keys(dedup(keys)));
    } else {
        lemma_dedup_distinct(keys.drop_last());
        let d = dedup(keys.drop_last());
        if !d.contains(keys.last()) {
            crate::remap::lemma_insert_fresh(d, keys.last());
        }
    }
}

/// A key of `a` or of `b` is a key of `a + b`.
pub proof fn lemma_contains_append(a: Seq<u64>, b: Seq<u64>, k: u64)
    ensures
        a.contains(k) ==> (a + b).contains(k),
        b.contains(k) ==> (a + b).contains(k),
{
    if a.contains(k) {
        let i = choose|i: int| 0 <= i < a.len() && a[i] == k;
        assert((a + b)[i] == k);
    }
    if b.contains(k) {
        let i = choose|i: int| 0 <= i < b.len() && b[i] == k;
        assert((a + b)[a.len() + i] == k);
    }
}

/// The face of a text element occurs among the element sequence's font
/// keys.
pub proof fn lemma_font_keys_at(elems: Seq<(Pos, Element)>, i: int, face: u64)
    requires
        0 <= i < elems.len(),
        elems[i].1 matches Element::Text { face: f, .. } && f == face,
    ensures
        font_keys(elems).contains(face),
    decreases elems.len(),
{
    let prev = elems.drop_last();
    let tail = match elems.last().1 {
        Element::Text { face: f2, .. } => seq![f2],
        Element::Image { .. } => Seq::<u64>::empty(),
    };
    if i == elems.len() - 1 {
        assert(tail[0] == face);
        lemma_contains_append(font_keys(prev), tail, face);
    } else {
        assert(prev[i] == elems[i]);
        lemma_font_keys_at(prev, i, face);
        lemma_contains_append(font_keys(prev), tail, face);
    }
}

/// The resource of an image element occurs among the element sequence's
/// image keys.
pub proof fn lemma_image_keys_at(elems: Seq<(Pos, Element)>, i: int, res: u64)
    requires
        0 <= i < elems.len(),
        elems[i].1 matches Element::Image { res: r2, .. } && r2 == res,
    ensures
        image_keys(elems).contains(res),
    decreases elems.len(),
{
    let prev = elems.drop_last();
    let tail = match elems.last().1 {
        Element::Text { .. } => Seq::<u64>::empty(),
        Element::Image { res: r2, .. } => seq![r2],
    };
    if i == elems.len() - 1 {
        assert(tail[0] == res);
        lemma_contains_append(image_keys(prev), tail, res);
    } else {
        assert(prev[i] == elems[i]);
        lemma_image_keys_at(prev, i, res);
        lemma_contains_append(image_keys(prev), tail, res);
    }
}

/// A page's font key occurs among all pages' font keys.
pub proof fn lemma_pages_font_keys_at(pages: Seq<Page>, pi: int, k: u64)
    requires
        0 <= pi < pages.len(),
        font_keys(pages[pi].elements@).contains(k),
    ensures
        pages_font_keys(pages).contains(k),
    decreases pages.len(),
{
    let prev = pages.drop_last();
    if pi == pages.len() - 1 {
        lemma_contains_append(pages_font_keys(prev), font_keys(pages.last().elements@), k);
    } else {
        assert(prev[pi] == pages[pi]);
        lemma_pages_font_keys_at(prev, pi, k);
        lemma_contains_append(pages_font_keys(prev), font_keys(pages.last().elements@), k);
    }
}

/// A page's image key occurs among all pages' image keys.
pub proof fn lemma_pages_image_keys_at(pages: Seq<Page>, pi: int, k: u64)
    requires
        0 <= pi < pages.len(),
        image_keys(pages[pi].elements@).contains(k),
    ensures
        pages_image_keys(pages).contains(k),
    decreases pages.len(),
{
    let prev = pages.drop_last();
    if pi == pages.len() - 1 {
        lemma_contains_append(pages_image_keys(prev), image_keys(pages.last().elements@), k);
    } else {
        assert(prev[pi] == pages[pi]);
        lemma_pages_image_keys_at(prev, pi, k);
        lemma_contains_append(pages_image_keys(prev), image_keys(pages.last().elements@), k);
    }
}

/// The first key, in order, whose face is not preloaded.
pub open spec fn first_missing_font(keys: Seq<u64>, env: Env) -> Option<u64>
    decreases keys.len(),
{
    if keys.len() == 0 {
        None
    } else if lookup_face(env.fonts@, keys[0]) is None {
        Some(keys[0])
    } else {
        first_missing_font(keys.drop_first(), env)
    }
}

/// The first key, in order, whose image is not preloaded.
pub open spec fn first_missing_image(keys: Seq<u64>, env: Env) -> Option<u64>
    decreases keys.len(),
{
    if keys.len() == 0 {
        None
    } else if lookup_image(env.images@, keys[0]) is None {
        Some(keys[0])
    } else {
        first_missing_image(keys.drop_first(), env)
    }
}

/// When every key before `i` is preloaded and the key at `i` is not, the
/// key at `i` is the first missing one.
pub proof fn lemma_first_missing_font_at(keys: Seq<u64>, env: Env, i: int)
    requires
        0 <= i < keys.len(),
        forall|j: int| 0 <= j < i ==> lookup_face(env.fonts@, #[trigger] keys[j]) is Some,
        lookup_face(env.fonts@, keys[i]) is None,
    ensures
        first_missing_font(keys, env) == Some(keys[i]),
    decreases keys.len(),
{
    if i > 0 {
        assert(forall|j: int|
            0 <= j < keys.drop_first().len() ==> #[trigger] keys.drop_first()[j] == keys[j + 1]);
        lemma_first_missing_font_at(keys.drop_first(), env, i - 1);
    }
}

/// When every key is preloaded, none is missing.
pub proof fn lemma_first_missing_font_none(keys: Seq<u64>, env: Env)
    requires
        forall|j: int| 0 <= j < keys.len() ==> lookup_face(env.fonts@, #[trigger] keys[j]) is Some,
    ensures
        first_missing_font(keys, env) is None,
    decreases keys.len(),
{
    if keys.len() > 0 {
        assert(forall|j: int|
            0 <= j < keys.drop_first().len() ==> #[trigger] keys.drop_first()[j] == keys[j + 1]);
        lemma_first_missing_font_none(keys.drop_first(), env);
    }
}

/// When every key before `i` is preloaded and the key at `i` is not, the
/// key at `i` is the first missing one.
pub proof fn lemma_first_missing_image_at(keys: Seq<u64>, env: Env, i: int)
    requires
        0 <= i < keys.len(),
        forall|j: int| 0 <= j < i ==> lookup_image(env.images@, #[trigger] keys[j]) is Some,
        lookup_image(env.images@, keys[i]) is None,
    ensures
        first_missing_image(keys, env) == Some(keys[i]),
    decreases keys.len(),
{
    if i > 0 {
        assert(forall|j: int|
            0 <= j < keys.drop_first().len() ==> #[trigger] keys.drop_first()[j] == keys[j + 1]);
        lemma_first_missing_image_at(keys.drop_first(), env, i - 1);
    }
}

/// When every key is preloaded, none is missing.
pub proof fn lemma_first_missing_image_none(keys: Seq<u64>, env: Env)
    requires
        forall|j: int|
            0 <= j < keys.len() ==> lookup_image(env.images@, #[trigger] keys[j]) is Some,
    ensures
        first_missing_image(keys, env) is None,
    decreases keys.len(),
{
    if keys.len() > 0 {
        assert(forall|j: int|
            0 <= j < keys.drop_first().len() ==> #[trigger] keys.drop_first()[j] == keys[j + 1]);
        lemma_first_missing_image_none(keys.drop_first(), env);
    }
}

/// Number of alpha-bearing preloaded images among `keys`, in order.
pub open spec fn mask_count(keys: Seq<u64>, env: Env) -> int
    decreases keys.len(),
{
    if keys.len() == 0 {
        0
    } else {
        mask_count(keys.drop_last(), env) + match lookup_image(env.images@, keys.last()) {
            Some(img) => if img.has_alpha {
                1int
            } else {
                0int
            },
            None => 0int,
        }
    }
}

/// The alpha count of a prefix is at most the alpha count of the whole,
/// and both are non-negative.
pub proof fn lemma_mask_count_prefix(keys: Seq<u64>, env: Env, i: int)
    requires
        0 <= i <= keys.len(),
    ensures
        0 <= mask_count(keys.take(i), env) <= mask_count(keys, env),
        mask_count(keys, env) <= keys.len(),
    decreases keys.len(),
{
    if keys.len() == 0 {
        assert(keys.take(i) =~= keys);
    } else {
        lemma_mask_count_prefix(keys.drop_last(), env, if i <= keys.len() - 1 {
            i
        } else {
            keys.len() - 1
        });
        if i <= keys.len() - 1 {
            assert(keys.take(i) =~= keys.drop_last().take(i));
        } else {
            assert(keys.take(i) =~= keys);
        }
    }
}

/// The distinct font handles of the input, in first-seen order.
pub open spec fn export_fonts(pages: Seq<Page>) -> Seq<u64> {
    dedup(pages_font_keys(pages))
}

/// The distinct image handles of the input, in first-seen order.
pub open spec fn export_images(pages: Seq<Page>) -> Seq<u64> {
    dedup(pages_image_keys(pages))
}

/// The identifier ranges the input receives.
pub open spec fn export_refs(pages: Seq<Page>, env: Env) -> Refs {
    spec_refs(
        pages.len() as int,
        export_fonts(pages).len() as int,
        export_images(pages).len() as int,
        mask_count(export_images(pages), env),
    )
}

/// A page object: its identifier, its parent page tree, its media box
/// size, and its content stream.
#[derive(Clone, Copy, Debug, PartialEq, Eq, Structural)]
pub struct PageObject {
    pub id: i32,
    pub parent: i32,
    pub width: i64,
    pub height: i64,
    pub content_id: i32,
}

/// One page's content stream: its identifier and its instructions.
#[derive(Clone, Debug, PartialEq, Eq)]
pub struct ContentStream {
    pub id: i32,
    pub ops: Vec<Op>,
}

/// The complete document object graph, ready for a document writer.
#[derive(Clone, Debug, PartialEq, Eq)]
pub struct Document {
    /// The allocated identifier ranges; the catalog is `refs.catalog` and
    /// references `refs.page_tree`.
    pub refs: Refs,
    /// The shared resource dictionary's font entries: `F<index>` mapped to
    /// the composite font's identifier.
    pub font_resources: Vec<(usize, i32)>,
    /// The shared resource dictionary's image entries: `Im<index>` mapped
    /// to the color image's identifier.
    pub image_resources: Vec<(usize, i32)>,
    pub pages: Vec<PageObject>,
    pub contents: Vec<ContentStream>,
    pub fonts: Vec<FontObject>,
    pub images: Vec<ImageObject>,
}

/// The document graph that the input and environment determine: ranges
/// from the scan counts, resource names from the dense indices, one page
/// object and content stream per page, one font object per distinct face,
/// one image object per distinct image with masks numbered in encounter
/// order among alpha-bearing images.
pub open spec fn doc_matches(doc: Document, pages: Seq<Page>, env: Env) -> bool {
    let fonts = export_fonts(pages);
    let images = export_images(pages);
    let refs = export_refs(pages, env);
    &&& doc.refs == refs
    &&& doc.font_resources@.len() == fonts.len()
    &&& forall|i: int|
        0 <= i < fonts.len() ==> #[trigger] doc.font_resources@[i] == (
            i as usize,
            spec_font_group(refs, i).type0_font,
        )
    &&& doc.image_resources@.len() == images.len()
    &&& forall|i: int|
        0 <= i < images.len() ==> #[trigger] doc.image_resources@[i] == (
            i as usize,
            (refs.images_start + i) as i32,
        )
    &&& doc.pages@.len() == pages.len()
    &&& forall|i: int|
        0 <= i < pages.len() ==> #[trigger] doc.pages@[i] == (PageObject {
            id: (refs.pages_start + i) as i32,
            parent: refs.page_tree,
            width: pages[i].width,
            height: pages[i].height,
            content_id: (refs.contents_start + i) as i32,
        })
    &&& doc.contents@.len() == pages.len()
    &&& forall|i: int|
        0 <= i < pages.len() ==> (#[trigger] doc.contents@[i]).id == refs.contents_start + i
            && ops_view(doc.contents@[i].ops@) == spec_page_ops(pages[i], fonts, images)
    &&& doc.fonts@.len() == fonts.len()
    &&& forall|i: int|
        0 <= i < fonts.len() ==> (lookup_face(env.fonts@, fonts[i]) matches Some(f)
            && font_obj_matches(#[trigger] doc.fonts@[i], f, spec_font_group(refs, i)))
    &&& doc.images@.len() == images.len()
    &&& forall|i: int|
        0 <= i < images.len() ==> (lookup_image(env.images@, images[i]) matches Some(img)
            && image_obj_matches(
            #[trigger] doc.images@[i],
            img,
            (refs.images_start + i) as i32,
            (refs.alpha_masks_start + mask_count(images.take(i), env)) as i32,
        ))
}

/// The error that the input and environment determine: the first image
/// handle, in scan order, whose image is not preloaded, else the first
/// face handle whose face is not preloaded.
pub open spec fn spec_export_err(pages: Seq<Page>, env: Env) -> Error {
    match first_missing_image(export_images(pages), env) {
        Some(id) => Error::MissingResource(ResourceKind::Image, id),
        None => match first_missing_font(export_fonts(pages), env) {
            Some(id) => Error::MissingResource(ResourceKind::Font, id),
            None => Error::UnknownResource,
        },
    }
}

/// Exports laid-out pages against the preloaded environment, producing
/// the complete document object graph in one forward pass: scan, allocate,
/// then write structure, content streams, fonts and images in order.
///
/// Succeeds exactly when every referenced face and image is preloaded, and
/// fails with `MissingResource` naming the first missing resource
/// otherwise.
#[verifier::loop_isolation(false)]
#[verifier::rlimit(100)]
pub fn export(pages: &Vec<Page>, env: &Env) -> (r: Result<Document, Error>)
    requires
        env_wf(*env),
        forall|i: int| 0 <= i < pages@.len() ==> page_wf(#[trigger] pages@[i]),
        spec_end(
            pages@.len() as int,
            export_fonts(pages@).len() as int,
            export_images(pages@).len() as int,
            mask_count(export_images(pages@), *env),
        ) <= i32::MAX,
    ensures
        r is Ok <==> (first_missing_image(export_images(pages@), *env) is None
            && first_missing_font(export_fonts(pages@), *env) is None),
        r matches Ok(doc) ==> doc_matches(doc, pages@, *env),
        r matches Err(e) ==> e == spec_export_err(pages@, *env),
{
    let np = pages.len();

    // Scan: discover distinct fonts and images in first-seen order.
    let mut fonts = Remapper::new();
    let mut images = Remapper::new();
    proof {
        assert(pages@.take(0) =~= Seq::<Page>::empty());
    }
    let mut pi: usize = 0;
    while pi < np
        invariant
            0 <= pi <= np,
            fonts.wf(),
            images.wf(),
            fonts@ == dedup(pages_font_keys(pages@.take(pi as int))),
            images@ == dedup(pages_image_keys(pages@.take(pi as int))),
        decreases np - pi,
    {
        let page = &pages[pi];
        let ne = page.elements.len();
        let ghost base_f = pages_font_keys(pages@.take(pi as int));
        let ghost base_i = pages_image_keys(pages@.take(pi as int));
        let ghost elems = page.elements@;
        proof {
            assert(elems.take(0) =~= Seq::<(Pos, Element)>::empty());
            assert(base_f + font_keys(elems.take(0)) =~= base_f);
            assert(base_i + image_keys(elems.take(0)) =~= base_i);
        }
        let mut ei: usize = 0;
        while ei < ne
            invariant
                0 <= ei <= ne,
                fonts.wf(),
                images.wf(),
                fonts@ == dedup(base_f + font_keys(elems.take(ei as int))),
                images@ == dedup(base_i + image_keys(elems.take(ei as int))),
            decreases ne - ei,
        {
            proof {
                assert(elems.take(ei + 1).drop_last() =~= elems.take(ei as int));
                assert(elems.take(ei + 1).last() == elems[ei as int]);
            }
            match &page.elements[ei].1 {
                Element::Text { face, .. } => {
                    fonts.insert(*face);
                    proof {
                        let s = base_f + font_keys(elems.take(ei as int));
                        assert(base_f + font_keys(elems.take(ei + 1)) =~= s.push(*face));
                        assert(s.push(*face).drop_last() =~= s);
                        assert(base_i + image_keys(elems.take(ei + 1)) =~= base_i + image_keys(
                            elems.take(ei as int),
                        ));
                    }
                },
                Element::Image { res, .. } => {
                    images.insert(*res);
                    proof {
                        let s = base_i + image_keys(elems.take(ei as int));
                        assert(base_i + image_keys(elems.take(ei + 1)) =~= s.push(*res));
                        assert(s.push(*res).drop_last() =~= s);
                        assert(base_f + font_keys(elems.take(ei + 1)) =~= base_f + font_keys(
                            elems.take(ei as int),
                        ));
                    }
                },
            }
            ei += 1;
        }
        proof {
            assert(elems.take(ne as int) =~= elems);
            assert(pages@.take(pi + 1).drop_last() =~= pages@.take(pi as int));
            assert(pages@.take(pi + 1).last() == pages@[pi as int]);
        }
        pi += 1;
    }
    proof {
        assert(pages@.take(np as int) =~= pages@);
    }

    // Check that every image is preloaded and count the alpha-bearing
    // ones; the first missing image fails the export.
    let image_list = images.layout_indices();
    let ni = image_list.len();
    let mut masks: usize = 0;
    proof {
        assert(images@.take(0) =~= Seq::<u64>::empty());
    }
    let mut ii: usize = 0;
    while ii < ni
        invariant
            0 <= ii <= ni,
            masks <= ii,
            masks as int == mask_count(images@.take(ii as int), *env),
            forall|j: int| 0 <= j < ii ==> lookup_image(env.images@, #[trigger] images@[j]) is Some,
        decreases ni - ii,
    {
        proof {
            assert(images@.take(ii + 1).drop_last() =~= images@.take(ii as int));
            assert(images@.take(ii + 1).last() == images@[ii as int]);
        }
        match find_image(env, image_list[ii]) {
            Some(img) => {
                if img.has_alpha {
                    masks += 1;
                }
            },
            None => {
                proof {
                    lemma_first_missing_image_at(images@, *env, ii as int);
                }
                return Err(Error::MissingResource(ResourceKind::Image, image_list[ii]));
            },
        }
        ii += 1;
    }
    proof {
        assert(images@.take(ni as int) =~= images@);
        lemma_first_missing_image_none(images@, *env);
    }

    // Allocate every identifier range up front.
    let refs = Refs::new(np, fonts.len(), images.len(), masks);
    let ghost grefs = export_refs(pages@, *env);
    proof {
        assert(refs == grefs);
    }

    // Shared resource dictionary entries.
    let font_groups = refs.fonts();
    let nf = fonts.len();
    proof {
        vstd::arithmetic::div_mod::lemma_fundamental_div_mod_converse(5 * nf as int, 5, nf as int, 0);
        assert(font_groups@.len() == nf);
    }
    let mut font_resources: Vec<(usize, i32)> = Vec::new();
    let mut fi: usize = 0;
    while fi < nf
        invariant
            0 <= fi <= nf,
            font_resources@.len() == fi,
            forall|j: int|
                0 <= j < fi ==> #[trigger] font_resources@[j] == (
                    j as usize,
                    spec_font_group(grefs, j).type0_font,
                ),
        decreases nf - fi,
    {
        font_resources.push((fi, font_groups[fi].type0_font));
        fi += 1;
    }
    let image_ids = refs.images();
    proof {
        assert(image_ids@.len() == ni);
    }
    let mut image_resources: Vec<(usize, i32)> = Vec::new();
    let mut ir: usize = 0;
    while ir < ni
        invariant
            0 <= ir <= ni,
            image_resources@.len() == ir,
            forall|j: int|
                0 <= j < ir ==> #[trigger] image_resources@[j] == (
                    j as usize,
                    (grefs.images_start + j) as i32,
                ),
        decreases ni - ir,
    {
        image_resources.push((ir, image_ids[ir]));
        ir += 1;
    }

    // Page objects.
    let page_ids = refs.pages();
    let content_ids = refs.contents();
    let mut page_objs: Vec<PageObject> = Vec::new();
    let mut pj: usize = 0;
    while pj < np
        invariant
            0 <= pj <= np,
            page_objs@.len() == pj,
            forall|j: int|
                0 <= j < pj ==> #[trigger] page_objs@[j] == (PageObject {
                    id: (grefs.pages_start + j) as i32,
                    parent: grefs.page_tree,
                    width: pages@[j].width,
                    height: pages@[j].height,
                    content_id: (grefs.contents_start + j) as i32,
                }),
        decreases np - pj,
    {
        page_objs.push(
            PageObject {
                id: page_ids[pj],
                parent: refs.page_tree,
                width: pages[pj].width,
                height: pages[pj].height,
                content_id: content_ids[pj],
            },
        );
        pj += 1;
    }

    // Content streams, one per page, elements in their given order.
    let mut contents: Vec<ContentStream> = Vec::new();
    let mut pk: usize = 0;
    while pk < np
        invariant
            0 <= pk <= np,
            contents@.len() == pk,
            forall|j: int|
                0 <= j < pk ==> (#[trigger] contents@[j]).id == grefs.contents_start + j
                    && ops_view(contents@[j].ops@) == spec_page_ops(pages@[j], fonts@, images@),
        decreases np - pk,
    {
        proof {
            let elems = pages@[pk as int].elements@;
            assert forall|j: int| 0 <= j < elems.len() implies (match #[trigger] elems[j].1 {
                Element::Text { face, .. } => fonts@.contains(face),
                Element::Image { res, .. } => images@.contains(res),
            }) by {
                match elems[j].1 {
                    Element::Text { face, .. } => {
                        lemma_font_keys_at(elems, j, face);
                        lemma_pages_font_keys_at(pages@, pk as int, face);
                        lemma_dedup_contains(pages_font_keys(pages@), face);
                    },
                    Element::Image { res, .. } => {
                        lemma_image_keys_at(elems, j, res);
                        lemma_pages_image_keys_at(pages@, pk as int, res);
                        lemma_dedup_contains(pages_image_keys(pages@), res);
                    },
                }
            }
            assert(page_keys_known(elems, fonts@, images@));
        }
        match page_ops(&pages[pk], &fonts, &images) {
            Ok(ops) => {
                contents.push(ContentStream { id: content_ids[pk], ops });
            },
            Err(e) => {
                proof {
                    assert(false);
                }
                return Err(e);
            },
        }
        pk += 1;
    }

    // Font objects; the first missing face fails the export.
    let font_list = fonts.layout_indices();
    let mut font_objs: Vec<FontObject> = Vec::new();
    let mut fk: usize = 0;
    while fk < nf
        invariant
            0 <= fk <= nf,
            font_objs@.len() == fk,
            forall|j: int| 0 <= j < fk ==> lookup_face(env.fonts@, #[trigger] fonts@[j]) is Some,
            forall|j: int|
                0 <= j < fk ==> (lookup_face(env.fonts@, fonts@[j]) matches Some(f)
                    && font_obj_matches(#[trigger] font_objs@[j], f, spec_font_group(grefs, j))),
        decreases nf - fk,
    {
        match find_face(env, font_list[fk]) {
            Some(face) => {
                proof {
                    lemma_lookup_face_wf(env.fonts@, fonts@[fk as int]);
                }
                font_objs.push(build_font_object(face, font_groups[fk]));
            },
            None => {
                proof {
                    lemma_first_missing_font_at(fonts@, *env, fk as int);
                }
                return Err(Error::MissingResource(ResourceKind::Font, font_list[fk]));
            },
        }
        fk += 1;
    }
    proof {
        lemma_first_missing_font_none(fonts@, *env);
    }

    // Image objects, masks numbered in encounter order among
    // alpha-bearing images.
    let mut image_objs: Vec<ImageObject> = Vec::new();
    let mut mask_ix: usize = 0;
    let mut ik: usize = 0;
    proof {
        assert(images@.take(0) =~= Seq::<u64>::empty());
    }
    while ik < ni
        invariant
            0 <= ik <= ni,
            image_objs@.len() == ik,
            mask_ix as int == mask_count(images@.take(ik as int), *env),
            forall|j: int|
                0 <= j < ik ==> (lookup_image(env.images@, images@[j]) matches Some(img)
                    && image_obj_matches(
                    #[trigger] image_objs@[j],
                    img,
                    (grefs.images_start + j) as i32,
                    (grefs.alpha_masks_start + mask_count(images@.take(j), *env)) as i32,
                )),
        decreases ni - ik,
    {
        proof {
            assert(images@.take(ik + 1).drop_last() =~= images@.take(ik as int));
            assert(images@.take(ik + 1).last() == images@[ik as int]);
            lemma_mask_count_prefix(images@, *env, ik as int);
            lemma_mask_count_prefix(images@, *env, ik + 1);
        }
        match find_image(env, image_list[ik]) {
            Some(img) => {
                proof {
                    lemma_lookup_image_wf(env.images@, images@[ik as int]);
                }
                let mid: i32 = if img.has_alpha {
                    refs.alpha_mask(mask_ix)
                } else {
                    0
                };
                image_objs.push(build_image_object(img, image_ids[ik], mid));
                if img.has_alpha {
                    mask_ix += 1;
                }
            },
            None => {
                proof {
                    assert(false);
                }
                return Err(Error::UnknownResource);
            },
        }
        ik += 1;
    }
    proof {
        assert(images@.take(ni as int) =~= images@);
    }

    let doc = Document {
        refs,
        font_resources,
        image_resources,
        pages: page_objs,
        contents,
        fonts: font_objs,
        images: image_objs,
    };
    proof {
        assert(doc_matches(doc, pages@, *env));
    }
    Ok(doc)
}

/// Field-by-field sameness of two font objects, at the level of views.
pub open spec fn font_obj_equiv(a: FontObject, b: FontObject) -> bool {
    &&& a.refs == b.refs
    &&& a.base_font@ == b.base_font@
    &&& a.flags == b.flags
    &&& a.bbox_x_min == b.bbox_x_min
    &&& a.bbox_y_min == b.bbox_y_min
    &&& a.bbox_x_max == b.bbox_x_max
    &&& a.bbox_y_max == b.bbox_y_max
    &&& a.italic_angle_milli == b.italic_angle_milli
    &&& a.ascent == b.ascent
    &&& a.descent == b.descent
    &&& a.cap_height == b.cap_height
    &&& a.stem_v_milli == b.stem_v_milli
    &&& a.widths@ == b.widths@
    &&& a.cmap_pairs@ == b.cmap_pairs@
    &&& a.data@ == b.data@
}

/// Field-by-field sameness of two image objects, at the level of views.
pub open spec fn image_obj_equiv(a: ImageObject, b: ImageObject) -> bool {
    &&& a.id == b.id
    &&& a.width == b.width
    &&& a.height == b.height
    &&& a.rgb@ == b.rgb@
    &&& match (a.mask, b.mask) {
        (Some(m1), Some(m2)) => m1.id == m2.id && m1.samples@ == m2.samples@,
        (None, None) => true,
        _ => false,
    }
}

/// Field-by-field sameness of two documents, at the level of views.
pub open spec fn doc_equiv(d1: Document, d2: Document) -> bool {
    &&& d1.refs == d2.refs
    &&& d1.font_resources@ == d2.font_resources@
    &&& d1.image_resources@ == d2.image_resources@
    &&& d1.pages@ == d2.pages@
    &&& d1.contents@.len() == d2.contents@.len()
    &&& forall|i: int|
        0 <= i < d1.contents@.len() ==> (#[trigger] d1.contents@[i]).id == d2.contents@[i].id
            && ops_view(d1.contents@[i].ops@) == ops_view(d2.contents@[i].ops@)
    &&& d1.fonts@.len() == d2.fonts@.len()
    &&& forall|i: int|
        0 <= i < d1.fonts@.len() ==> font_obj_equiv(#[trigger] d1.fonts@[i], d2.fonts@[i])
    &&& d1.images@.len() == d2.images@.len()
    &&& forall|i: int|
        0 <= i < d1.images@.len() ==> image_obj_equiv(#[trigger] d1.images@[i], d2.images@[i])
}

/// Law: the export is deterministic — two documents produced from the
/// same pages and the same environment are identical, field by field.  A
/// deterministic document writer therefore yields byte-identical output
/// for repeated exports of the same input.
pub proof fn lemma_export_deterministic(pages: Seq<Page>, env: Env, d1: Document, d2: Document)
    requires
        doc_matches(d1, pages, env),
        doc_matches(d2, pages, env),
    ensures
        doc_equiv(d1, d2),
{
    assert(d1.font_resources@ =~= d2.font_resources@);
    assert(d1.image_resources@ =~= d2.image_resources@);
    assert(d1.pages@ =~= d2.pages@);
}

} // verus!
