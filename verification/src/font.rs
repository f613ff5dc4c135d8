//! Font embedding: descriptor metadata, widths, and the Unicode back-map.
//!
//! Each distinct face yields one five-object group: the composite font,
//! the descendant font, the descriptor, the Unicode map and the raw font
//! program.  All metadata is derived from plain values the face reports;
//! metrics are converted with [`crate::metrics::spec_convert`].

use vstd::prelude::*;

use crate::metrics::{
    font_flags, spec_convert, spec_font_flags, spec_stem_v_milli, stem_v_milli, convert_i16,
    convert_u16, DEFAULT_UNITS_PER_EM,
};
use crate::refs::FontRefs;

verus! {

/// What the embedder reads of one font face, as plain values.
#[derive(Clone, Debug, PartialEq, Eq)]
pub struct FaceData {
    /// The face's PostScript name, as bytes, if it has one.
    pub postscript_name: Option<Vec<u8>>,
    /// Font units per em; a face reporting none falls back to 1000.
    pub units_per_em: Option<u16>,
    pub monospaced: bool,
    pub italic: bool,
    /// Italic angle in thousandths of a degree, passed through unchanged.
    pub italic_angle_milli: i64,
    /// Typographic ascender in font units (0 when unreported).
    pub ascender: i16,
    /// Typographic descender in font units (0 when unreported).
    pub descender: i16,
    /// Capital height in font units, if the face reports one.
    pub cap_height: Option<i16>,
    /// Numeric weight class.
    pub weight: u16,
    pub bbox_x_min: i16,
    pub bbox_y_min: i16,
    pub bbox_x_max: i16,
    pub bbox_y_max: i16,
    /// Number of glyphs; glyph identifiers run `0 .. num_glyphs`.
    pub num_glyphs: u16,
    /// Advance width per glyph identifier, in font units (0 when
    /// unreported).
    pub advances: Vec<u16>,
    /// Character-mapping entries in subtable order: each covered codepoint
    /// with the glyph it maps to, if any.
    pub cmap: Vec<(u32, Option<u16>)>,
    /// The raw font program, embedded verbatim.
    pub data: Vec<u8>,
}

/// A reported units-per-em value is positive, and there is one advance
/// width per glyph.
pub open spec fn face_wf(f: FaceData) -> bool {
    &&& (f.units_per_em matches Some(u) ==> u >= 1)
    &&& f.advances@.len() == f.num_glyphs
}

/// The face's units per em, with the fallback applied.
pub open spec fn spec_upm(f: FaceData) -> int {
    match f.units_per_em {
        Some(u) => u as int,
        None => DEFAULT_UNITS_PER_EM as int,
    }
}

/// The subset tag prefixed to every embedded font's name.
pub open spec fn subset_tag() -> Seq<u8> {
    seq![65u8, 66u8, 67u8, 68u8, 69u8, 70u8, 43u8]
}

/// The name used when a face reports no PostScript name.
pub open spec fn unknown_name() -> Seq<u8> {
    seq![117u8, 110u8, 107u8, 110u8, 111u8, 119u8, 110u8]
}

/// The bytes whose presence in the derived name sets the serif flag.
pub open spec fn serif_pattern() -> Seq<u8> {
    seq![83u8, 101u8, 114u8, 105u8, 102u8]
}

/// The subset-tag-prefixed display name of a face.
pub open spec fn spec_display_name(f: FaceData) -> Seq<u8> {
    subset_tag() + match f.postscript_name {
        Some(n) => n@,
        None => unknown_name(),
    }
}

/// `p` occurs in `s` starting at position `i`.
pub open spec fn is_substring_at(s: Seq<u8>, p: Seq<u8>, i: int) -> bool {
    &&& 0 <= i
    &&& i + p.len() <= s.len()
    &&& s.subrange(i, i + p.len()) == p
}

/// `p` occurs somewhere in `s`.
pub open spec fn contains_seq(s: Seq<u8>, p: Seq<u8>) -> bool {
    exists|i: int| is_substring_at(s, p, i)
}

/// Substring search: whether `p` occurs in `s`.
pub fn contains_bytes(s: &Vec<u8>, p: &Vec<u8>) -> (r: bool)
    ensures
        r == contains_seq(s@, p@),
{
    let n = s.len();
    let m = p.len();
    if m > n {
        proof {
            assert(forall|i: int| !is_substring_at(s@, p@, i));
        }
        return false;
    }
    if m == 0 {
        proof {
            assert(s@.subrange(0, 0) =~= p@);
            assert(is_substring_at(s@, p@, 0));
        }
        return true;
    }
    let mut i: usize = 0;
    while i <= n - m
        invariant
            0 <= i <= n - m + 1,
            1 <= m <= n,
            n == s@.len(),
            m == p@.len(),
            forall|i2: int| 0 <= i2 < i ==> !is_substring_at(s@, p@, i2),
        decreases n - m + 1 - i,
    {
        let mut j: usize = 0;
        let mut matches_here: bool = true;
        while j < m
            invariant
                0 <= j <= m,
                0 <= i <= n - m,
                m <= n,
                n == s@.len(),
                m == p@.len(),
                matches_here ==> forall|j2: int| 0 <= j2 < j ==> s@[i + j2] == p@[j2],
                !matches_here ==> !is_substring_at(s@, p@, i as int),
            decreases m - j,
        {
            if s[i + j] != p[j] {
                proof {
                    if is_substring_at(s@, p@, i as int) {
                        assert(s@.subrange(i as int, i + p@.len())[j as int] == p@[j as int]);
                    }
                }
                matches_here = false;
                j = m;
            } else {
                j += 1;
            }
        }
        if matches_here {
            proof {
                assert(s@.subrange(i as int, i + p@.len()) =~= p@);
                assert(is_substring_at(s@, p@, i as int));
            }
            return true;
        }
        i += 1;
    }
    proof {
        assert(forall|i2: int| is_substring_at(s@, p@, i2) ==> 0 <= i2 <= n - m);
    }
    false
}

/// A byte-for-byte copy of `v`.
pub fn copy_bytes(v: &Vec<u8>) -> (r: Vec<u8>)
    ensures
        r@ == v@,
{
    let n = v.len();
    let mut out: Vec<u8> = Vec::new();
    let mut i: usize = 0;
    while i < n
        invariant
            0 <= i <= n,
            n == v@.len(),
            out@.len() == i,
            forall|k: int| 0 <= k < i ==> out@[k] == v@[k],
        decreases n - i,
    {
        out.push(v[i]);
        i += 1;
    }
    proof {
        assert(out@ =~= v@);
    }
    out
}

/// The five bytes of [`serif_pattern`].
pub fn serif_pattern_bytes() -> (r: Vec<u8>)
    ensures
        r@ == serif_pattern(),
{
    let mut out: Vec<u8> = Vec::new();
    out.push(83u8);
    out.push(101u8);
    out.push(114u8);
    out.push(105u8);
    out.push(102u8);
    proof {
        assert(out@ =~= serif_pattern());
    }
    out
}

/// Derives the subset-tag-prefixed display name, falling back to
/// `unknown` when the face reports no PostScript name.
pub fn display_name(f: &FaceData) -> (r: Vec<u8>)
    ensures
        r@ == spec_display_name(*f),
{
    let mut out: Vec<u8> = Vec::new();
    out.push(65u8);
    out.push(66u8);
    out.push(67u8);
    out.push(68u8);
    out.push(69u8);
    out.push(70u8);
    out.push(43u8);
    proof {
        assert(out@ =~= subset_tag());
    }
    let ghost prefix = out@;
    match &f.postscript_name {
        Some(name) => {
            let n = name.len();
            let mut i: usize = 0;
            while i < n
                invariant
                    0 <= i <= n,
                    n == name@.len(),
                    out@ == prefix + name@.take(i as int),
                decreases n - i,
            {
                out.push(name[i]);
                proof {
                    assert(out@ =~= prefix + name@.take(i + 1));
                }
                i += 1;
            }
            proof {
                assert(name@.take(n as int) =~= name@);
            }
        },
        None => {
            out.push(117u8);
            out.push(110u8);
            out.push(107u8);
            out.push(110u8);
            out.push(111u8);
            out.push(119u8);
            out.push(110u8);
            proof {
                assert(out@ =~= prefix + unknown_name());
            }
        },
    }
    out
}

/// A codepoint that is a valid Unicode scalar value.
pub open spec fn valid_codepoint(n: int) -> bool {
    (0 <= n < 0xD800) || (0xE000 <= n <= 0x10FFFF)
}

/// The Unicode back-map derived from the character-mapping entries: for
/// every covered codepoint that is a valid scalar value and maps to a
/// glyph, the `(glyph, codepoint)` pair, in subtable order (duplicates for
/// a glyph are kept; the renderer's last-seen entry wins).
pub open spec fn spec_cmap_pairs(entries: Seq<(u32, Option<u16>)>) -> Seq<(u16, u32)>
    decreases entries.len(),
{
    if entries.len() == 0 {
        Seq::empty()
    } else {
        spec_cmap_pairs(entries.drop_last()) + match entries.last() {
            (n, Some(g)) => if valid_codepoint(n as int) {
                seq![(g, n)]
            } else {
                Seq::empty()
            },
            (n, None) => Seq::empty(),
        }
    }
}

/// Builds the Unicode back-map pairs.
pub fn build_cmap_pairs(entries: &Vec<(u32, Option<u16>)>) -> (r: Vec<(u16, u32)>)
    ensures
        r@ == spec_cmap_pairs(entries@),
{
    let n = entries.len();
    let mut out: Vec<(u16, u32)> = Vec::new();
    let mut i: usize = 0;
    proof {
        assert(entries@.take(0) =~= Seq::<(u32, Option<u16>)>::empty());
    }
    while i < n
        invariant
            0 <= i <= n,
            n == entries@.len(),
            out@ == spec_cmap_pairs(entries@.take(i as int)),
        decreases n - i,
    {
        let (cp, glyph) = entries[i];
        match glyph {
            Some(g) => {
                if cp < 0xD800 || (0xE000 <= cp && cp <= 0x10FFFF) {
                    out.push((g, cp));
                }
            },
            None => {},
        }
        proof {
            assert(entries@.take(i + 1).drop_last() =~= entries@.take(i as int));
            assert(entries@.take(i + 1).last() == entries@[i as int]);
            assert(out@ =~= spec_cmap_pairs(entries@.take(i + 1)));
        }
        i += 1;
    }
    proof {
        assert(entries@.take(n as int) =~= entries@);
    }
    out
}

/// The converted advance-width table: one entry per glyph identifier from
/// 0 to the face's glyph count.
pub open spec fn spec_widths(f: FaceData) -> Seq<i64> {
    Seq::new(f.num_glyphs as nat, |g: int| spec_convert(f.advances@[g] as int, spec_upm(f)) as i64)
}

/// Builds the glyph-width table.
pub fn glyph_widths(f: &FaceData) -> (r: Vec<i64>)
    requires
        face_wf(*f),
    ensures
        r@ == spec_widths(*f),
{
    let upm: u16 = match f.units_per_em {
        Some(u) => u,
        None => DEFAULT_UNITS_PER_EM,
    };
    let n = f.advances.len();
    let mut out: Vec<i64> = Vec::new();
    let mut g: usize = 0;
    while g < n
        invariant
            0 <= g <= n,
            n == f.advances@.len(),
            face_wf(*f),
            upm as int == spec_upm(*f),
            out@.len() == g,
            forall|k: int|
                0 <= k < g ==> out@[k] == spec_convert(f.advances@[k] as int, spec_upm(*f)),
        decreases n - g,
    {
        out.push(convert_u16(f.advances[g], upm));
        g += 1;
    }
    proof {
        assert(out@ =~= spec_widths(*f));
    }
    out
}

/// The embedding data of one font: its five identifiers and everything
/// the document writer needs to emit the five objects.  `stem_v` and the
/// italic angle are integers in thousandths.
#[derive(Clone, Debug, PartialEq, Eq)]
pub struct FontObject {
    pub refs: FontRefs,
    /// The subset-tag-prefixed display name.
    pub base_font: Vec<u8>,
    /// Descriptor flag word.
    pub flags: u32,
    pub bbox_x_min: i64,
    pub bbox_y_min: i64,
    pub bbox_x_max: i64,
    pub bbox_y_max: i64,
    pub italic_angle_milli: i64,
    pub ascent: i64,
    pub descent: i64,
    pub cap_height: i64,
    pub stem_v_milli: i64,
    /// Converted advance width per glyph identifier.
    pub widths: Vec<i64>,
    /// The Unicode back-map: `(glyph, codepoint)` pairs.
    pub cmap_pairs: Vec<(u16, u32)>,
    /// The raw font program, verbatim.
    pub data: Vec<u8>,
}

/// A font object carries exactly the embedding data derived from the face,
/// under the given identifier group.
pub open spec fn font_obj_matches(r: FontObject, f: FaceData, refs: FontRefs) -> bool {
    &&& r.refs == refs
    &&& r.base_font@ == spec_display_name(f)
    &&& r.flags == spec_font_flags(
        contains_seq(spec_display_name(f), serif_pattern()),
        f.monospaced,
        f.italic,
    )
    &&& r.bbox_x_min == spec_convert(f.bbox_x_min as int, spec_upm(f))
    &&& r.bbox_y_min == spec_convert(f.bbox_y_min as int, spec_upm(f))
    &&& r.bbox_x_max == spec_convert(f.bbox_x_max as int, spec_upm(f))
    &&& r.bbox_y_max == spec_convert(f.bbox_y_max as int, spec_upm(f))
    &&& r.italic_angle_milli == f.italic_angle_milli
    &&& r.ascent == spec_convert(f.ascender as int, spec_upm(f))
    &&& r.descent == spec_convert(f.descender as int, spec_upm(f))
    &&& r.cap_height == match f.cap_height {
        Some(c) => spec_convert(c as int, spec_upm(f)),
        None => spec_convert(f.ascender as int, spec_upm(f)),
    }
    &&& r.stem_v_milli == spec_stem_v_milli(f.weight as int)
    &&& r.widths@ == spec_widths(f)
    &&& r.cmap_pairs@ == spec_cmap_pairs(f.cmap@)
    &&& r.data@ == f.data@
}

/// Derives the embedding data of one face for the given identifier group.
pub fn build_font_object(f: &FaceData, refs: FontRefs) -> (r: FontObject)
    requires
        face_wf(*f),
    ensures
        font_obj_matches(r, *f, refs),
{
    let name = display_name(f);
    let pattern = serif_pattern_bytes();
    let serif = contains_bytes(&name, &pattern);
    let flags = font_flags(serif, f.monospaced, f.italic);
    let upm: u16 = match f.units_per_em {
        Some(u) => u,
        None => DEFAULT_UNITS_PER_EM,
    };
    let ascent = convert_i16(f.ascender, upm);
    let cap_height = match f.cap_height {
        Some(c) => convert_i16(c, upm),
        None => ascent,
    };
    FontObject {
        refs,
        base_font: name,
        flags,
        bbox_x_min: convert_i16(f.bbox_x_min, upm),
        bbox_y_min: convert_i16(f.bbox_y_min, upm),
        bbox_x_max: convert_i16(f.bbox_x_max, upm),
        bbox_y_max: convert_i16(f.bbox_y_max, upm),
        italic_angle_milli: f.italic_angle_milli,
        ascent,
        descent: convert_i16(f.descender, upm),
        cap_height,
        stem_v_milli: stem_v_milli(f.weight),
        widths: glyph_widths(f),
        cmap_pairs: build_cmap_pairs(&f.cmap),
        data: copy_bytes(&f.data),
    }
}

} // verus!
