//! The canvas document: the engine's output.
//!
//! A chart layout is an ordered sequence of drawing primitives in a fixed
//! logical coordinate space, counted in milli-pixels.  The document owns no
//! resources and serializes to SVG markup by [`render`], whose result is
//! pinned character by character by [`render_doc`].

use vstd::prelude::*;
use crate::num::{fmt_milli_1dp, milli_1dp};

verus! {

/// One drawing primitive.  Geometry is in milli-pixels; `attrs` carries the
/// remaining presentation attributes (fill, stroke, class) as ready-made
/// markup text.
pub enum Prim {
    /// Literal markup: document header, style block, group open/close.
    Raw { markup: String },
    /// An axis-aligned rectangle.
    Rect { x: i64, y: i64, w: i64, h: i64, attrs: String },
    /// A filled circle.
    Circle { cx: i64, cy: i64, r: i64, attrs: String },
    /// A straight line segment.
    Line { x1: i64, y1: i64, x2: i64, y2: i64, attrs: String },
    /// A text label anchored at a point.
    Text { x: i64, y: i64, attrs: String, content: String },
    /// A free-form path with pre-built path data.
    Path { d: String, attrs: String },
}

impl Prim {
    /// Every coordinate can be rendered (the formatter excludes only
    /// `i64::MIN`, whose magnitude has no `i64` counterpart).
    pub open spec fn wf(&self) -> bool {
        match *self {
            Prim::Raw { .. } => true,
            Prim::Rect { x, y, w, h, .. } => x > i64::MIN && y > i64::MIN && w > i64::MIN && h
                > i64::MIN,
            Prim::Circle { cx, cy, r, .. } => cx > i64::MIN && cy > i64::MIN && r > i64::MIN,
            Prim::Line { x1, y1, x2, y2, .. } => x1 > i64::MIN && y1 > i64::MIN && x2 > i64::MIN
                && y2 > i64::MIN,
            Prim::Text { x, y, .. } => x > i64::MIN && y > i64::MIN,
            Prim::Path { .. } => true,
        }
    }
}

/// Every primitive of a document can be rendered.
pub open spec fn doc_wf(doc: Seq<Prim>) -> bool {
    forall|i: int| 0 <= i < doc.len() ==> (#[trigger] doc[i]).wf()
}

/// How many rectangle primitives a document holds.
pub open spec fn count_rects(doc: Seq<Prim>) -> int
    decreases doc.len(),
{
    if doc.len() == 0 {
        0
    } else {
        count_rects(doc.drop_last()) + (if doc.last() matches Prim::Rect { .. } {
            1int
        } else {
            0int
        })
    }
}

/// How many circle primitives a document holds.
pub open spec fn count_circles(doc: Seq<Prim>) -> int
    decreases doc.len(),
{
    if doc.len() == 0 {
        0
    } else {
        count_circles(doc.drop_last()) + (if doc.last() matches Prim::Circle { .. } {
            1int
        } else {
            0int
        })
    }
}

/// How many path primitives a document holds.
pub open spec fn count_paths(doc: Seq<Prim>) -> int
    decreases doc.len(),
{
    if doc.len() == 0 {
        0
    } else {
        count_paths(doc.drop_last()) + (if doc.last() matches Prim::Path { .. } {
            1int
        } else {
            0int
        })
    }
}

/// How many text primitives a document holds.
pub open spec fn count_texts(doc: Seq<Prim>) -> int
    decreases doc.len(),
{
    if doc.len() == 0 {
        0
    } else {
        count_texts(doc.drop_last()) + (if doc.last() matches Prim::Text { .. } {
            1int
        } else {
            0int
        })
    }
}

/// Appending one primitive raises each count by one or keeps it.
pub broadcast proof fn lemma_counts_push(doc: Seq<Prim>, p: Prim)
    ensures
        #![trigger doc.push(p)]
        count_rects(doc.push(p)) == count_rects(doc) + (if p matches Prim::Rect { .. } {
            1int
        } else {
            0int
        }),
        count_circles(doc.push(p)) == count_circles(doc) + (if p matches Prim::Circle { .. } {
            1int
        } else {
            0int
        }),
        count_paths(doc.push(p)) == count_paths(doc) + (if p matches Prim::Path { .. } {
            1int
        } else {
            0int
        }),
        count_texts(doc.push(p)) == count_texts(doc) + (if p matches Prim::Text { .. } {
            1int
        } else {
            0int
        }),
{
    assert(doc.push(p).drop_last() =~= doc);
}

/// Concatenating documents adds their counts.
pub broadcast proof fn lemma_counts_concat(a: Seq<Prim>, b: Seq<Prim>)
    ensures
        #![trigger a + b]
        count_rects(a + b) == count_rects(a) + count_rects(b),
        count_circles(a + b) == count_circles(a) + count_circles(b),
        count_paths(a + b) == count_paths(a) + count_paths(b),
        count_texts(a + b) == count_texts(a) + count_texts(b),
    decreases b.len(),
{
    if b.len() == 0 {
        assert(a + b =~= a);
    } else {
        lemma_counts_concat(a, b.drop_last());
        assert((a + b).drop_last() =~= a + b.drop_last());
        assert((a + b).last() == b.last());
    }
}

/// The primitive is a rectangle with the given geometry and attributes.
pub open spec fn is_rect(p: Prim, x: int, y: int, w: int, h: int, attrs: Seq<char>) -> bool {
    &&& p matches Prim::Rect { x: px, y: py, w: pw, h: ph, attrs: pa }
    &&& px == x
    &&& py == y
    &&& pw == w
    &&& ph == h
    &&& pa@ == attrs
}

/// The primitive is a rectangle with the given geometry (any attributes).
pub open spec fn is_rect_at(p: Prim, x: int, y: int, w: int, h: int) -> bool {
    &&& p matches Prim::Rect { x: px, y: py, w: pw, h: ph, .. }
    &&& px == x
    &&& py == y
    &&& pw == w
    &&& ph == h
}

/// The primitive is a circle with the given geometry (any attributes).
pub open spec fn is_circle_at(p: Prim, cx: int, cy: int, r: int) -> bool {
    &&& p matches Prim::Circle { cx: px, cy: py, r: pr, .. }
    &&& px == cx
    &&& py == cy
    &&& pr == r
}

/// The primitive is a circle with the given geometry and attributes.
pub open spec fn is_circle(p: Prim, cx: int, cy: int, r: int, attrs: Seq<char>) -> bool {
    &&& p matches Prim::Circle { cx: px, cy: py, r: pr, attrs: pa }
    &&& px == cx
    &&& py == cy
    &&& pr == r
    &&& pa@ == attrs
}

/// The primitive is a line segment with the given geometry and attributes.
pub open spec fn is_line(p: Prim, x1: int, y1: int, x2: int, y2: int, attrs: Seq<char>) -> bool {
    &&& p matches Prim::Line { x1: a, y1: b, x2: c, y2: d, attrs: pa }
    &&& a == x1
    &&& b == y1
    &&& c == x2
    &&& d == y2
    &&& pa@ == attrs
}

/// The primitive is a text label with the given anchor point, attributes
/// and content.
pub open spec fn is_text(p: Prim, x: int, y: int, attrs: Seq<char>, content: Seq<char>) -> bool {
    &&& p matches Prim::Text { x: px, y: py, attrs: pa, content: pc }
    &&& px == x
    &&& py == y
    &&& pa@ == attrs
    &&& pc@ == content
}

/// The primitive is a path with the given data and attributes.
pub open spec fn is_path(p: Prim, d: Seq<char>, attrs: Seq<char>) -> bool {
    &&& p matches Prim::Path { d: pd, attrs: pa }
    &&& pd@ == d
    &&& pa@ == attrs
}

/// The primitive is literal markup with the given text.
pub open spec fn is_raw(p: Prim, markup: Seq<char>) -> bool {
    &&& p matches Prim::Raw { markup: pm }
    &&& pm@ == markup
}

/// The markup text of one primitive.
pub open spec fn render_prim(p: Prim) -> Seq<char> {
    match p {
        Prim::Raw { markup } => markup@,
        Prim::Rect { x, y, w, h, attrs } => "<rect x=\""@ + milli_1dp(x as int) + "\" y=\""@
            + milli_1dp(y as int) + "\" width=\""@ + milli_1dp(w as int) + "\" height=\""@
            + milli_1dp(h as int) + "\" "@ + attrs@ + "/>"@,
        Prim::Circle { cx, cy, r, attrs } => "<circle cx=\""@ + milli_1dp(cx as int) + "\" cy=\""@
            + milli_1dp(cy as int) + "\" r=\""@ + milli_1dp(r as int) + "\" "@ + attrs@ + "/>"@,
        Prim::Line { x1, y1, x2, y2, attrs } => "<line x1=\""@ + milli_1dp(x1 as int) + "\" y1=\""@
            + milli_1dp(y1 as int) + "\" x2=\""@ + milli_1dp(x2 as int) + "\" y2=\""@ + milli_1dp(
            y2 as int,
        ) + "\" "@ + attrs@ + "/>"@,
        Prim::Text { x, y, attrs, content } => "<text x=\""@ + milli_1dp(x as int) + "\" y=\""@
            + milli_1dp(y as int) + "\" "@ + attrs@ + ">"@ + content@ + "</text>"@,
        Prim::Path { d, attrs } => "<path d=\""@ + d@ + "\" "@ + attrs@ + "/>"@,
    }
}

/// The markup text of a whole document: its primitives' texts in order.
pub open spec fn render_doc(doc: Seq<Prim>) -> Seq<char>
    decreases doc.len(),
{
    if doc.len() == 0 {
        Seq::empty()
    } else {
        render_prim(doc[0]) + render_doc(doc.drop_first())
    }
}

/// Appending one primitive appends its markup.
pub proof fn lemma_render_doc_push(doc: Seq<Prim>, p: Prim)
    ensures
        render_doc(doc.push(p)) == render_doc(doc) + render_prim(p),
    decreases doc.len(),
{
    if doc.len() == 0 {
        assert(doc.push(p)[0] == p);
        assert(doc.push(p).drop_first() =~= Seq::<Prim>::empty());
        assert(render_doc(doc.push(p)) == render_prim(p) + render_doc(Seq::<Prim>::empty()));
        assert(render_doc(Seq::<Prim>::empty()) == Seq::<char>::empty());
        assert(render_doc(doc.push(p)) =~= render_prim(p));
        assert(render_doc(doc) + render_prim(p) =~= render_prim(p));
    } else {
        assert(doc.push(p).drop_first() =~= doc.drop_first().push(p));
        lemma_render_doc_push(doc.drop_first(), p);
        assert(render_doc(doc.push(p)) =~= render_doc(doc) + render_prim(p));
    }
}

/// Concatenating documents concatenates their markup.
pub proof fn lemma_render_doc_concat(a: Seq<Prim>, b: Seq<Prim>)
    ensures
        render_doc(a + b) == render_doc(a) + render_doc(b),
    decreases b.len(),
{
    if b.len() == 0 {
        assert(a + b =~= a);
        assert(render_doc(a) + render_doc(b) =~= render_doc(a));
    } else {
        lemma_render_doc_concat(a, b.drop_last());
        lemma_render_doc_push(a + b.drop_last(), b.last());
        lemma_render_doc_push(b.drop_last(), b.last());
        assert((a + b.drop_last()).push(b.last()) =~= a + b);
        assert(b.drop_last().push(b.last()) =~= b);
        assert(render_doc(a + b) =~= render_doc(a) + render_doc(b));
    }
}

/// Renders one primitive's markup.
#[verifier::rlimit(60)]
fn render_prim_exec(p: &Prim, out: &mut String)
    requires
        p.wf(),
    ensures
        final (out)@ == old(out)@ + render_prim(*p),
{
    match p {
        Prim::Raw { markup } => {
            out.append(markup.as_str());
        },
        Prim::Rect { x, y, w, h, attrs } => {
            out.append("<rect x=\"");
            let t = fmt_milli_1dp(*x);
            out.append(t.as_str());
            out.append("\" y=\"");
            let t = fmt_milli_1dp(*y);
            out.append(t.as_str());
            out.append("\" width=\"");
            let t = fmt_milli_1dp(*w);
            out.append(t.as_str());
            out.append("\" height=\"");
            let t = fmt_milli_1dp(*h);
            out.append(t.as_str());
            out.append("\" ");
            out.append(attrs.as_str());
            out.append("/>");
        },
        Prim::Circle { cx, cy, r, attrs } => {
            out.append("<circle cx=\"");
            let t = fmt_milli_1dp(*cx);
            out.append(t.as_str());
            out.append("\" cy=\"");
            let t = fmt_milli_1dp(*cy);
            out.append(t.as_str());
            out.append("\" r=\"");
            let t = fmt_milli_1dp(*r);
            out.append(t.as_str());
            out.append("\" ");
            out.append(attrs.as_str());
            out.append("/>");
        },
        Prim::Line { x1, y1, x2, y2, attrs } => {
            out.append("<line x1=\"");
            let t = fmt_milli_1dp(*x1);
            out.append(t.as_str());
            out.append("\" y1=\"");
            let t = fmt_milli_1dp(*y1);
            out.append(t.as_str());
            out.append("\" x2=\"");
            let t = fmt_milli_1dp(*x2);
            out.append(t.as_str());
            out.append("\" y2=\"");
            let t = fmt_milli_1dp(*y2);
            out.append(t.as_str());
            out.append("\" ");
            out.append(attrs.as_str());
            out.append("/>");
        },
        Prim::Text { x, y, attrs, content } => {
            out.append("<text x=\"");
            let t = fmt_milli_1dp(*x);
            out.append(t.as_str());
            out.append("\" y=\"");
            let t = fmt_milli_1dp(*y);
            out.append(t.as_str());
            out.append("\" ");
            out.append(attrs.as_str());
            out.append(">");
            out.append(content.as_str());
            out.append("</text>");
        },
        Prim::Path { d, attrs } => {
            out.append("<path d=\"");
            out.append(d.as_str());
            out.append("\" ");
            out.append(attrs.as_str());
            out.append("/>");
        },
    }
    proof {
        assert(out@ =~= old(out)@ + render_prim(*p));
    }
}

/// Serializes a canvas document to SVG markup.
pub fn render(doc: &Vec<Prim>) -> (r: String)
    requires
        doc_wf(doc@),
    ensures
        r@ == render_doc(doc@),
{
    let mut out = String::new();
    let mut i: usize = 0;
    while i < doc.len()
        invariant
            doc_wf(doc@),
            i <= doc@.len(),
            out@ == render_doc(doc@.take(i as int)),
        decreases doc@.len() - i,
    {
        render_prim_exec(&doc[i], &mut out);
        proof {
            assert(doc@.take(i as int).push(doc@[i as int]) =~= doc@.take(i as int + 1));
            lemma_render_doc_push(doc@.take(i as int), doc@[i as int]);
        }
        i += 1;
    }
    proof {
        assert(doc@.take(doc@.len() as int) =~= doc@);
    }
    out
}

/// The primitive is a path with the given data (any attributes).
pub open spec fn is_path_d(p: Prim, d: Seq<char>) -> bool {
    &&& p matches Prim::Path { d: pd, .. }
    &&& pd@ == d
}

/// The path text through the first `i` of the given points: a move to the
/// first point, then straight segments (or, smoothed, quadratic segments
/// whose control point sits midway in X) to each following point.
pub open spec fn path_pts_upto(pts: Seq<(int, int)>, smooth: bool, i: int) -> Seq<char>
    decreases i,
{
    if i <= 0 {
        Seq::<char>::empty()
    } else {
        let x = pts[i - 1].0;
        let y = pts[i - 1].1;
        let piece = if i == 1 {
            "M "@ + milli_1dp(x) + " "@ + milli_1dp(y)
        } else if smooth {
            " Q "@ + milli_1dp((pts[i - 2].0 + x) / 2) + " "@ + milli_1dp(y) + " "@ + milli_1dp(x)
                + " "@ + milli_1dp(y)
        } else {
            " L "@ + milli_1dp(x) + " "@ + milli_1dp(y)
        };
        path_pts_upto(pts, smooth, i - 1) + piece
    }
}

/// The path text through all the given points.
pub open spec fn path_pts(pts: Seq<(int, int)>, smooth: bool) -> Seq<char> {
    path_pts_upto(pts, smooth, pts.len() as int)
}

/// Builds the path text through a list of points.
pub fn path_from_points(pts: &Vec<(i64, i64)>, smooth: bool) -> (r: String)
    requires
        forall|i: int|
            0 <= i < pts@.len() ==> 0 <= (#[trigger] pts@[i]).0 <= 1_000_000_000_000_000i64 && 0
                <= pts@[i].1 <= 1_000_000_000_000_000i64,
    ensures
        r@ == path_pts(pts@.map_values(|p: (i64, i64)| (p.0 as int, p.1 as int)), smooth),
{
    let ghost mpts = pts@.map_values(|p: (i64, i64)| (p.0 as int, p.1 as int));
    let mut s = String::new();
    let mut i: usize = 0;
    while i < pts.len()
        invariant
            mpts == pts@.map_values(|p: (i64, i64)| (p.0 as int, p.1 as int)),
            mpts.len() == pts@.len(),
            forall|j: int|
                0 <= j < pts@.len() ==> 0 <= (#[trigger] pts@[j]).0 <= 1_000_000_000_000_000i64
                    && 0 <= pts@[j].1 <= 1_000_000_000_000_000i64,
            i <= pts@.len(),
            s@ == path_pts_upto(mpts, smooth, i as int),
        decreases pts@.len() - i,
    {
        let (x, y) = pts[i];
        proof {
            assert(mpts[i as int] == (x as int, y as int));
        }
        if i == 0 {
            s.append("M ");
            let c = fmt_milli_1dp(x);
            s.append(c.as_str());
            s.append(" ");
            let c = fmt_milli_1dp(y);
            s.append(c.as_str());
        } else if smooth {
            let (px, _py) = pts[i - 1];
            proof {
                assert(mpts[i as int - 1] == (px as int, _py as int));
            }
            s.append(" Q ");
            let c = fmt_milli_1dp((px + x) / 2);
            s.append(c.as_str());
            s.append(" ");
            let c = fmt_milli_1dp(y);
            s.append(c.as_str());
            s.append(" ");
            let c = fmt_milli_1dp(x);
            s.append(c.as_str());
            s.append(" ");
            let c = fmt_milli_1dp(y);
            s.append(c.as_str());
        } else {
            s.append(" L ");
            let c = fmt_milli_1dp(x);
            s.append(c.as_str());
            s.append(" ");
            let c = fmt_milli_1dp(y);
            s.append(c.as_str());
        }
        proof {
            assert(s@ =~= path_pts_upto(mpts, smooth, i as int + 1));
        }
        i += 1;
    }
    s
}

/// The markup of a stroke attribute for a given color.
pub open spec fn stroke_attr_spec(color: Seq<char>) -> Seq<char> {
    "stroke=\""@ + color + "\""@
}

/// Builds a stroke attribute for a given color.
pub fn stroke_attr(color: &str) -> (r: String)
    ensures
        r@ == stroke_attr_spec(color@),
{
    let mut s = String::from_str("stroke=\"");
    s.append(color);
    s.append("\"");
    proof {
        assert(s@ =~= stroke_attr_spec(color@));
    }
    s
}

/// The markup of a fill attribute for a given color.
pub open spec fn fill_attr_spec(color: Seq<char>) -> Seq<char> {
    "fill=\""@ + color + "\""@
}

/// Builds a fill attribute for a given color.
pub fn fill_attr(color: &str) -> (r: String)
    ensures
        r@ == fill_attr_spec(color@),
{
    let mut s = String::from_str("fill=\"");
    s.append(color);
    s.append("\"");
    proof {
        assert(s@ =~= fill_attr_spec(color@));
    }
    s
}

} // verus!
