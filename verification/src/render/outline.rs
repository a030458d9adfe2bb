use vstd::prelude::*;
use crate::font_data::{GlyphData, GlyphPoint};

verus! {

/// One step of a closed path, in font units.
#[derive(Debug, Clone, Copy, PartialEq, Eq, Structural)]
pub enum PathSegment {
    /// Starts a contour at a point.
    MoveTo { x: i64, y: i64 },
    /// A straight line to a point.
    LineTo { x: i64, y: i64 },
    /// A quadratic curve to `(x, y)`, bent towards `(x1, y1)`.
    QuadTo { x1: i64, y1: i64, x: i64, y: i64 },
    /// Closes the contour.
    Close,
}

/// Whether the contour ends ascend strictly and the last of them is the
/// last point: the contours then divide the points among them. A glyph
/// without contours draws none of its points.
pub open spec fn well_formed(ends: Seq<usize>, points: Seq<GlyphPoint>) -> bool {
    &&& forall|i: int, j: int| 0 <= i < j < ends.len() ==> ends[i] < ends[j]
    &&& (ends.len() == 0 || ends[ends.len() - 1] + 1 == points.len())
}

/// The index of the first point of contour `c`.
pub open spec fn contour_start(ends: Seq<usize>, c: int) -> int {
    if c <= 0 { 0 } else { ends[c - 1] + 1 }
}

/// How many curves a contour from point `first` to point `last` has: one
/// for each pair of points after the first, and one for a point left
/// over.
pub open spec fn curve_count(first: int, last: int) -> int {
    (last - first + 1) / 2
}

/// Curve number `k` of the contour from point `first` to point `last`:
/// bent towards the first point of the pair, to the second; where the
/// pair has no second point, to the first point of the contour.
pub open spec fn curve(points: Seq<GlyphPoint>, first: int, last: int, k: int) -> PathSegment {
    PathSegment::QuadTo {
        x1: points[first + 1 + 2 * k].x,
        y1: points[first + 1 + 2 * k].y,
        x: if first + 2 + 2 * k <= last { points[first + 2 + 2 * k].x } else { points[first].x },
        y: if first + 2 + 2 * k <= last { points[first + 2 + 2 * k].y } else { points[first].y },
    }
}

/// The path of the contour from point `first` to point `last`: a move to
/// its first point, its curves, and the closing step.
pub open spec fn contour_path(points: Seq<GlyphPoint>, first: int, last: int) -> Seq<PathSegment> {
    seq![PathSegment::MoveTo { x: points[first].x, y: points[first].y }] + Seq::new(
        curve_count(first, last) as nat,
        |k: int| curve(points, first, last, k),
    ) + seq![PathSegment::Close]
}

/// The paths of the first `n` contours, one after the other.
pub open spec fn outline_path(ends: Seq<usize>, points: Seq<GlyphPoint>, n: int) -> Seq<PathSegment>
    decreases n,
{
    if n <= 0 {
        Seq::empty()
    } else {
        outline_path(ends, points, n - 1) + contour_path(
            points,
            contour_start(ends, n - 1),
            ends[n - 1] as int,
        )
    }
}

impl GlyphData {
    /// Whether the contours divide the points among them.
    pub fn is_well_formed(&self) -> (r: bool)
        ensures
            r == well_formed(self.contour_end_indices@, self.points@),
    {
        let n: usize = self.contour_end_indices.len();
        if n == 0 {
            return true;
        }
        let mut i: usize = 1;
        while i < n
            invariant
                1 <= i <= n,
                n == self.contour_end_indices@.len(),
                forall|a: int, b: int| 0 <= a < b < i ==> self.contour_end_indices@[a] < self.contour_end_indices@[b],
            decreases n - i,
        {
            if self.contour_end_indices[i - 1] >= self.contour_end_indices[i] {
                return false;
            }
            i = i + 1;
        }
        let last: usize = self.contour_end_indices[n - 1];
        last < self.points.len() && last + 1 == self.points.len()
    }
}

/// Turns the points of a glyph into closed paths, contour by contour.
pub fn build_outline(glyph: &GlyphData) -> (path: Vec<PathSegment>)
    requires
        well_formed(glyph.contour_end_indices@, glyph.points@),
    ensures
        path@ == outline_path(
            glyph.contour_end_indices@,
            glyph.points@,
            glyph.contour_end_indices@.len() as int,
        ),
{
    let ghost ends = glyph.contour_end_indices@;
    let ghost points = glyph.points@;
    let mut path: Vec<PathSegment> = Vec::new();
    let mut first: usize = 0;
    let mut c: usize = 0;
    assert(glyph.points.len() <= usize::MAX);
    while c < glyph.contour_end_indices.len()
        invariant
            ends == glyph.contour_end_indices@,
            points == glyph.points@,
            well_formed(ends, points),
            points.len() <= usize::MAX,
            c <= ends.len(),
            first == contour_start(ends, c as int),
            path@ == outline_path(ends, points, c as int),
        decreases glyph.contour_end_indices.len() - c,
    {
        let last: usize = glyph.contour_end_indices[c];
        assert(last < points.len()) by {
            if c + 1 < ends.len() {
                assert(ends[c as int] < ends[ends.len() - 1]);
            }
        }
        assert(first <= last) by {
            if c > 0 {
                assert(ends[c - 1] < ends[c as int]);
            }
        }
        let ghost before = path@;
        let start = glyph.points[first];
        path.push(PathSegment::MoveTo { x: start.x, y: start.y });
        let span: usize = last - first;
        let curves: usize = if span == 0 { 0 } else { (span - 1) / 2 + 1 };
        assert(curves == curve_count(first as int, last as int));
        let ghost head = seq![PathSegment::MoveTo { x: points[first as int].x, y: points[first as int].y }];
        let mut k: usize = 0;
        while k < curves
            invariant
                points == glyph.points@,
                first <= last < points.len(),
                span == last - first,
                curves == curve_count(first as int, last as int),
                start == points[first as int],
                k <= curves,
                path@ == before + head + Seq::new(k as nat, |j: int| curve(points, first as int, last as int, j)),
            decreases curves - k,
        {
            let control = glyph.points[first + 1 + 2 * k];
            let target = if 2 * k + 1 < span {
                glyph.points[first + 2 + 2 * k]
            } else {
                start
            };
            path.push(PathSegment::QuadTo { x1: control.x, y1: control.y, x: target.x, y: target.y });
            assert(path@ =~= before + head + Seq::new(
                (k + 1) as nat,
                |j: int| curve(points, first as int, last as int, j),
            ));
            k = k + 1;
        }
        path.push(PathSegment::Close);
        assert(path@ =~= before + contour_path(points, first as int, last as int));
        first = last + 1;
        c = c + 1;
    }
    path
}

/// Turns the points of a glyph into closed paths where its contours
/// divide the points among them, and gives nothing where they do not.
pub fn try_build_outline(glyph: &GlyphData) -> (r: Option<Vec<PathSegment>>)
    ensures
        match r {
            Some(path) => well_formed(glyph.contour_end_indices@, glyph.points@) && path@ == outline_path(
                glyph.contour_end_indices@,
                glyph.points@,
                glyph.contour_end_indices@.len() as int,
            ),
            None => !well_formed(glyph.contour_end_indices@, glyph.points@),
        },
{
    if glyph.is_well_formed() {
        Some(build_outline(glyph))
    } else {
        None
    }
}

} // verus!
