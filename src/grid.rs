//! Separators, the grid they form, and the operations on it.
//!
//! Positions are fixed-point numbers in millionths of the image side:
//! `UNIT` is the far edge of the image, `0` the near one. Horizontal
//! separators carry a `y` measured upwards from the bottom edge, vertical
//! ones an `x` measured rightwards from the left edge. Positions outside
//! `0..=UNIT` are allowed; the crop clamps them.
use vstd::prelude::*;

verus! {

/// One whole image side, in position units.
pub const UNIT: i64 = 1000000;

/// Whether `v` fits in an `i64`.
pub open spec fn fits_i64(v: int) -> bool {
    i64::MIN <= v <= i64::MAX
}

/// A sequence of positions in ascending order.
pub open spec fn sorted(s: Seq<i64>) -> bool {
    forall|i: int, j: int| 0 <= i <= j < s.len() ==> s[i] <= s[j]
}

/// A point of the image in position units.
#[derive(Clone, Copy, Debug, PartialEq, Eq)]
pub struct Point {
    pub x: i64,
    pub y: i64,
}

/// The box spanned by the outermost separators.
#[derive(Clone, Copy, Debug, PartialEq, Eq)]
pub struct Extents {
    pub xmin: i64,
    pub xmax: i64,
    pub ymin: i64,
    pub ymax: i64,
}

/// A separator between two rows.
#[derive(Clone, Copy, Debug, PartialEq, Eq)]
pub struct HorizSep {
    pub y: i64,
}

/// A separator between two columns.
#[derive(Clone, Copy, Debug, PartialEq, Eq)]
pub struct VertSep {
    pub x: i64,
}

impl HorizSep {
    /// Moves the separator by `dy`; refuses, and stays put, where the new
    /// position would not fit.
    pub fn translate(&mut self, dy: i64) -> (moved: bool)
        ensures
            moved == fits_i64(old(self).y + dy),
            moved ==> final(self).y == old(self).y + dy,
            !moved ==> *final(self) == *old(self),
    {
        match self.y.checked_add(dy) {
            Some(y) => {
                self.y = y;
                true
            },
            None => false,
        }
    }

    /// Whether `p` lies within `thickness` of the separator vertically and
    /// strictly inside the extents horizontally.
    pub fn in_bounds(&self, thickness: i64, extents: &Extents, p: Point) -> (hit: bool)
        ensures
            hit == horiz_hit(self.y, thickness, *extents, p),
    {
        (self.y as i128) - (thickness as i128) < (p.y as i128) && (p.y as i128) < (self.y as i128)
            + (thickness as i128) && extents.xmin < p.x && p.x < extents.xmax
    }
}

impl VertSep {
    /// Moves the separator by `dx`; refuses, and stays put, where the new
    /// position would not fit.
    pub fn translate(&mut self, dx: i64) -> (moved: bool)
        ensures
            moved == fits_i64(old(self).x + dx),
            moved ==> final(self).x == old(self).x + dx,
            !moved ==> *final(self) == *old(self),
    {
        match self.x.checked_add(dx) {
            Some(x) => {
                self.x = x;
                true
            },
            None => false,
        }
    }

    /// Whether `p` lies within `thickness` of the separator horizontally and
    /// strictly inside the extents vertically.
    pub fn in_bounds(&self, thickness: i64, extents: &Extents, p: Point) -> (hit: bool)
        ensures
            hit == vert_hit(self.x, thickness, *extents, p),
    {
        (self.x as i128) - (thickness as i128) < (p.x as i128) && (p.x as i128) < (self.x as i128)
            + (thickness as i128) && extents.ymin < p.y && p.y < extents.ymax
    }
}

/// A horizontal separator at `y` is hit by `p`.
pub open spec fn horiz_hit(y: i64, thickness: i64, e: Extents, p: Point) -> bool {
    y - thickness < p.y < y + thickness && e.xmin < p.x < e.xmax
}

/// A vertical separator at `x` is hit by `p`.
pub open spec fn vert_hit(x: i64, thickness: i64, e: Extents, p: Point) -> bool {
    x - thickness < p.x < x + thickness && e.ymin < p.y < e.ymax
}


/// Insertion sort of positions into ascending order.
pub fn sort_positions(v: &Vec<i64>) -> (r: Vec<i64>)
    ensures
        sorted(r@),
        r@.to_multiset() == v@.to_multiset(),
{
    let mut out: Vec<i64> = Vec::new();
    let mut k: usize = 0;
    assert(out@ =~= v@.subrange(0, 0));
    while k < v.len()
        invariant
            k <= v.len(),
            sorted(out@),
            out@.to_multiset() == v@.subrange(0, k as int).to_multiset(),
        decreases v.len() - k,
    {
        let x = v[k];
        let mut pos: usize = 0;
        while pos < out.len() && out[pos] <= x
            invariant
                pos <= out.len(),
                forall|i: int| 0 <= i < pos ==> out@[i] <= x,
            decreases out.len() - pos,
        {
            pos += 1;
        }
        let ghost before = out@;
        out.insert(pos, x);
        proof {
            before.insert_ensures(pos as int, x);
            assert(out@.remove(pos as int) =~= before);
            out@.to_multiset_ensures();
            v@.subrange(0, k as int).to_multiset_ensures();
            assert(v@.subrange(0, k + 1) =~= v@.subrange(0, k as int).push(x));
            assert(out@[pos as int] == x);
            assert(out@.to_multiset() =~= before.to_multiset().insert(x));
            assert forall|i: int, j: int| 0 <= i <= j < out@.len() implies out@[i] <= out@[j] by {
                if j < pos {
                } else if i > pos {
                    assert(out@[i] == before[i - 1]);
                    assert(out@[j] == before[j - 1]);
                } else if i == pos && j > pos {
                    assert(before[pos as int] > x);
                    assert(before[pos as int] <= before[j - 1]);
                } else if i < pos && j > pos {
                    assert(out@[i] <= x);
                    assert(before[pos as int] > x);
                }
            }
        }
        k += 1;
    }
    assert(v@.subrange(0, v.len() as int) =~= v@);
    out
}

/// The separators of a grid. Each sequence holds at least two members;
/// they are sorted before any geometry is taken from them.
#[derive(Clone, Debug)]
pub struct Grid {
    pub horizontals: Vec<HorizSep>,
    pub verticals: Vec<VertSep>,
}

/// One edit of a grid's separators.
#[derive(Clone, Copy, Debug, PartialEq, Eq)]
pub enum GridEdit {
    AddHorizontal(i64),
    AddVertical(i64),
    RemoveHorizontal,
    RemoveVertical,
}

/// The positions `(ys, xs)` after one edit. A removal that would leave fewer
/// than two separators is refused; a horizontal removal takes the first
/// separator, a vertical one the last.
pub open spec fn edited(ys: Seq<i64>, xs: Seq<i64>, e: GridEdit) -> (Seq<i64>, Seq<i64>) {
    match e {
        GridEdit::AddHorizontal(y) => (ys.push(y), xs),
        GridEdit::AddVertical(x) => (ys, xs.push(x)),
        GridEdit::RemoveHorizontal => (if ys.len() > 2 { ys.drop_first() } else { ys }, xs),
        GridEdit::RemoveVertical => (ys, if xs.len() > 2 { xs.drop_last() } else { xs }),
    }
}

/// The positions after a sequence of edits, applied in order.
pub open spec fn edited_all(ys: Seq<i64>, xs: Seq<i64>, edits: Seq<GridEdit>) -> (Seq<i64>, Seq<i64>)
    decreases edits.len(),
{
    if edits.len() == 0 {
        (ys, xs)
    } else {
        let (ys1, xs1) = edited(ys, xs, edits[0]);
        edited_all(ys1, xs1, edits.drop_first())
    }
}

/// No sequence of additions and removals leaves a grid with fewer than two
/// horizontal or two vertical separators.
pub proof fn lemma_edits_keep_two(ys: Seq<i64>, xs: Seq<i64>, edits: Seq<GridEdit>)
    requires
        ys.len() >= 2,
        xs.len() >= 2,
    ensures
        edited_all(ys, xs, edits).0.len() >= 2,
        edited_all(ys, xs, edits).1.len() >= 2,
    decreases edits.len(),
{
    if edits.len() > 0 {
        let (ys1, xs1) = edited(ys, xs, edits[0]);
        lemma_edits_keep_two(ys1, xs1, edits.drop_first());
    }
}

/// Once both sequences are sorted, the extents run from low to high on each
/// axis.
pub proof fn lemma_sorted_extents_ordered(g: Grid)
    requires
        g.wf(),
        sorted(g.ys()),
        sorted(g.xs()),
    ensures
        g.spec_extents().xmin <= g.spec_extents().xmax,
        g.spec_extents().ymin <= g.spec_extents().ymax,
{
}

impl Default for Grid {
    /// The starting grid.
    fn default() -> (g: Grid)
        ensures
            g.wf(),
            g.ys() == seq![800000i64, 900000i64],
            g.xs() == seq![100000i64, 200000i64],
    {
        Grid::new()
    }
}

/// Which separator a drag takes hold of.
#[derive(Clone, Copy, Debug, PartialEq, Eq)]
pub enum SepRef {
    Horizontal(usize),
    Vertical(usize),
}

impl Grid {
    /// The positions of the horizontal separators, in stored order.
    pub open spec fn ys(&self) -> Seq<i64> {
        self.horizontals@.map_values(|h: HorizSep| h.y)
    }

    /// The positions of the vertical separators, in stored order.
    pub open spec fn xs(&self) -> Seq<i64> {
        self.verticals@.map_values(|v: VertSep| v.x)
    }

    /// At least two separators of each orientation.
    pub open spec fn wf(&self) -> bool {
        self.horizontals.len() >= 2 && self.verticals.len() >= 2
    }

    /// Both sequences sorted.
    pub open spec fn is_sorted(&self) -> bool {
        sorted(self.ys()) && sorted(self.xs())
    }

    /// The box from the first to the last separator of each sequence.
    pub open spec fn spec_extents(&self) -> Extents
        recommends
            self.wf(),
    {
        Extents {
            xmin: self.xs().first(),
            xmax: self.xs().last(),
            ymin: self.ys().first(),
            ymax: self.ys().last(),
        }
    }

    /// The starting grid: rows at 0.8 and 0.9, columns at 0.1 and 0.2.
    pub fn new() -> (g: Grid)
        ensures
            g.wf(),
            g.ys() == seq![800000i64, 900000i64],
            g.xs() == seq![100000i64, 200000i64],
    {
        let g = Grid {
            horizontals: vec![HorizSep { y: 800000 }, HorizSep { y: 900000 }],
            verticals: vec![VertSep { x: 100000 }, VertSep { x: 200000 }],
        };
        assert(g.ys() =~= seq![800000i64, 900000i64]);
        assert(g.xs() =~= seq![100000i64, 200000i64]);
        g
    }

    /// Adds a horizontal separator at `y`, at the end.
    pub fn add_horizontal(&mut self, y: i64)
        ensures
            final(self).ys() == edited(old(self).ys(), old(self).xs(), GridEdit::AddHorizontal(y)).0,
            final(self).xs() == old(self).xs(),
            final(self).horizontals.len() == old(self).horizontals.len() + 1,
            final(self).verticals == old(self).verticals,
    {
        self.horizontals.push(HorizSep { y });
        assert(self.ys() =~= old(self).ys().push(y));
    }

    /// Adds a vertical separator at `x`, at the end.
    pub fn add_vertical(&mut self, x: i64)
        ensures
            final(self).xs() == edited(old(self).ys(), old(self).xs(), GridEdit::AddVertical(x)).1,
            final(self).ys() == old(self).ys(),
            final(self).verticals.len() == old(self).verticals.len() + 1,
            final(self).horizontals == old(self).horizontals,
    {
        self.verticals.push(VertSep { x });
        assert(self.xs() =~= old(self).xs().push(x));
    }

    /// Removes the first horizontal separator, unless only two are left.
    pub fn remove_horizontal(&mut self) -> (removed: bool)
        ensures
            removed == (old(self).horizontals.len() > 2),
            final(self).ys() == edited(old(self).ys(), old(self).xs(), GridEdit::RemoveHorizontal).0,
            final(self).xs() == old(self).xs(),
    {
        if self.horizontals.len() > 2 {
            self.horizontals.remove(0);
            assert(self.ys() =~= old(self).ys().drop_first());
            true
        } else {
            false
        }
    }

    /// Removes the last vertical separator, unless only two are left.
    pub fn remove_vertical(&mut self) -> (removed: bool)
        ensures
            removed == (old(self).verticals.len() > 2),
            final(self).xs() == edited(old(self).ys(), old(self).xs(), GridEdit::RemoveVertical).1,
            final(self).ys() == old(self).ys(),
    {
        if self.verticals.len() > 2 {
            self.verticals.pop();
            assert(self.xs() =~= old(self).xs().drop_last());
            true
        } else {
            false
        }
    }

    /// Applies one edit.
    pub fn apply(&mut self, e: GridEdit)
        ensures
            (final(self).ys(), final(self).xs()) == edited(old(self).ys(), old(self).xs(), e),
    {
        match e {
            GridEdit::AddHorizontal(y) => self.add_horizontal(y),
            GridEdit::AddVertical(x) => self.add_vertical(x),
            GridEdit::RemoveHorizontal => {
                self.remove_horizontal();
            },
            GridEdit::RemoveVertical => {
                self.remove_vertical();
            },
        }
    }

    /// Sorts the horizontal separators by ascending `y`.
    pub fn sort_horiz(&mut self)
        ensures
            sorted(final(self).ys()),
            final(self).ys().to_multiset() == old(self).ys().to_multiset(),
            final(self).xs() == old(self).xs(),
            final(self).horizontals.len() == old(self).horizontals.len(),
            final(self).verticals == old(self).verticals,
    {
        let mut ys: Vec<i64> = Vec::new();
        let mut i: usize = 0;
        while i < self.horizontals.len()
            invariant
                i <= self.horizontals.len(),
                ys@ == self.ys().subrange(0, i as int),
            decreases self.horizontals.len() - i,
        {
            ys.push(self.horizontals[i].y);
            assert(ys@ =~= self.ys().subrange(0, i + 1));
            i += 1;
        }
        assert(ys@ =~= self.ys());
        let sorted_ys = sort_positions(&ys);
        proof {
            sorted_ys@.to_multiset_ensures();
            ys@.to_multiset_ensures();
        }
        let mut hs: Vec<HorizSep> = Vec::new();
        let mut k: usize = 0;
        while k < sorted_ys.len()
            invariant
                k <= sorted_ys.len(),
                hs.len() == k,
                forall|m: int| 0 <= m < k ==> #[trigger] hs@[m].y == sorted_ys@[m],
            decreases sorted_ys.len() - k,
        {
            hs.push(HorizSep { y: sorted_ys[k] });
            k += 1;
        }
        self.horizontals = hs;
        assert(self.ys() =~= sorted_ys@);
    }

    /// Sorts the vertical separators by ascending `x`.
    pub fn sort_vert(&mut self)
        ensures
            sorted(final(self).xs()),
            final(self).xs().to_multiset() == old(self).xs().to_multiset(),
            final(self).ys() == old(self).ys(),
            final(self).verticals.len() == old(self).verticals.len(),
            final(self).horizontals == old(self).horizontals,
    {
        let mut xs: Vec<i64> = Vec::new();
        let mut i: usize = 0;
        while i < self.verticals.len()
            invariant
                i <= self.verticals.len(),
                xs@ == self.xs().subrange(0, i as int),
            decreases self.verticals.len() - i,
        {
            xs.push(self.verticals[i].x);
            assert(xs@ =~= self.xs().subrange(0, i + 1));
            i += 1;
        }
        assert(xs@ =~= self.xs());
        let sorted_xs = sort_positions(&xs);
        proof {
            sorted_xs@.to_multiset_ensures();
            xs@.to_multiset_ensures();
        }
        let mut vs: Vec<VertSep> = Vec::new();
        let mut k: usize = 0;
        while k < sorted_xs.len()
            invariant
                k <= sorted_xs.len(),
                vs.len() == k,
                forall|m: int| 0 <= m < k ==> #[trigger] vs@[m].x == sorted_xs@[m],
            decreases sorted_xs.len() - k,
        {
            vs.push(VertSep { x: sorted_xs[k] });
            k += 1;
        }
        self.verticals = vs;
        assert(self.xs() =~= sorted_xs@);
    }

    /// Sorts both sequences.
    pub fn sort(&mut self)
        ensures
            final(self).is_sorted(),
            final(self).ys().to_multiset() == old(self).ys().to_multiset(),
            final(self).xs().to_multiset() == old(self).xs().to_multiset(),
            final(self).horizontals.len() == old(self).horizontals.len(),
            final(self).verticals.len() == old(self).verticals.len(),
    {
        self.sort_vert();
        self.sort_horiz();
    }

    /// The box from the first to the last separator of each sequence.
    pub fn extents(&self) -> (e: Extents)
        requires
            self.wf(),
        ensures
            e == self.spec_extents(),
    {
        Extents {
            xmin: self.verticals[0].x,
            xmax: self.verticals[self.verticals.len() - 1].x,
            ymin: self.horizontals[0].y,
            ymax: self.horizontals[self.horizontals.len() - 1].y,
        }
    }

    /// Moves every separator: horizontals by `dy`, verticals by `dx`. Where
    /// any position would not fit, nothing moves.
    pub fn translate_all(&mut self, dx: i64, dy: i64) -> (moved: bool)
        ensures
            moved == ((forall|i: int| 0 <= i < old(self).ys().len() ==> fits_i64(
                #[trigger] old(self).ys()[i] + dy,
            )) && (forall|i: int| 0 <= i < old(self).xs().len() ==> fits_i64(
                #[trigger] old(self).xs()[i] + dx,
            ))),
            moved ==> final(self).ys() == old(self).ys().map_values(|y: i64| (y + dy) as i64),
            moved ==> final(self).xs() == old(self).xs().map_values(|x: i64| (x + dx) as i64),
            !moved ==> final(self).ys() == old(self).ys() && final(self).xs() == old(self).xs(),
    {
        let mut i: usize = 0;
        while i < self.horizontals.len()
            invariant
                i <= self.horizontals.len(),
                forall|k: int| 0 <= k < i ==> fits_i64(#[trigger] self.ys()[k] + dy),
            decreases self.horizontals.len() - i,
        {
            if self.horizontals[i].y.checked_add(dy).is_none() {
                assert(!fits_i64(self.ys()[i as int] + dy));
                return false;
            }
            i += 1;
        }
        let mut j: usize = 0;
        while j < self.verticals.len()
            invariant
                j <= self.verticals.len(),
                forall|k: int| 0 <= k < self.ys().len() ==> fits_i64(#[trigger] self.ys()[k] + dy),
                forall|k: int| 0 <= k < j ==> fits_i64(#[trigger] self.xs()[k] + dx),
            decreases self.verticals.len() - j,
        {
            if self.verticals[j].x.checked_add(dx).is_none() {
                assert(!fits_i64(self.xs()[j as int] + dx));
                return false;
            }
            j += 1;
        }
        let ghost ys0 = self.ys();
        let ghost xs0 = self.xs();
        let mut hs: Vec<HorizSep> = Vec::new();
        let mut a: usize = 0;
        while a < self.horizontals.len()
            invariant
                a <= self.horizontals.len(),
                ys0 == self.ys(),
                forall|k: int| 0 <= k < ys0.len() ==> fits_i64(#[trigger] ys0[k] + dy),
                hs.len() == a,
                forall|m: int| 0 <= m < a ==> #[trigger] hs@[m].y == ys0[m] + dy,
            decreases self.horizontals.len() - a,
        {
            assert(fits_i64(ys0[a as int] + dy));
            hs.push(HorizSep { y: self.horizontals[a].y + dy });
            a += 1;
        }
        let mut vs: Vec<VertSep> = Vec::new();
        let mut b: usize = 0;
        while b < self.verticals.len()
            invariant
                b <= self.verticals.len(),
                xs0 == self.xs(),
                forall|k: int| 0 <= k < xs0.len() ==> fits_i64(#[trigger] xs0[k] + dx),
                vs.len() == b,
                forall|m: int| 0 <= m < b ==> #[trigger] vs@[m].x == xs0[m] + dx,
            decreases self.verticals.len() - b,
        {
            assert(fits_i64(xs0[b as int] + dx));
            vs.push(VertSep { x: self.verticals[b].x + dx });
            b += 1;
        }
        self.horizontals = hs;
        self.verticals = vs;
        assert(self.ys() =~= ys0.map_values(|y: i64| (y + dy) as i64));
        assert(self.xs() =~= xs0.map_values(|x: i64| (x + dx) as i64));
        true
    }

    /// The separator that a drag at `p` takes hold of: the first hit
    /// horizontal one, else the first hit vertical one. Horizontals are hit
    /// within `thick_y`, verticals within `thick_x`.
    pub fn drag_target(&self, thick_x: i64, thick_y: i64, extents: &Extents, p: Point) -> (t: Option<SepRef>)
        ensures
            t == first_hit(self.ys(), self.xs(), thick_x, thick_y, *extents, p),
    {
        let mut i: usize = 0;
        while i < self.horizontals.len()
            invariant
                i <= self.horizontals.len(),
                forall|k: int| 0 <= k < i ==> !horiz_hit(#[trigger] self.ys()[k], thick_y, *extents, p),
            decreases self.horizontals.len() - i,
        {
            if self.horizontals[i].in_bounds(thick_y, extents, p) {
                proof {
                    let ys = self.ys();
                    assert(horiz_hit(ys[i as int], thick_y, *extents, p));
                    let c = choose|c: int| 0 <= c < ys.len() && horiz_hit(#[trigger] ys[c], thick_y, *extents, p)
                        && forall|k: int| 0 <= k < c ==> !horiz_hit(#[trigger] ys[k], thick_y, *extents, p);
                    assert(0 <= c < ys.len() && horiz_hit(ys[c], thick_y, *extents, p)
                        && forall|k: int| 0 <= k < c ==> !horiz_hit(#[trigger] ys[k], thick_y, *extents, p));
                    assert(c == i);
                }
                return Some(SepRef::Horizontal(i));
            }
            i += 1;
        }
        let mut j: usize = 0;
        while j < self.verticals.len()
            invariant
                j <= self.verticals.len(),
                forall|k: int| 0 <= k < self.ys().len() ==> !horiz_hit(#[trigger] self.ys()[k], thick_y, *extents, p),
                forall|k: int| 0 <= k < j ==> !vert_hit(#[trigger] self.xs()[k], thick_x, *extents, p),
            decreases self.verticals.len() - j,
        {
            if self.verticals[j].in_bounds(thick_x, extents, p) {
                proof {
                    let xs = self.xs();
                    assert(vert_hit(xs[j as int], thick_x, *extents, p));
                    let c = choose|c: int| 0 <= c < xs.len() && vert_hit(#[trigger] xs[c], thick_x, *extents, p)
                        && forall|k: int| 0 <= k < c ==> !vert_hit(#[trigger] xs[k], thick_x, *extents, p);
                    assert(0 <= c < xs.len() && vert_hit(xs[c], thick_x, *extents, p)
                        && forall|k: int| 0 <= k < c ==> !vert_hit(#[trigger] xs[k], thick_x, *extents, p));
                    assert(c == j);
                }
                return Some(SepRef::Vertical(j));
            }
            j += 1;
        }
        None
    }

    /// Moves the separator `t` by the drag `(dx, dy)`: a horizontal one by
    /// `dy`, a vertical one by `dx`. Refuses an index out of range or a
    /// position that would not fit.
    pub fn drag(&mut self, t: SepRef, dx: i64, dy: i64) -> (moved: bool)
        ensures
            match t {
                SepRef::Horizontal(i) => {
                    &&& moved == (i < old(self).ys().len() && fits_i64(old(self).ys()[i as int] + dy))
                    &&& moved ==> final(self).ys() == old(self).ys().update(i as int, (old(self).ys()[i as int] + dy) as i64)
                    &&& !moved ==> final(self).ys() == old(self).ys()
                    &&& final(self).xs() == old(self).xs()
                },
                SepRef::Vertical(j) => {
                    &&& moved == (j < old(self).xs().len() && fits_i64(old(self).xs()[j as int] + dx))
                    &&& moved ==> final(self).xs() == old(self).xs().update(j as int, (old(self).xs()[j as int] + dx) as i64)
                    &&& !moved ==> final(self).xs() == old(self).xs()
                    &&& final(self).ys() == old(self).ys()
                },
            },
    {
        match t {
            SepRef::Horizontal(i) => {
                if i >= self.horizontals.len() {
                    return false;
                }
                let mut h = self.horizontals[i];
                if !h.translate(dy) {
                    return false;
                }
                self.horizontals.set(i, h);
                assert(self.ys() =~= old(self).ys().update(i as int, (old(self).ys()[i as int] + dy) as i64));
                true
            },
            SepRef::Vertical(j) => {
                if j >= self.verticals.len() {
                    return false;
                }
                let mut v = self.verticals[j];
                if !v.translate(dx) {
                    return false;
                }
                self.verticals.set(j, v);
                assert(self.xs() =~= old(self).xs().update(j as int, (old(self).xs()[j as int] + dx) as i64));
                true
            },
        }
    }
}

/// The separator that a drag at `p` takes hold of, over the positions
/// `ys` and `xs`: the least hit horizontal index, else the least hit
/// vertical index, else none.
pub open spec fn first_hit(ys: Seq<i64>, xs: Seq<i64>, thick_x: i64, thick_y: i64, e: Extents, p: Point) -> Option<SepRef> {
    if exists|i: int| 0 <= i < ys.len() && horiz_hit(#[trigger] ys[i], thick_y, e, p) {
        let i = choose|i: int| 0 <= i < ys.len() && horiz_hit(#[trigger] ys[i], thick_y, e, p)
            && forall|k: int| 0 <= k < i ==> !horiz_hit(#[trigger] ys[k], thick_y, e, p);
        Some(SepRef::Horizontal(i as usize))
    } else if exists|j: int| 0 <= j < xs.len() && vert_hit(#[trigger] xs[j], thick_x, e, p) {
        let j = choose|j: int| 0 <= j < xs.len() && vert_hit(#[trigger] xs[j], thick_x, e, p)
            && forall|k: int| 0 <= k < j ==> !vert_hit(#[trigger] xs[k], thick_x, e, p);
        Some(SepRef::Vertical(j as usize))
    } else {
        None
    }
}

} // verus!
