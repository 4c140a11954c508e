//! Points and axis-aligned rectangles on the canvas, in integer device units.

use vstd::prelude::*;

verus! {

/// A point on the canvas.
#[derive(Clone, Copy, PartialEq, Eq, Structural, Debug)]
pub struct Pos {
    pub x: i32,
    pub y: i32,
}

/// An axis-aligned rectangle, given by its minimum and maximum corners.
#[derive(Clone, Copy, PartialEq, Eq, Structural, Debug)]
pub struct Rect {
    pub min: Pos,
    pub max: Pos,
}

/// The least x coordinate occurring in `s` (meaningful only for non-empty `s`).
pub open spec fn lo_x(s: Seq<Pos>) -> i32
    recommends
        s.len() >= 1,
    decreases s.len(),
{
    if s.len() <= 1 {
        s[0].x
    } else {
        let rest = lo_x(s.drop_first());
        if s[0].x <= rest {
            s[0].x
        } else {
            rest
        }
    }
}

/// The greatest x coordinate occurring in `s` (meaningful only for non-empty `s`).
pub open spec fn hi_x(s: Seq<Pos>) -> i32
    recommends
        s.len() >= 1,
    decreases s.len(),
{
    if s.len() <= 1 {
        s[0].x
    } else {
        let rest = hi_x(s.drop_first());
        if s[0].x >= rest {
            s[0].x
        } else {
            rest
        }
    }
}

/// The least y coordinate occurring in `s` (meaningful only for non-empty `s`).
pub open spec fn lo_y(s: Seq<Pos>) -> i32
    recommends
        s.len() >= 1,
    decreases s.len(),
{
    if s.len() <= 1 {
        s[0].y
    } else {
        let rest = lo_y(s.drop_first());
        if s[0].y <= rest {
            s[0].y
        } else {
            rest
        }
    }
}

/// The greatest y coordinate occurring in `s` (meaningful only for non-empty `s`).
pub open spec fn hi_y(s: Seq<Pos>) -> i32
    recommends
        s.len() >= 1,
    decreases s.len(),
{
    if s.len() <= 1 {
        s[0].y
    } else {
        let rest = hi_y(s.drop_first());
        if s[0].y >= rest {
            s[0].y
        } else {
            rest
        }
    }
}

/// The tightest axis-aligned rectangle containing every point of `s`.
pub open spec fn bounds(s: Seq<Pos>) -> Rect {
    Rect {
        min: Pos { x: lo_x(s), y: lo_y(s) },
        max: Pos { x: hi_x(s), y: hi_y(s) },
    }
}

proof fn lemma_lo_x_push(s: Seq<Pos>, p: Pos)
    requires
        s.len() >= 1,
    ensures
        lo_x(s.push(p)) == if p.x <= lo_x(s) {
            p.x
        } else {
            lo_x(s)
        },
    decreases s.len(),
{
    reveal_with_fuel(lo_x, 2);
    if s.len() == 1 {
        assert(s.push(p).drop_first() =~= seq![p]);
    } else {
        assert(s.push(p).drop_first() =~= s.drop_first().push(p));
        lemma_lo_x_push(s.drop_first(), p);
    }
}

proof fn lemma_hi_x_push(s: Seq<Pos>, p: Pos)
    requires
        s.len() >= 1,
    ensures
        hi_x(s.push(p)) == if p.x >= hi_x(s) {
            p.x
        } else {
            hi_x(s)
        },
    decreases s.len(),
{
    reveal_with_fuel(hi_x, 2);
    if s.len() == 1 {
        assert(s.push(p).drop_first() =~= seq![p]);
    } else {
        assert(s.push(p).drop_first() =~= s.drop_first().push(p));
        lemma_hi_x_push(s.drop_first(), p);
    }
}

proof fn lemma_lo_y_push(s: Seq<Pos>, p: Pos)
    requires
        s.len() >= 1,
    ensures
        lo_y(s.push(p)) == if p.y <= lo_y(s) {
            p.y
        } else {
            lo_y(s)
        },
    decreases s.len(),
{
    reveal_with_fuel(lo_y, 2);
    if s.len() == 1 {
        assert(s.push(p).drop_first() =~= seq![p]);
    } else {
        assert(s.push(p).drop_first() =~= s.drop_first().push(p));
        lemma_lo_y_push(s.drop_first(), p);
    }
}

proof fn lemma_hi_y_push(s: Seq<Pos>, p: Pos)
    requires
        s.len() >= 1,
    ensures
        hi_y(s.push(p)) == if p.y >= hi_y(s) {
            p.y
        } else {
            hi_y(s)
        },
    decreases s.len(),
{
    reveal_with_fuel(hi_y, 2);
    if s.len() == 1 {
        assert(s.push(p).drop_first() =~= seq![p]);
    } else {
        assert(s.push(p).drop_first() =~= s.drop_first().push(p));
        lemma_hi_y_push(s.drop_first(), p);
    }
}

/// Fold the minimum and maximum of each coordinate over a non-empty point
/// list: the bounding box a hover highlight is drawn from.
pub fn bounding_rect(points: &Vec<Pos>) -> (r: Rect)
    requires
        points@.len() >= 1,
    ensures
        r == bounds(points@),
{
    let p0 = points[0];
    let mut r = Rect { min: p0, max: p0 };
    let mut i: usize = 1;
    proof {
        assert(points@.take(1)[0] == points@[0]);
    }
    while i < points.len()
        invariant
            1 <= i <= points@.len(),
            r == bounds(points@.take(i as int)),
        decreases points@.len() - i,
    {
        let p = points[i];
        proof {
            let t = points@.take(i as int);
            assert(points@.take(i as int + 1) =~= t.push(p));
            lemma_lo_x_push(t, p);
            lemma_hi_x_push(t, p);
            lemma_lo_y_push(t, p);
            lemma_hi_y_push(t, p);
        }
        if p.x < r.min.x {
            r.min.x = p.x;
        }
        if p.x > r.max.x {
            r.max.x = p.x;
        }
        if p.y < r.min.y {
            r.min.y = p.y;
        }
        if p.y > r.max.y {
            r.max.y = p.y;
        }
        i = i + 1;
    }
    proof {
        assert(points@.take(points@.len() as int) =~= points@);
    }
    r
}

} // verus!
