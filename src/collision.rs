use vstd::prelude::*;
use crate::physics::{Transform, POS_LIMIT};

verus! {

/// Axis-aligned box anchored at its entity's position (top-left convention).
#[derive(Clone, Copy, Debug, PartialEq, Eq, Structural)]
pub struct BoundingBox2D {
    pub width: i64,
    pub height: i64,
}

/// Rectangles `[ax, ax + aw) x [ay, ay + ah)` and `[bx, bx + bw) x [by, by + bh)` overlap.
pub open spec fn rects_overlap(
    ax: int, ay: int, aw: int, ah: int, bx: int, by: int, bw: int, bh: int,
) -> bool {
    ax + aw > bx && ax < bx + bw && ay + ah > by && ay < by + bh
}

/// Length of the intersection of `[a, a + la)` and `[b, b + lb)`, negative when apart.
pub open spec fn overlap_len(a: int, la: int, b: int, lb: int) -> int {
    let hi = if a + la < b + lb { a + la } else { b + lb };
    let lo = if a > b { a } else { b };
    hi - lo
}

/// Area shared by the two rectangles, zero when they do not meet.
pub open spec fn overlap_area(
    ax: int, ay: int, aw: int, ah: int, bx: int, by: int, bw: int, bh: int,
) -> int {
    let ox = overlap_len(ax, aw, bx, bw);
    let oy = overlap_len(ay, ah, by, bh);
    if ox > 0 && oy > 0 { ox * oy } else { 0 }
}

impl BoundingBox2D {
    pub open spec fn wf(&self) -> bool {
        0 <= self.width <= POS_LIMIT && 0 <= self.height <= POS_LIMIT
    }

    pub open spec fn hits(&self, pos: Transform, other: BoundingBox2D, other_pos: Transform) -> bool {
        rects_overlap(
            pos.x as int, pos.y as int, self.width as int, self.height as int,
            other_pos.x as int, other_pos.y as int, other.width as int, other.height as int,
        )
    }

    pub fn new(width: i64, height: i64) -> (r: BoundingBox2D)
        ensures
            r.width == width,
            r.height == height,
    {
        BoundingBox2D { width, height }
    }

    /// Strict overlap test: boxes that only touch along an edge do not collide.
    pub fn collides_with(&self, pos: &Transform, other: &BoundingBox2D, other_pos: &Transform) -> (r: bool)
        requires
            self.wf(),
            other.wf(),
            pos.wf(),
            other_pos.wf(),
        ensures
            r == self.hits(*pos, *other, *other_pos),
    {
        pos.x + self.width > other_pos.x && pos.x < other_pos.x + other.width && pos.y
            + self.height > other_pos.y && pos.y < other_pos.y + other.height
    }
}

/// Rectangles with positive sizes collide exactly when they share a positive area;
/// in particular rectangles that only touch along an edge or a corner do not collide.
pub proof fn lemma_collision_iff_positive_overlap(
    ax: int, ay: int, aw: int, ah: int, bx: int, by: int, bw: int, bh: int,
)
    requires
        aw > 0,
        ah > 0,
        bw > 0,
        bh > 0,
    ensures
        rects_overlap(ax, ay, aw, ah, bx, by, bw, bh) <==> overlap_area(ax, ay, aw, ah, bx, by, bw, bh) > 0,
        (ax + aw == bx || bx + bw == ax || ay + ah == by || by + bh == ay)
            ==> !rects_overlap(ax, ay, aw, ah, bx, by, bw, bh),
{
    let ox = overlap_len(ax, aw, bx, bw);
    let oy = overlap_len(ay, ah, by, bh);
    assert(ox > 0 <==> (ax + aw > bx && ax < bx + bw));
    assert(oy > 0 <==> (ay + ah > by && ay < by + bh));
    if ox > 0 && oy > 0 {
        assert(ox * oy > 0) by (nonlinear_arith)
            requires
                ox > 0,
                oy > 0,
        ;
    }
}

/// Entity of the first candidate, in order, whose box collides with `bounds` at `pos`.
pub open spec fn first_hit(
    pos: Transform, bounds: BoundingBox2D, c: Seq<(usize, Transform, BoundingBox2D)>,
) -> Option<usize>
    decreases c.len(),
{
    if c.len() == 0 {
        None
    } else if bounds.hits(pos, c[0].2, c[0].1) {
        Some(c[0].0)
    } else {
        first_hit(pos, bounds, c.drop_first())
    }
}

/// Scans `potential_targets` (entity, position, box) in order and returns the entity of
/// the first one whose box collides with `single_bounds` at `single_position`.
pub fn find_one_collision(
    single_position: &Transform,
    single_bounds: &BoundingBox2D,
    potential_targets: &[(usize, Transform, BoundingBox2D)],
) -> (r: Option<usize>)
    requires
        single_position.wf(),
        single_bounds.wf(),
        forall|i: int|
            0 <= i < potential_targets@.len() ==> (#[trigger] potential_targets@[i]).1.wf()
                && potential_targets@[i].2.wf(),
    ensures
        r == first_hit(*single_position, *single_bounds, potential_targets@),
        r matches Some(e) ==> exists|i: int| 0 <= i < potential_targets@.len() && (#[trigger] potential_targets@[i]).0 == e,
{
    let ghost all = potential_targets@;
    assert(all.subrange(0, all.len() as int) =~= all);
    let mut k: usize = 0;
    while k < potential_targets.len()
        invariant
            all == potential_targets@,
            0 <= k <= all.len(),
            single_position.wf(),
            single_bounds.wf(),
            forall|i: int| 0 <= i < all.len() ==> (#[trigger] all[i]).1.wf() && all[i].2.wf(),
            first_hit(*single_position, *single_bounds, all) == first_hit(
                *single_position,
                *single_bounds,
                all.subrange(k as int, all.len() as int),
            ),
        decreases all.len() - k,
    {
        let (entity, position, bounds) = potential_targets[k];
        let ghost rest = all.subrange(k as int, all.len() as int);
        assert(rest[0] == all[k as int]);
        if single_bounds.collides_with(single_position, &bounds, &position) {
            return Some(entity);
        }
        assert(rest.drop_first() =~= all.subrange(k + 1, all.len() as int));
        k = k + 1;
    }
    None
}

} // verus!
