//! Rectangles: damage on the framebuffer, and the part of a window that
//! damage covers.

use vstd::prelude::*;

verus! {

/// A rectangle in the coordinates of a window: the top-left corner belongs to
/// it, the bottom-right corner does not. The rectangle from (0, 0) to (0, 0)
/// stands for "no intersection".
#[derive(Debug, Clone, Copy, PartialEq, Eq, Structural)]
pub struct IntersectionPoint {
    left: usize,
    top: usize,
    right: usize,
    bottom: usize,
}

impl IntersectionPoint {
    /// The x-coordinate of the left edge.
    pub closed spec fn left(self) -> int {
        self.left as int
    }

    /// The y-coordinate of the top edge.
    pub closed spec fn top(self) -> int {
        self.top as int
    }

    /// The x-coordinate just right of the last column.
    pub closed spec fn right(self) -> int {
        self.right as int
    }

    /// The y-coordinate just below the last row.
    pub closed spec fn bottom(self) -> int {
        self.bottom as int
    }

    /// The top-left corner is not right of or below the bottom-right corner.
    #[verifier::type_invariant]
    pub closed spec fn wf(self) -> bool {
        &&& self.left <= self.right
        &&& self.top <= self.bottom
    }

    /// A well-formed rectangle has its corners in order and in range.
    pub proof fn lemma_wf(self)
        ensures
            self.wf() <==> (self.left() <= self.right() && self.top() <= self.bottom()),
            0 <= self.left() <= usize::MAX,
            0 <= self.top() <= usize::MAX,
            0 <= self.right() <= usize::MAX,
            0 <= self.bottom() <= usize::MAX,
    {
    }

    /// Two rectangles with the same four edges are the same rectangle.
    pub proof fn lemma_ext(self, other: IntersectionPoint)
        requires
            self.left() == other.left(),
            self.top() == other.top(),
            self.right() == other.right(),
            self.bottom() == other.bottom(),
        ensures
            self == other,
    {
    }

    /// The rectangle that stands for "no intersection".
    pub closed spec fn spec_none() -> IntersectionPoint {
        IntersectionPoint { left: 0, top: 0, right: 0, bottom: 0 }
    }

    /// The rectangle that stands for "no intersection" has all edges at 0.
    pub proof fn lemma_none()
        ensures
            Self::spec_none().wf(),
            Self::spec_none().left() == 0,
            Self::spec_none().top() == 0,
            Self::spec_none().right() == 0,
            Self::spec_none().bottom() == 0,
    {
    }

    /// The rectangle that stands for "no intersection".
    pub fn none() -> (point: Self)
        ensures
            point == Self::spec_none(),
    {
        Self { left: 0, top: 0, right: 0, bottom: 0 }
    }

    /// The rectangle with the given edges.
    pub(crate) fn from_edges(left: usize, top: usize, right: usize, bottom: usize) -> (point: Self)
        requires
            left <= right,
            top <= bottom,
        ensures
            point.left() == left,
            point.top() == top,
            point.right() == right,
            point.bottom() == bottom,
            point.wf(),
    {
        Self { left, top, right, bottom }
    }

    /// The number of columns.
    pub fn width(&self) -> (w: usize)
        ensures
            w == self.right() - self.left(),
    {
        proof {
            use_type_invariant(self);
        }
        self.right - self.left
    }

    /// The number of rows.
    pub fn height(&self) -> (h: usize)
        ensures
            h == self.bottom() - self.top(),
    {
        proof {
            use_type_invariant(self);
        }
        self.bottom - self.top
    }

    /// The x-coordinate of the top-left corner.
    pub fn x(&self) -> (x: usize)
        ensures
            x == self.left(),
    {
        self.left
    }

    /// The y-coordinate of the top-left corner.
    pub fn y(&self) -> (y: usize)
        ensures
            y == self.top(),
    {
        self.top
    }

    /// The smallest rectangle that holds both `self` and `rhs`.
    pub closed spec fn spec_hull(self, rhs: IntersectionPoint) -> IntersectionPoint {
        IntersectionPoint {
            left: if self.left <= rhs.left { self.left } else { rhs.left },
            top: if self.top <= rhs.top { self.top } else { rhs.top },
            right: if self.right >= rhs.right { self.right } else { rhs.right },
            bottom: if self.bottom >= rhs.bottom { self.bottom } else { rhs.bottom },
        }
    }

    /// The union of two rectangles. "No intersection" adds nothing: its
    /// union with a rectangle is that rectangle. The union of two others is
    /// the smallest rectangle that holds both.
    pub closed spec fn spec_add(self, rhs: IntersectionPoint) -> IntersectionPoint {
        if self == Self::spec_none() {
            rhs
        } else if rhs == Self::spec_none() {
            self
        } else {
            self.spec_hull(rhs)
        }
    }

    /// What the union is: the other rectangle where one of the two stands
    /// for "no intersection"; else the rectangle with the smaller of the
    /// left and top edges and the larger of the right and bottom edges. The
    /// union of well-formed rectangles is well formed, and stands for "no
    /// intersection" only where both do.
    pub proof fn lemma_add(self, rhs: IntersectionPoint)
        ensures
            self == Self::spec_none() ==> self.spec_add(rhs) == rhs,
            rhs == Self::spec_none() ==> self.spec_add(rhs) == self,
            self != Self::spec_none() && rhs != Self::spec_none() ==> {
                &&& self.spec_add(rhs).left() == vstd::math::min(self.left(), rhs.left())
                &&& self.spec_add(rhs).top() == vstd::math::min(self.top(), rhs.top())
                &&& self.spec_add(rhs).right() == vstd::math::max(self.right(), rhs.right())
                &&& self.spec_add(rhs).bottom() == vstd::math::max(self.bottom(), rhs.bottom())
            },
            self.wf() && rhs.wf() ==> self.spec_add(rhs).wf(),
            self.wf() && rhs.wf() && (self != Self::spec_none() || rhs != Self::spec_none())
                ==> self.spec_add(rhs) != Self::spec_none(),
    {
    }
}

impl core::ops::Add<IntersectionPoint> for IntersectionPoint {
    type Output = IntersectionPoint;

    /// The union of `self` and `rhs`: the other one where one of them stands
    /// for "no intersection", else the smallest rectangle that holds both.
    fn add(self, rhs: IntersectionPoint) -> (sum: IntersectionPoint) {
        proof {
            use_type_invariant(self);
            use_type_invariant(rhs);
        }
        if self == IntersectionPoint::none() {
            rhs
        } else if rhs == IntersectionPoint::none() {
            self
        } else {
            IntersectionPoint {
                left: if self.left <= rhs.left { self.left } else { rhs.left },
                top: if self.top <= rhs.top { self.top } else { rhs.top },
                right: if self.right >= rhs.right { self.right } else { rhs.right },
                bottom: if self.bottom >= rhs.bottom { self.bottom } else { rhs.bottom },
            }
        }
    }
}

impl vstd::std_specs::ops::AddSpecImpl<IntersectionPoint> for IntersectionPoint {
    open spec fn obeys_add_spec() -> bool {
        true
    }

    open spec fn add_req(self, rhs: IntersectionPoint) -> bool {
        true
    }

    open spec fn add_spec(self, rhs: IntersectionPoint) -> IntersectionPoint {
        self.spec_add(rhs)
    }
}

impl IntersectionPoint {
    /// The union of a sequence of rectangles: "no intersection" for the
    /// empty sequence, else the union of the rectangle at the end with the
    /// union of those before it.
    pub open spec fn spec_sum(points: Seq<IntersectionPoint>) -> IntersectionPoint
        decreases points.len(),
    {
        if points.len() == 0 {
            Self::spec_none()
        } else {
            Self::spec_sum(points.drop_last()).spec_add(points.last())
        }
    }

    /// The union of `points`.
    pub fn sum(points: &Vec<IntersectionPoint>) -> (total: IntersectionPoint)
        ensures
            total == Self::spec_sum(points@),
    {
        let mut results = IntersectionPoint::none();
        let mut i: usize = 0;
        while i < points.len()
            invariant
                i <= points@.len(),
                results == Self::spec_sum(points@.subrange(0, i as int)),
            decreases points@.len() - i,
        {
            let point = points[i];
            proof {
                assert(points@.subrange(0, i + 1).drop_last() =~= points@.subrange(0, i as int));
            }
            results = results + point;
            i += 1;
        }
        assert(points@.subrange(0, i as int) =~= points@);
        results
    }

    /// Whether `self` is the smallest rectangle that holds every rectangle
    /// of `points` but those that stand for "no intersection".
    pub open spec fn bounds(self, points: Seq<IntersectionPoint>) -> bool {
        &&& forall|i: int|
            0 <= i < points.len() && (#[trigger] points[i]) != Self::spec_none() ==> {
                &&& self.left() <= points[i].left()
                &&& self.top() <= points[i].top()
                &&& self.right() >= points[i].right()
                &&& self.bottom() >= points[i].bottom()
            }
        &&& exists|i: int|
            0 <= i < points.len() && (#[trigger] points[i]) != Self::spec_none() && self.left()
                == points[i].left()
        &&& exists|i: int|
            0 <= i < points.len() && (#[trigger] points[i]) != Self::spec_none() && self.top()
                == points[i].top()
        &&& exists|i: int|
            0 <= i < points.len() && (#[trigger] points[i]) != Self::spec_none() && self.right()
                == points[i].right()
        &&& exists|i: int|
            0 <= i < points.len() && (#[trigger] points[i]) != Self::spec_none() && self.bottom()
                == points[i].bottom()
    }

    /// Whether every rectangle of `points` is well formed.
    pub open spec fn all_wf(points: Seq<IntersectionPoint>) -> bool {
        forall|i: int| 0 <= i < points.len() ==> (#[trigger] points[i]).wf()
    }

    /// Whether every rectangle of `points` stands for "no intersection".
    pub open spec fn all_none(points: Seq<IntersectionPoint>) -> bool {
        forall|i: int| 0 <= i < points.len() ==> (#[trigger] points[i]) == Self::spec_none()
    }
}

/// "No intersection" is the neutral element of the union: it leaves every
/// rectangle as it is, on either side.
pub proof fn lemma_union_neutral(a: IntersectionPoint)
    ensures
        a.spec_add(IntersectionPoint::spec_none()) == a,
        IntersectionPoint::spec_none().spec_add(a) == a,
{
    a.lemma_add(IntersectionPoint::spec_none());
    IntersectionPoint::spec_none().lemma_add(a);
}

/// The union of two rectangles does not depend on their order.
pub proof fn lemma_union_commutative(a: IntersectionPoint, b: IntersectionPoint)
    ensures
        a.spec_add(b) == b.spec_add(a),
{
    a.lemma_add(b);
    b.lemma_add(a);
    if a != IntersectionPoint::spec_none() && b != IntersectionPoint::spec_none() {
        a.spec_add(b).lemma_ext(b.spec_add(a));
    }
}

/// The union of three rectangles does not depend on how they are grouped.
pub proof fn lemma_union_associative(a: IntersectionPoint, b: IntersectionPoint, c: IntersectionPoint)
    requires
        a.wf(),
        b.wf(),
        c.wf(),
    ensures
        a.spec_add(b).spec_add(c) == a.spec_add(b.spec_add(c)),
{
    let none = IntersectionPoint::spec_none();
    a.lemma_add(b);
    b.lemma_add(c);
    a.spec_add(b).lemma_add(c);
    a.lemma_add(b.spec_add(c));
    if a != none && b != none && c != none {
        a.spec_add(b).spec_add(c).lemma_ext(a.spec_add(b.spec_add(c)));
    }
}

/// "No intersection" is neutral in a sum: the sum of nothing is "no
/// intersection", and "no intersection" changes no sum, wherever in the
/// sequence it stands.
pub proof fn lemma_sum_identity(front: Seq<IntersectionPoint>, back: Seq<IntersectionPoint>)
    ensures
        IntersectionPoint::spec_sum(Seq::<IntersectionPoint>::empty())
            == IntersectionPoint::spec_none(),
        IntersectionPoint::spec_sum(front + seq![IntersectionPoint::spec_none()] + back)
            == IntersectionPoint::spec_sum(front + back),
    decreases back.len(),
{
    let none = IntersectionPoint::spec_none();
    let with = front + seq![none] + back;
    if back.len() == 0 {
        assert(with.drop_last() =~= front);
        assert(with.last() == none);
        assert(front + back =~= front);
        IntersectionPoint::spec_sum(front).lemma_add(none);
    } else {
        lemma_sum_identity(front, back.drop_last());
        assert(with.drop_last() =~= front + seq![none] + back.drop_last());
        assert(with.last() == back.last());
        assert((front + back).drop_last() =~= front + back.drop_last());
        assert((front + back).last() == back.last());
    }
}

/// The sum of well-formed rectangles is "no intersection" where all of them
/// are, and else the smallest rectangle that holds those that are not.
pub proof fn lemma_sum_bounds(points: Seq<IntersectionPoint>)
    requires
        IntersectionPoint::all_wf(points),
    ensures
        IntersectionPoint::spec_sum(points).wf(),
        IntersectionPoint::all_none(points) ==> IntersectionPoint::spec_sum(points)
            == IntersectionPoint::spec_none(),
        !IntersectionPoint::all_none(points) ==> IntersectionPoint::spec_sum(points).bounds(points)
            && IntersectionPoint::spec_sum(points) != IntersectionPoint::spec_none(),
    decreases points.len(),
{
    let none = IntersectionPoint::spec_none();
    let total = IntersectionPoint::spec_sum(points);
    IntersectionPoint::lemma_none();
    if points.len() > 0 {
        let last = points.last();
        let rest = points.drop_last();
        let last_at = points.len() - 1;
        let before = IntersectionPoint::spec_sum(rest);
        assert(points[last_at] == last);
        assert(last.wf());
        assert(IntersectionPoint::all_wf(rest)) by {
            assert forall|i: int| 0 <= i < rest.len() implies (#[trigger] rest[i]).wf() by {
                assert(rest[i] == points[i]);
            }
        }
        lemma_sum_bounds(rest);
        before.lemma_add(last);
        before.lemma_wf();
        last.lemma_wf();
        total.lemma_wf();
        assert(total == before.spec_add(last));
        if IntersectionPoint::all_none(points) {
            assert(IntersectionPoint::all_none(rest)) by {
                assert forall|i: int| 0 <= i < rest.len() implies (#[trigger] rest[i]) == none by {
                    assert(rest[i] == points[i]);
                }
            }
        } else {
            let some = choose|i: int| 0 <= i < points.len() && (#[trigger] points[i]) != none;
            if IntersectionPoint::all_none(rest) {
                // the rectangle at the end is the only one that counts
                if some < rest.len() {
                    assert(rest[some] == points[some]);
                }
                assert(last != none);
                assert(total == last);
                assert forall|i: int|
                    0 <= i < points.len() && (#[trigger] points[i]) != none implies points[i]
                    == last by {
                    if i < rest.len() {
                        assert(rest[i] == points[i]);
                    }
                }
            } else {
                assert forall|i: int|
                    0 <= i < points.len() && (#[trigger] points[i]) != none implies {
                    &&& total.left() <= points[i].left()
                    &&& total.top() <= points[i].top()
                    &&& total.right() >= points[i].right()
                    &&& total.bottom() >= points[i].bottom()
                } by {
                    if i < rest.len() {
                        assert(rest[i] == points[i]);
                    }
                }
                let l = choose|i: int|
                    0 <= i < rest.len() && (#[trigger] rest[i]) != none && before.left()
                        == rest[i].left();
                let t = choose|i: int|
                    0 <= i < rest.len() && (#[trigger] rest[i]) != none && before.top()
                        == rest[i].top();
                let r = choose|i: int|
                    0 <= i < rest.len() && (#[trigger] rest[i]) != none && before.right()
                        == rest[i].right();
                let b = choose|i: int|
                    0 <= i < rest.len() && (#[trigger] rest[i]) != none && before.bottom()
                        == rest[i].bottom();
                assert(rest[l] == points[l] && rest[t] == points[t] && rest[r] == points[r]
                    && rest[b] == points[b]);
                if last == none {
                    assert(total == before);
                } else {
                    assert(total.left() == points[l].left() || total.left()
                        == points[last_at].left());
                    assert(total.top() == points[t].top() || total.top() == points[last_at].top());
                    assert(total.right() == points[r].right() || total.right()
                        == points[last_at].right());
                    assert(total.bottom() == points[b].bottom() || total.bottom()
                        == points[last_at].bottom());
                }
            }
        }
    }
}

/// The sum over rectangles does not depend on their order: two sequences
/// that hold the same rectangles the same number of times have the same
/// sum.
pub proof fn lemma_sum_permutation(first: Seq<IntersectionPoint>, second: Seq<IntersectionPoint>)
    requires
        IntersectionPoint::all_wf(first),
        IntersectionPoint::all_wf(second),
        first.to_multiset() == second.to_multiset(),
    ensures
        IntersectionPoint::spec_sum(first) == IntersectionPoint::spec_sum(second),
{
    first.to_multiset_ensures();
    second.to_multiset_ensures();
    assert forall|p: IntersectionPoint| first.contains(p) <==> second.contains(p) by {
        assert(first.contains(p) <==> first.to_multiset().count(p) > 0);
        assert(second.contains(p) <==> second.to_multiset().count(p) > 0);
    }
    lemma_same_members_same_sum(first, second);
}

/// Two sequences of well-formed rectangles with the same members have the
/// same sum, however often and wherever a member stands in them.
pub proof fn lemma_same_members_same_sum(
    first: Seq<IntersectionPoint>,
    second: Seq<IntersectionPoint>,
)
    requires
        IntersectionPoint::all_wf(first),
        IntersectionPoint::all_wf(second),
        forall|p: IntersectionPoint|
            p != IntersectionPoint::spec_none() ==> (first.contains(p) <==> second.contains(p)),
    ensures
        IntersectionPoint::spec_sum(first) == IntersectionPoint::spec_sum(second),
{
    let none = IntersectionPoint::spec_none();
    lemma_sum_bounds(first);
    lemma_sum_bounds(second);
    lemma_all_none_carries(first, second);
    lemma_all_none_carries(second, first);
    if !IntersectionPoint::all_none(first) {
        let a = IntersectionPoint::spec_sum(first);
        let b = IntersectionPoint::spec_sum(second);
        lemma_bounds_inside(first, a, second, b);
        lemma_bounds_inside(second, b, first, a);
        a.lemma_ext(b);
    }
}

/// Where all members of a sequence stand for "no intersection", so do all
/// members of a sequence with the same members.
proof fn lemma_all_none_carries(first: Seq<IntersectionPoint>, second: Seq<IntersectionPoint>)
    requires
        forall|p: IntersectionPoint|
            p != IntersectionPoint::spec_none() ==> (first.contains(p) <==> second.contains(p)),
    ensures
        IntersectionPoint::all_none(first) ==> IntersectionPoint::all_none(second),
{
    let none = IntersectionPoint::spec_none();
    if IntersectionPoint::all_none(first) {
        assert forall|j: int| 0 <= j < second.len() implies (#[trigger] second[j]) == none by {
            let p = second[j];
            if p != none {
                assert(second.contains(p));
                assert(first.contains(p));
                let i = choose|i: int| 0 <= i < first.len() && first[i] == p;
                assert(first[i] == none);
            }
        }
    }
}

proof fn lemma_bounds_inside(
    first: Seq<IntersectionPoint>,
    a: IntersectionPoint,
    second: Seq<IntersectionPoint>,
    b: IntersectionPoint,
)
    requires
        a.bounds(first),
        b.bounds(second),
        forall|p: IntersectionPoint|
            p != IntersectionPoint::spec_none() ==> (first.contains(p) <==> second.contains(p)),
    ensures
        b.left() <= a.left(),
        b.top() <= a.top(),
        b.right() >= a.right(),
        b.bottom() >= a.bottom(),
{
    let none = IntersectionPoint::spec_none();
    let l = choose|i: int|
        0 <= i < first.len() && (#[trigger] first[i]) != none && a.left() == first[i].left();
    let t = choose|i: int|
        0 <= i < first.len() && (#[trigger] first[i]) != none && a.top() == first[i].top();
    let r = choose|i: int|
        0 <= i < first.len() && (#[trigger] first[i]) != none && a.right() == first[i].right();
    let m = choose|i: int|
        0 <= i < first.len() && (#[trigger] first[i]) != none && a.bottom() == first[i].bottom();
    lemma_bounds_member(first, second, b, l);
    lemma_bounds_member(first, second, b, t);
    lemma_bounds_member(first, second, b, r);
    lemma_bounds_member(first, second, b, m);
}

proof fn lemma_bounds_member(
    first: Seq<IntersectionPoint>,
    second: Seq<IntersectionPoint>,
    b: IntersectionPoint,
    at: int,
)
    requires
        0 <= at < first.len(),
        first[at] != IntersectionPoint::spec_none(),
        b.bounds(second),
        forall|p: IntersectionPoint|
            p != IntersectionPoint::spec_none() ==> (first.contains(p) <==> second.contains(p)),
    ensures
        b.left() <= first[at].left(),
        b.top() <= first[at].top(),
        b.right() >= first[at].right(),
        b.bottom() >= first[at].bottom(),
{
    let p = first[at];
    assert(first.contains(p));
    assert(second.contains(p));
    let j = choose|j: int| 0 <= j < second.len() && second[j] == p;
    assert(second[j] == p);
}

/// A rectangle of the framebuffer that has to be drawn again: its top-left
/// corner and its size.
#[derive(Debug, Clone, Copy, PartialEq, Eq, Structural)]
pub struct DamageRegion {
    pos_x: usize,
    pos_y: usize,
    width: usize,
    height: usize,
}

impl DamageRegion {
    /// The x-coordinate of the left edge.
    pub closed spec fn x0(self) -> int {
        self.pos_x as int
    }

    /// The y-coordinate of the top edge.
    pub closed spec fn y0(self) -> int {
        self.pos_y as int
    }

    /// The x-coordinate just right of the last column.
    pub closed spec fn x1(self) -> int {
        self.pos_x + self.width
    }

    /// The y-coordinate just below the last row.
    pub closed spec fn y1(self) -> int {
        self.pos_y + self.height
    }

    /// The far edges are in the range of the machine's word.
    #[verifier::type_invariant]
    pub closed spec fn wf(self) -> bool {
        &&& self.pos_x + self.width <= usize::MAX
        &&& self.pos_y + self.height <= usize::MAX
    }

    /// A well-formed region has its edges in order and in range.
    pub proof fn lemma_wf(self)
        ensures
            self.wf() <==> (self.x1() <= usize::MAX && self.y1() <= usize::MAX),
            0 <= self.x0() <= self.x1(),
            0 <= self.y0() <= self.y1(),
            self.x0() <= usize::MAX,
            self.y0() <= usize::MAX,
            self.x1() - self.x0() <= usize::MAX,
            self.y1() - self.y0() <= usize::MAX,
    {
    }

    /// Two regions with the same four edges are the same region.
    pub proof fn lemma_ext(self, other: DamageRegion)
        requires
            self.x0() == other.x0(),
            self.y0() == other.y0(),
            self.x1() == other.x1(),
            self.y1() == other.y1(),
        ensures
            self == other,
    {
    }

    /// The region of `width` by `height` pixels at (`pos_x`, `pos_y`).
    pub closed spec fn spec_new(pos_x: usize, pos_y: usize, width: usize, height: usize) -> DamageRegion {
        DamageRegion { pos_x, pos_y, width, height }
    }

    /// The edges of a region made from a corner and a size.
    pub proof fn lemma_new(pos_x: usize, pos_y: usize, width: usize, height: usize)
        ensures
            Self::spec_new(pos_x, pos_y, width, height).x0() == pos_x,
            Self::spec_new(pos_x, pos_y, width, height).y0() == pos_y,
            Self::spec_new(pos_x, pos_y, width, height).x1() == pos_x + width,
            Self::spec_new(pos_x, pos_y, width, height).y1() == pos_y + height,
    {
    }

    /// The region of `width` by `height` pixels at (`pos_x`, `pos_y`), cut
    /// where it would leave the range of the machine's word.
    pub fn new(pos_x: usize, pos_y: usize, width: usize, height: usize) -> (region: Self)
        ensures
            region.wf(),
            pos_x + width <= usize::MAX && pos_y + height <= usize::MAX ==> region == Self::spec_new(
                pos_x,
                pos_y,
                width,
                height,
            ),
            region.x0() == pos_x,
            region.y0() == pos_y,
            region.x1() == vstd::math::min(pos_x + width, usize::MAX as int),
            region.y1() == vstd::math::min(pos_y + height, usize::MAX as int),
    {
        let width = if width <= usize::MAX - pos_x { width } else { usize::MAX - pos_x };
        let height = if height <= usize::MAX - pos_y { height } else { usize::MAX - pos_y };
        Self { pos_x, pos_y, width, height }
    }

    /// The x-coordinate of the top-left corner.
    pub fn pos_x(&self) -> (x: usize)
        ensures
            x == self.x0(),
    {
        self.pos_x
    }

    /// The y-coordinate of the top-left corner.
    pub fn pos_y(&self) -> (y: usize)
        ensures
            y == self.y0(),
    {
        self.pos_y
    }

    /// The number of columns.
    pub fn width(&self) -> (w: usize)
        ensures
            w == self.x1() - self.x0(),
    {
        self.width
    }

    /// The number of rows.
    pub fn height(&self) -> (h: usize)
        ensures
            h == self.y1() - self.y0(),
    {
        self.height
    }

    /// Whether the pixel at (`x`, `y`) lies in the region.
    pub open spec fn covers(self, x: int, y: int) -> bool {
        self.x0() <= x < self.x1() && self.y0() <= y < self.y1()
    }

    /// Whether the region holds no pixel at all.
    pub open spec fn is_empty(self) -> bool {
        self.x0() == self.x1() || self.y0() == self.y1()
    }

    /// Whether `self` and `win` meet: each starts before the other ends, in
    /// both directions.
    pub open spec fn intersects(self, win: DamageRegion) -> bool {
        &&& self.x0() < win.x1()
        &&& self.x1() > win.x0()
        &&& self.y0() < win.y1()
        &&& self.y1() > win.y0()
    }

    /// Whether `point` is the part of `win` that `self` covers, in the
    /// coordinates of `win`.
    pub open spec fn intersection_is(self, win: DamageRegion, point: IntersectionPoint) -> bool {
        &&& point.left() == vstd::math::max(self.x0(), win.x0()) - win.x0()
        &&& point.top() == vstd::math::max(self.y0(), win.y0()) - win.y0()
        &&& point.right() == vstd::math::min(self.x1(), win.x1()) - win.x0()
        &&& point.bottom() == vstd::math::min(self.y1(), win.y1()) - win.y0()
    }

    /// The part of the rectangle `win` that `self` covers, in the
    /// coordinates of `win`, where the two meet.
    pub closed spec fn spec_intersection(self, win: DamageRegion) -> IntersectionPoint {
        IntersectionPoint {
            left: (vstd::math::max(self.x0(), win.x0()) - win.x0()) as usize,
            top: (vstd::math::max(self.y0(), win.y0()) - win.y0()) as usize,
            right: (vstd::math::min(self.x1(), win.x1()) - win.x0()) as usize,
            bottom: (vstd::math::min(self.y1(), win.y1()) - win.y0()) as usize,
        }
    }

    /// The intersection of two regions that meet has the edges that
    /// [`Self::intersection_is`] names and lies inside the second region.
    /// Where both regions hold a pixel, so does the intersection, which then
    /// does not stand for "no intersection".
    pub proof fn lemma_intersection(self, win: DamageRegion)
        requires
            self.wf(),
            win.wf(),
            self.intersects(win),
        ensures
            self.intersection_is(win, self.spec_intersection(win)),
            self.spec_intersection(win).wf(),
            self.spec_intersection(win).right() <= win.x1() - win.x0(),
            self.spec_intersection(win).bottom() <= win.y1() - win.y0(),
            !self.is_empty() && !win.is_empty() ==> {
                &&& self.spec_intersection(win).left() < self.spec_intersection(win).right()
                &&& self.spec_intersection(win).top() < self.spec_intersection(win).bottom()
                &&& self.spec_intersection(win) != IntersectionPoint::spec_none()
            },
    {
    }

    /// The part of the rectangle `win` that `self` covers, in the
    /// coordinates of `win`; `None` when the two do not meet.
    pub fn intersect(&self, win: &DamageRegion) -> (point: Option<IntersectionPoint>)
        ensures
            point is Some <==> self.intersects(*win),
            point matches Some(p) ==> p.wf() && self.intersection_is(*win, p) && p
                == self.spec_intersection(*win),
    {
        proof {
            use_type_invariant(self);
            use_type_invariant(win);
        }
        let d_x0 = self.pos_x;
        let d_x1 = self.pos_x + self.width;
        let d_y0 = self.pos_y;
        let d_y1 = self.pos_y + self.height;

        let w_x0 = win.pos_x;
        let w_x1 = win.pos_x + win.width;
        let w_y0 = win.pos_y;
        let w_y1 = win.pos_y + win.height;

        if (d_x0 < w_x1 && d_x1 > w_x0) && (d_y0 < w_y1 && d_y1 > w_y0) {
            let i_x0 = (if d_x0 >= w_x0 { d_x0 } else { w_x0 }) - w_x0;
            let i_x1 = (if d_x1 <= w_x1 { d_x1 } else { w_x1 }) - w_x0;
            let i_y0 = (if d_y0 >= w_y0 { d_y0 } else { w_y0 }) - w_y0;
            let i_y1 = (if d_y1 <= w_y1 { d_y1 } else { w_y1 }) - w_y0;
            Some(IntersectionPoint::from_edges(i_x0, i_y0, i_x1, i_y1))
        } else {
            None
        }
    }
}

/// Two rectangles that each hold a pixel meet exactly when some pixel lies
/// in both.
pub proof fn lemma_intersects_iff_common_pixel(damage: DamageRegion, win: DamageRegion)
    requires
        !damage.is_empty(),
        !win.is_empty(),
    ensures
        damage.intersects(win) <==> exists|x: int, y: int|
            damage.covers(x, y) && #[trigger] win.covers(x, y),
{
    damage.lemma_wf();
    win.lemma_wf();
    if damage.intersects(win) {
        let x = vstd::math::max(damage.x0(), win.x0());
        let y = vstd::math::max(damage.y0(), win.y0());
        assert(damage.covers(x, y) && win.covers(x, y));
    }
}

/// The intersection of two rectangles that meet holds, in the coordinates of
/// the second, exactly the pixels that lie in both.
pub proof fn lemma_intersection_pixels(
    damage: DamageRegion,
    win: DamageRegion,
    point: IntersectionPoint,
    x: int,
    y: int,
)
    requires
        damage.intersects(win),
        damage.intersection_is(win, point),
    ensures
        (damage.covers(x, y) && win.covers(x, y)) <==> (point.left() <= x - win.x0()
            < point.right() && point.top() <= y - win.y0() < point.bottom()),
{
    damage.lemma_wf();
    win.lemma_wf();
}

} // verus!
