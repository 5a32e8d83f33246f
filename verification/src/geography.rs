use vstd::prelude::*;

use crate::constants;
use crate::random::SimRng;

verus! {

/// Largest supported grid side: its square still fits an `i32`.
pub const MAX_GRID_SIZE: i32 = 46340;

/// One cell of the simulation grid, addressed by integer coordinates.
#[derive(Copy, Clone, Hash, PartialEq, Eq, Structural, Debug)]
pub struct Point {
    pub x: i32,
    pub y: i32,
}

/// `q` lies in the Moore neighborhood of `p`: at most one step away on each
/// axis and not `p` itself.
pub open spec fn is_adjacent(p: Point, q: Point) -> bool {
    &&& p.x - 1 <= q.x <= p.x + 1
    &&& p.y - 1 <= q.y <= p.y + 1
    &&& q != p
}

/// `q` lies inside the inclusive rectangle spanned by `start` and `end`.
pub open spec fn in_inclusive_rect(q: Point, start: Point, end: Point) -> bool {
    &&& start.x <= q.x <= end.x
    &&& start.y <= q.y <= end.y
}

/// `q` is a Moore neighbor of `p`, clipped to the inclusive rectangle
/// spanned by `start` and `end`.
pub open spec fn is_neighbor_within(p: Point, q: Point, start: Point, end: Point) -> bool {
    is_adjacent(p, q) && in_inclusive_rect(q, start, end)
}

/// `a` precedes `b` in row-major order: by x first, then by y.
pub open spec fn row_major_before(a: Point, b: Point) -> bool {
    a.x < b.x || (a.x == b.x && a.y < b.y)
}

/// `a` lies in `b`'s own cell or one of its Moore neighbor cells: at most one
/// step apart on each axis.
pub open spec fn within_contact_range(a: Point, b: Point) -> bool {
    &&& b.x - 1 <= a.x <= b.x + 1
    &&& b.y - 1 <= a.y <= b.y + 1
}

/// Contact range is exactly an agent's own cell together with its Moore
/// neighborhood: infection spread and neighbor enumeration agree on what
/// "adjacent" means.
pub proof fn lemma_contact_range_is_neighborhood(a: Point, b: Point)
    ensures
        within_contact_range(a, b) <==> (a == b || is_adjacent(b, a)),
{
}

/// `q` is a Moore neighbor of `p` inside the `size`-by-`size` grid.
pub open spec fn is_grid_neighbor(p: Point, q: Point, size: int) -> bool {
    &&& is_adjacent(p, q)
    &&& 0 <= q.x < size
    &&& 0 <= q.y < size
}

impl Point {
    pub fn new(x: i32, y: i32) -> (p: Point)
        ensures
            p == (Point { x, y }),
    {
        Point { x, y }
    }

    /// Enumerates the Moore neighborhood of this point clipped to the
    /// inclusive rectangle `[start, end]`, in row-major order: every clipped
    /// neighbor appears exactly once and nothing else does.
    #[verifier::loop_isolation(false)]
    pub fn get_neighbor_within(&self, start: Point, end: Point) -> (neighbors: Vec<Point>)
        requires
            i32::MIN < self.x < i32::MAX,
            i32::MIN < self.y < i32::MAX,
        ensures
            neighbors@.len() <= 8,
            forall|k: int|
                0 <= k < neighbors@.len() ==> is_neighbor_within(
                    *self,
                    #[trigger] neighbors@[k],
                    start,
                    end,
                ),
            forall|q: Point| is_neighbor_within(*self, q, start, end) ==> neighbors@.contains(q),
            forall|k1: int, k2: int|
                0 <= k1 < k2 < neighbors@.len() ==> row_major_before(
                    neighbors@[k1],
                    neighbors@[k2],
                ),
            forall|k1: int, k2: int|
                0 <= k1 < k2 < neighbors@.len() ==> neighbors@[k1] != neighbors@[k2],
    {
        let mut candidates: Vec<Point> = Vec::new();
        candidates.push(Point { x: self.x - 1, y: self.y - 1 });
        candidates.push(Point { x: self.x - 1, y: self.y });
        candidates.push(Point { x: self.x - 1, y: self.y + 1 });
        candidates.push(Point { x: self.x, y: self.y - 1 });
        candidates.push(Point { x: self.x, y: self.y + 1 });
        candidates.push(Point { x: self.x + 1, y: self.y - 1 });
        candidates.push(Point { x: self.x + 1, y: self.y });
        candidates.push(Point { x: self.x + 1, y: self.y + 1 });
        proof {
            assert(forall|i: int| 0 <= i < 8 ==> is_adjacent(*self, #[trigger] candidates@[i]));
            assert(forall|i: int, j: int| 0 <= i < j < 8 ==> candidates@[i] != candidates@[j]);
            assert(forall|i: int, j: int|
                0 <= i < j < 8 ==> row_major_before(candidates@[i], candidates@[j]));
            assert forall|q: Point| is_adjacent(*self, q) implies exists|i: int|
                0 <= i < 8 && candidates@[i] == q by {
                if q.x == self.x - 1 {
                    if q.y == self.y - 1 {
                        assert(candidates@[0] == q);
                    } else if q.y == self.y {
                        assert(candidates@[1] == q);
                    } else {
                        assert(candidates@[2] == q);
                    }
                } else if q.x == self.x {
                    if q.y == self.y - 1 {
                        assert(candidates@[3] == q);
                    } else {
                        assert(candidates@[4] == q);
                    }
                } else {
                    if q.y == self.y - 1 {
                        assert(candidates@[5] == q);
                    } else if q.y == self.y {
                        assert(candidates@[6] == q);
                    } else {
                        assert(candidates@[7] == q);
                    }
                }
            }
        }
        let mut neighbors: Vec<Point> = Vec::new();
        let mut idx: usize = 0;
        while idx < 8
            invariant
                idx <= 8,
                neighbors@.len() <= idx,
                forall|k: int|
                    0 <= k < neighbors@.len() ==> is_neighbor_within(
                        *self,
                        #[trigger] neighbors@[k],
                        start,
                        end,
                    ),
                forall|k: int|
                    0 <= k < neighbors@.len() ==> exists|i: int|
                        0 <= i < idx && candidates@[i] == #[trigger] neighbors@[k],
                forall|i: int|
                    0 <= i < idx && in_inclusive_rect(#[trigger] candidates@[i], start, end)
                        ==> neighbors@.contains(candidates@[i]),
                forall|k1: int, k2: int|
                    0 <= k1 < k2 < neighbors@.len() ==> row_major_before(
                        neighbors@[k1],
                        neighbors@[k2],
                    ),
                forall|k1: int, k2: int|
                    0 <= k1 < k2 < neighbors@.len() ==> neighbors@[k1] != neighbors@[k2],
            decreases 8 - idx,
        {
            let q = candidates[idx];
            let ghost prev = neighbors@;
            if start.x <= q.x && q.x <= end.x && start.y <= q.y && q.y <= end.y {
                neighbors.push(q);
                proof {
                    assert(neighbors@ == prev.push(q));
                    assert(neighbors@[prev.len() as int] == q);
                    assert forall|p2: Point| prev.contains(p2) implies neighbors@.contains(
                        p2,
                    ) by {
                        let w = choose|w: int| 0 <= w < prev.len() && prev[w] == p2;
                        assert(neighbors@[w] == p2);
                    }
                }
            }
            idx += 1;
        }
        neighbors
    }

    /// Enumerates the Moore neighborhood of this point clipped to the
    /// `size`-by-`size` grid.
    pub fn get_neighbor_cells(&self, size: i32) -> (neighbors: Vec<Point>)
        requires
            0 <= self.x < size,
            0 <= self.y < size,
        ensures
            neighbors@.len() <= 8,
            forall|k: int|
                0 <= k < neighbors@.len() ==> is_grid_neighbor(
                    *self,
                    #[trigger] neighbors@[k],
                    size as int,
                ),
            forall|q: Point| is_grid_neighbor(*self, q, size as int) ==> neighbors@.contains(q),
            forall|k1: int, k2: int|
                0 <= k1 < k2 < neighbors@.len() ==> row_major_before(
                    neighbors@[k1],
                    neighbors@[k2],
                ),
            forall|k1: int, k2: int|
                0 <= k1 < k2 < neighbors@.len() ==> neighbors@[k1] != neighbors@[k2],
    {
        self.get_neighbor_within(Point { x: 0, y: 0 }, Point { x: size - 1, y: size - 1 })
    }
}

/// `q` lies inside the half-open rectangle `[start, end)`.
pub open spec fn in_half_open_rect(q: Point, start: Point, end: Point) -> bool {
    &&& start.x <= q.x < end.x
    &&& start.y <= q.y < end.y
}

/// No two points of the sequence coincide.
pub open spec fn points_distinct(s: Seq<Point>) -> bool {
    forall|i: int, j: int| 0 <= i < j < s.len() ==> s[i] != s[j]
}

/// Row-major index of a cell inside the rectangle starting at `start` whose
/// column height is `h`.
spec fn cell_index(q: Point, start: Point, h: int) -> int {
    (q.x - start.x) * h + (q.y - start.y)
}

/// The cell holding row-major index `j` inside that rectangle.
spec fn cell_at(j: int, start: Point, h: int) -> Point {
    Point { x: (start.x + j / h) as i32, y: (start.y + j % h) as i32 }
}

/// Bounds of the quotient and remainder of a row-major index.
proof fn lemma_div_below(j: int, h: int, w: int)
    requires
        0 <= j,
        0 < h,
        j < w * h,
    ensures
        0 <= j / h < w,
        0 <= j % h < h,
{
    vstd::arithmetic::div_mod::lemma_fundamental_div_mod(j, h);
    vstd::arithmetic::div_mod::lemma_mod_division_less_than_divisor(j, h);
    let q = j / h;
    let r = j % h;
    assert(0 <= q < w) by (nonlinear_arith)
        requires
            h * q + r == j,
            0 <= r < h,
            0 <= j,
            j < w * h,
            0 < h,
    ;
}

/// A set of distinct points that covers every cell of a rectangle is at least
/// as large as the rectangle.
proof fn lemma_rect_cells_cover(points: Seq<Point>, start: Point, end: Point)
    requires
        start.x <= end.x,
        start.y <= end.y,
        points_distinct(points),
        forall|k: int| 0 <= k < points.len() ==> in_half_open_rect(#[trigger] points[k], start, end),
        forall|j: int|
            0 <= j < (end.x - start.x) * (end.y - start.y) ==> points.contains(
                #[trigger] cell_at(j, start, end.y - start.y),
            ),
    ensures
        points.len() >= (end.x - start.x) * (end.y - start.y),
{
    broadcast use vstd::seq_lib::seq_to_set_is_finite;

    let w = end.x - start.x;
    let h = end.y - start.y;
    let total = w * h;
    if 0 < total {
        assert(0 < h && 0 < w) by (nonlinear_arith)
            requires
                0 <= w,
                0 <= h,
                0 < w * h,
        ;
        let idxs = Seq::new(points.len(), |k: int| cell_index(points[k], start, h));
        assert forall|k1: int, k2: int|
            0 <= k1 < k2 < idxs.len() implies idxs[k1] != idxs[k2] by {
            let p1 = points[k1];
            let p2 = points[k2];
            assert((p1.x - start.x) * h + (p1.y - start.y) != (p2.x - start.x) * h + (p2.y
                - start.y)) by (nonlinear_arith)
                requires
                    0 <= p1.y - start.y < h,
                    0 <= p2.y - start.y < h,
                    !(p1.x == p2.x && p1.y == p2.y),
            ;
        }
        assert(idxs.no_duplicates());
        idxs.unique_seq_to_set();
        assert forall|j: int| 0 <= j < total implies idxs.to_set().contains(j) by {
            assert(points.contains(cell_at(j, start, h)));
            let k = choose|k: int| 0 <= k < points.len() && points[k] == cell_at(j, start, h);
            lemma_div_below(j, h, w);
            vstd::arithmetic::div_mod::lemma_fundamental_div_mod(j, h);
            let t = j / h;
            let r = j % h;
            assert((start.x + t) as i32 == start.x + t);
            assert((start.y + r) as i32 == start.y + r);
            assert(cell_index(cell_at(j, start, h), start, h) == t * h + r);
            assert(t * h + r == j) by (nonlinear_arith)
                requires
                    h * t + r == j,
            ;
            assert(cell_index(cell_at(j, start, h), start, h) == j);
            assert(idxs[k] == j);
        }
        vstd::set_lib::lemma_int_range(0, total);
        assert(vstd::set_lib::set_int_range(0, total) <= idxs.to_set());
        vstd::set_lib::lemma_len_subset(vstd::set_lib::set_int_range(0, total), idxs.to_set());
    } else {
        assert(total <= 0);
    }
}

/// Linear membership scan.
fn contains_point(points: &Vec<Point>, q: Point) -> (r: bool)
    ensures
        r == points@.contains(q),
{
    let mut i: usize = 0;
    let mut found = false;
    while i < points.len()
        invariant
            i <= points@.len(),
            found == exists|k: int| 0 <= k < i && points@[k] == q,
        decreases points@.len() - i,
    {
        if points[i] == q {
            found = true;
        }
        i += 1;
    }
    found
}

/// First cell of the rectangle, in row-major order, that no sampled point
/// occupies yet. One always exists while fewer points than cells were taken.
#[verifier::loop_isolation(false)]
fn find_free_cell(points: &Vec<Point>, start: Point, end: Point) -> (p: Point)
    requires
        0 <= start.x <= end.x <= MAX_GRID_SIZE,
        0 <= start.y <= end.y <= MAX_GRID_SIZE,
        points_distinct(points@),
        forall|k: int|
            0 <= k < points@.len() ==> in_half_open_rect(#[trigger] points@[k], start, end),
        points@.len() < (end.x - start.x) * (end.y - start.y),
    ensures
        in_half_open_rect(p, start, end),
        !points@.contains(p),
{
    let w: i64 = (end.x - start.x) as i64;
    let h: i64 = (end.y - start.y) as i64;
    proof {
        assert(w * h <= MAX_GRID_SIZE * MAX_GRID_SIZE) by (nonlinear_arith)
            requires
                0 <= w <= MAX_GRID_SIZE,
                0 <= h <= MAX_GRID_SIZE,
        ;
        assert(0 < h && 0 < w) by (nonlinear_arith)
            requires
                0 <= w,
                0 <= h,
                points@.len() < w * h,
                0 <= points@.len(),
        ;
    }
    let total: i64 = w * h;
    let mut j: i64 = 0;
    while j < total
        invariant
            0 <= j <= total,
            forall|t: int| 0 <= t < j ==> points@.contains(cell_at(t, start, h as int)),
        decreases total - j,
    {
        proof {
            lemma_div_below(j as int, h as int, w as int);
        }
        let x: i32 = start.x + (j / h) as i32;
        let y: i32 = start.y + (j % h) as i32;
        let q = Point { x, y };
        proof {
            assert(q == cell_at(j as int, start, h as int));
        }
        if !contains_point(points, q) {
            return q;
        }
        j += 1;
    }
    proof {
        lemma_rect_cells_cover(points@, start, end);
        assert(false);
    }
    Point { x: start.x, y: start.y }
}

/// Draws `number_of_points` pairwise-distinct points from the half-open
/// rectangle `[start, end)`. Collisions are resolved by falling back to the
/// first unoccupied cell, so the sampler always terminates.
#[verifier::loop_isolation(false)]
pub fn point_factory_within(
    rng: &mut SimRng,
    start: Point,
    end: Point,
    number_of_points: i32,
) -> (points: Vec<Point>)
    requires
        0 <= start.x <= end.x <= MAX_GRID_SIZE,
        0 <= start.y <= end.y <= MAX_GRID_SIZE,
        0 <= number_of_points <= (end.x - start.x) * (end.y - start.y),
    ensures
        points@.len() == number_of_points,
        points_distinct(points@),
        forall|k: int|
            0 <= k < points@.len() ==> in_half_open_rect(#[trigger] points@[k], start, end),
{
    let w: i64 = (end.x - start.x) as i64;
    let h: i64 = (end.y - start.y) as i64;
    let mut points: Vec<Point> = Vec::new();
    while points.len() < number_of_points as usize
        invariant
            points@.len() <= number_of_points,
            points_distinct(points@),
            forall|k: int|
                0 <= k < points@.len() ==> in_half_open_rect(#[trigger] points@[k], start, end),
        decreases number_of_points - points@.len(),
    {
        proof {
            assert(0 < w && 0 < h) by (nonlinear_arith)
                requires
                    0 <= w,
                    0 <= h,
                    points@.len() < number_of_points,
                    number_of_points <= w * h,
            ;
        }
        let dx = rng.below(w as u64);
        let dy = rng.below(h as u64);
        let x: i32 = start.x + dx as i32;
        let y: i32 = start.y + dy as i32;
        let candidate = Point { x, y };
        if !contains_point(&points, candidate) {
            points.push(candidate);
        } else {
            let free = find_free_cell(&points, start, end);
            points.push(free);
        }
    }
    points
}

/// Draws `number_of_points` pairwise-distinct points uniformly from the
/// `size`-by-`size` grid.
pub fn point_factory(rng: &mut SimRng, size: i32, number_of_points: i32) -> (points: Vec<Point>)
    requires
        0 < size <= MAX_GRID_SIZE,
        0 <= number_of_points <= size * size,
    ensures
        points@.len() == number_of_points,
        points_distinct(points@),
        forall|k: int|
            0 <= k < points@.len() ==> 0 <= #[trigger] points@[k].x < size && 0 <= points@[k].y
                < size,
{
    let points = point_factory_within(
        rng,
        Point::new(0, 0),
        Point::new(size, size),
        number_of_points,
    );
    points
}

/// The housing strip of the grid: every agent's home cell lies here, and the
/// scheduler sends all live agents back here at the end of each work day.
/// Rectangles carried by the three area types are half-open: a point belongs
/// to the area when `start_offset.x <= x < end_offset.x` and likewise on `y`.
#[derive(Copy, Clone, Hash, PartialEq, Eq, Structural, Debug)]
pub struct HousingArea {
    pub start_offset: Point,
    pub end_offset: Point,
}

impl HousingArea {
    pub fn new(grid_size: i32) -> (area: HousingArea)
        requires
            0 <= grid_size,
        ensures
            area.start_offset == (Point { x: 0, y: 0 }),
            area.end_offset.x == grid_size / constants::HOUSE_AREA_RELATED_SIZE,
            area.end_offset.y == grid_size,
    {
        HousingArea {
            start_offset: Point::new(0, 0),
            end_offset: Point::new(grid_size / constants::HOUSE_AREA_RELATED_SIZE, grid_size),
        }
    }

    /// Moore neighborhood of a home cell clipped to this area's corner
    /// rectangle, the placement search space around one house.
    pub fn get_house_dimensions(&self, home_location: Point, _size: i32) -> (neighbors: Vec<
        Point,
    >)
        requires
            i32::MIN < home_location.x < i32::MAX,
            i32::MIN < home_location.y < i32::MAX,
        ensures
            forall|k: int|
                0 <= k < neighbors@.len() ==> is_neighbor_within(
                    home_location,
                    #[trigger] neighbors@[k],
                    self.start_offset,
                    self.end_offset,
                ),
            forall|q: Point|
                is_neighbor_within(home_location, q, self.start_offset, self.end_offset)
                    ==> neighbors@.contains(q),
            forall|k1: int, k2: int|
                0 <= k1 < k2 < neighbors@.len() ==> row_major_before(
                    neighbors@[k1],
                    neighbors@[k2],
                ),
    {
        home_location.get_neighbor_within(self.start_offset, self.end_offset)
    }
}

/// The transport strip between housing and work; agents pass through it on
/// the way to and from work. Half-open bounds, as for `HousingArea`.
#[derive(Copy, Clone, Hash, PartialEq, Eq, Structural, Debug)]
pub struct TransportArea {
    pub start_offset: Point,
    pub end_offset: Point,
}

impl TransportArea {
    pub fn new(start_offset: Point, end_offset: Point) -> (area: TransportArea)
        ensures
            area == (TransportArea { start_offset, end_offset }),
    {
        TransportArea { start_offset, end_offset }
    }
}

/// The work strip at the far side of the grid. Half-open bounds, as for
/// `HousingArea`.
#[derive(Copy, Clone, Hash, PartialEq, Eq, Structural, Debug)]
pub struct WorkArea {
    pub start_offset: Point,
    pub end_offset: Point,
}

impl WorkArea {
    pub fn new(start_offset: Point, end_offset: Point) -> (area: WorkArea)
        ensures
            area == (WorkArea { start_offset, end_offset }),
    {
        WorkArea { start_offset, end_offset }
    }
}

} // verus!
