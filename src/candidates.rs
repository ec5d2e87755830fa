//! Maps classified segments onto the row grid and emits one sampling circle per
//! occupied cell, nearest rows first and left to right within a row.
use vstd::prelude::*;
use crate::image::{row_in_range, rows_in_range, Circle, PixelPoint, Row, PIXEL};
use crate::segments::{ScanLine, Segment};
use std::collections::HashSet;

verus! {

/// A grid cell: the index of a row and the index of a column within it.
pub type Cell = (int, int);

/// The segment from `start` to `end` falls into `row`: the row has a positive
/// radius and its center lies within one radius of the segment's midpoint.
pub open spec fn row_matches(row: Row, start: u16, end: u16) -> bool {
    row.circle_radius > 0 && -2 * row.circle_radius <= 2 * row.center_y - (start + end) * PIXEL
        && 2 * row.center_y - (start + end) * PIXEL <= 2 * row.circle_radius
}

/// The first row, at index `i` or later, that the segment falls into.
pub open spec fn matching_row_from(rows: Seq<Row>, start: u16, end: u16, i: int) -> Option<int>
    decreases rows.len() - i,
{
    if i < 0 || i >= rows.len() {
        None
    } else if row_matches(rows[i], start, end) {
        Some(i)
    } else {
        matching_row_from(rows, start, end, i + 1)
    }
}

/// The column of `row` that holds the horizontal position `x` (in whole pixels).
pub open spec fn column_of(row: Row, x: u16) -> int {
    (x * PIXEL) / (2 * row.circle_radius)
}

/// The cell that a segment of the scan line at `x` claims, if any: none when its
/// leading pixel is already claimed or no row matches it.
pub open spec fn segment_cell(rows: Seq<Row>, claimed: Seq<PixelPoint>, x: u16, segment: Segment) -> Option<Cell> {
    if claimed.contains(PixelPoint { x, y: segment.start }) {
        None
    } else {
        match matching_row_from(rows, segment.start, segment.end, 0) {
            Some(i) => Some((i, column_of(rows[i], x))),
            None => None,
        }
    }
}

/// The cells claimed by the segments of one scan line, in order, repeats included.
pub open spec fn line_cells(rows: Seq<Row>, claimed: Seq<PixelPoint>, x: u16, segments: Seq<Segment>) -> Seq<Cell>
    decreases segments.len(),
{
    if segments.len() == 0 {
        Seq::empty()
    } else {
        let before = line_cells(rows, claimed, x, segments.drop_last());
        match segment_cell(rows, claimed, x, segments.last()) {
            Some(c) => before.push(c),
            None => before,
        }
    }
}

/// The cells claimed by all scan lines, in order, repeats included.
pub open spec fn scan_cells(rows: Seq<Row>, claimed: Seq<PixelPoint>, lines: Seq<ScanLine>) -> Seq<Cell>
    decreases lines.len(),
{
    if lines.len() == 0 {
        Seq::empty()
    } else {
        scan_cells(rows, claimed, lines.drop_last()) + line_cells(
            rows,
            claimed,
            lines.last().position,
            lines.last().segments@,
        )
    }
}

/// Each cell at its first occurrence only, in order of first occurrence.
pub open spec fn first_occurrences(cells: Seq<Cell>) -> Seq<Cell>
    decreases cells.len(),
{
    if cells.len() == 0 {
        cells
    } else {
        let before = first_occurrences(cells.drop_last());
        if before.contains(cells.last()) {
            before
        } else {
            before.push(cells.last())
        }
    }
}

/// The sampling circle of a cell: the row's radius, centered in the column.
pub open spec fn cell_circle(rows: Seq<Row>, cell: Cell) -> Circle {
    let row = rows[cell.0];
    Circle {
        center_x: (row.circle_radius + 2 * row.circle_radius * cell.1) as i64,
        center_y: row.center_y,
        radius: row.circle_radius,
    }
}

/// `a` comes strictly before `b` in the grid's order: lower in the image
/// (larger y), or on the same height and further left.
pub open spec fn precedes(a: Circle, b: Circle) -> bool {
    a.center_y > b.center_y || (a.center_y == b.center_y && a.center_x < b.center_x)
}

/// No circle is followed by one that precedes it.
pub open spec fn is_grid_ordered(s: Seq<Circle>) -> bool {
    forall|i: int, j: int| 0 <= i < j < s.len() ==> !precedes(#[trigger] s[j], #[trigger] s[i])
}

/// Where a stable insertion places `c` into `s`: after every circle that `c`
/// does not precede, scanning from the end.
pub open spec fn insertion_index(s: Seq<Circle>, c: Circle) -> int
    decreases s.len(),
{
    if s.len() == 0 {
        0
    } else if precedes(c, s.last()) {
        insertion_index(s.drop_last(), c)
    } else {
        s.len() as int
    }
}

/// `s` in the grid's order; circles that neither precedes keep their order.
pub open spec fn grid_order(s: Seq<Circle>) -> Seq<Circle>
    decreases s.len(),
{
    if s.len() == 0 {
        s
    } else {
        let sorted = grid_order(s.drop_last());
        sorted.insert(insertion_index(sorted, s.last()), s.last())
    }
}

/// The circles of the occupied cells, in order of first occupation.
pub open spec fn unordered_candidates(rows: Seq<Row>, claimed: Seq<PixelPoint>, lines: Seq<ScanLine>) -> Seq<Circle> {
    first_occurrences(scan_cells(rows, claimed, lines)).map_values(|c: Cell| cell_circle(rows, c))
}

/// The candidate grid for the given scan lines, claimed pixels and rows.
pub open spec fn candidate_grid(rows: Seq<Row>, claimed: Seq<PixelPoint>, lines: Seq<ScanLine>) -> Seq<Circle> {
    grid_order(unordered_candidates(rows, claimed, lines))
}

/// The deduplicated, ordered sampling circles of one cycle.
#[derive(Clone, Debug)]
pub struct PerspectiveGridCandidates {
    pub candidates: Vec<Circle>,
}


fn row_matches_segment(row: Row, segment: &Segment) -> (r: bool)
    requires
        row_in_range(row),
    ensures
        r == row_matches(row, segment.start, segment.end),
{
    if row.circle_radius <= 0 {
        return false;
    }
    let offset = 2 * row.center_y - (segment.start as i64 + segment.end as i64) * PIXEL;
    let reach = 2 * row.circle_radius;
    -reach <= offset && offset <= reach
}

/// The index of the first row that the segment falls into, with that row.
pub fn find_matching_row(rows: &[Row], segment: &Segment) -> (r: Option<(usize, Row)>)
    requires
        rows_in_range(rows@),
    ensures
        r is None <==> matching_row_from(rows@, segment.start, segment.end, 0) is None,
        r matches Some((k, row)) ==> matching_row_from(rows@, segment.start, segment.end, 0)
            == Some(k as int) && k < rows.len() && row == rows@[k as int] && row_matches(
            row,
            segment.start,
            segment.end,
        ),
{
    let mut i: usize = 0;
    while i < rows.len()
        invariant
            i <= rows.len(),
            rows_in_range(rows@),
            matching_row_from(rows@, segment.start, segment.end, 0) == matching_row_from(
                rows@,
                segment.start,
                segment.end,
                i as int,
            ),
        decreases rows.len() - i,
    {
        assert(row_in_range(rows@[i as int]));
        if row_matches_segment(rows[i], segment) {
            return Some((i, rows[i]));
        }
        i += 1;
    }
    None
}

/// A pixel as one integer, for lookups in a hash set.
pub open spec fn pixel_key(p: PixelPoint) -> u32 {
    (p.x * 0x1_0000 + p.y) as u32
}

/// A grid cell with a column in `0..2^64` as one integer, for lookups in a hash set.
pub open spec fn cell_key(cell: Cell) -> u128 {
    (cell.0 * 0x1_0000_0000_0000_0000 + cell.1) as u128
}

pub open spec fn is_keyed_cell(cell: Cell) -> bool {
    0 <= cell.0 < 0x1_0000_0000_0000_0000 && 0 <= cell.1 < 0x1_0000_0000_0000_0000
}

proof fn lemma_cell_key_distinct(a: Cell, b: Cell)
    requires
        is_keyed_cell(a),
        is_keyed_cell(b),
        cell_key(a) == cell_key(b),
    ensures
        a == b,
{
    let s = 0x1_0000_0000_0000_0000int;
    assert(a.0 * s + a.1 < 0x1_0000_0000_0000_0000_0000_0000_0000_0000) by (nonlinear_arith)
        requires
            0 <= a.0 < s,
            0 <= a.1 < s,
            s == 0x1_0000_0000_0000_0000int,
    ;
    assert(b.0 * s + b.1 < 0x1_0000_0000_0000_0000_0000_0000_0000_0000) by (nonlinear_arith)
        requires
            0 <= b.0 < s,
            0 <= b.1 < s,
            s == 0x1_0000_0000_0000_0000int,
    ;
    assert(a.0 == b.0) by (nonlinear_arith)
        requires
            a.0 * s + a.1 == b.0 * s + b.1,
            0 <= a.1 < s,
            0 <= b.1 < s,
            s > 0,
    ;
}

/// The claimed pixels as a hash set of pixel keys.
fn claimed_set(points: &[PixelPoint]) -> (r: HashSet<u32>)
    ensures
        forall|p: PixelPoint| #[trigger] r@.contains(pixel_key(p)) <==> points@.contains(p),
{
    broadcast use vstd::std_specs::hash::group_hash_axioms;

    let mut set: HashSet<u32> = HashSet::new();
    let mut i: usize = 0;
    while i < points.len()
        invariant
            i <= points.len(),
            forall|p: PixelPoint| #[trigger]
                set@.contains(pixel_key(p)) <==> points@.subrange(0, i as int).contains(p),
        decreases points.len() - i,
    {
        let p = points[i];
        set.insert(p.x as u32 * 0x1_0000 + p.y as u32);
        let ghost before = points@.subrange(0, i as int);
        let ghost after = points@.subrange(0, i + 1);
        assert(after =~= before.push(p));
        assert forall|q: PixelPoint| #[trigger] set@.contains(pixel_key(q)) <==> after.contains(q) by {
            if q == p {
                assert(after[i as int] == p);
            }
            if before.contains(q) {
                let k = choose|k: int| 0 <= k < before.len() && #[trigger] before[k] == q;
                assert(after[k] == q);
            }
            if after.contains(q) && q != p {
                let k = choose|k: int| 0 <= k < after.len() && #[trigger] after[k] == q;
                assert(before[k] == q);
            }
        }
        i += 1;
    }
    assert(points@.subrange(0, i as int) =~= points@);
    set
}

fn precedes_exec(a: Circle, b: Circle) -> (r: bool)
    ensures
        r == precedes(a, b),
{
    a.center_y > b.center_y || (a.center_y == b.center_y && a.center_x < b.center_x)
}

proof fn lemma_insertion_index_bounds(s: Seq<Circle>, c: Circle)
    ensures
        0 <= insertion_index(s, c) <= s.len(),
    decreases s.len(),
{
    if s.len() > 0 && precedes(c, s.last()) {
        lemma_insertion_index_bounds(s.drop_last(), c);
    }
}

proof fn lemma_grid_order_len(s: Seq<Circle>)
    ensures
        grid_order(s).len() == s.len(),
    decreases s.len(),
{
    if s.len() > 0 {
        lemma_grid_order_len(s.drop_last());
        lemma_insertion_index_bounds(grid_order(s.drop_last()), s.last());
    }
}

/// Sorts circles into the grid's order, keeping circles that neither precedes
/// in their given order.
fn sort_into_grid_order(v: &Vec<Circle>) -> (r: Vec<Circle>)
    ensures
        r@ == grid_order(v@),
{
    let mut sorted: Vec<Circle> = Vec::new();
    let mut i: usize = 0;
    while i < v.len()
        invariant
            i <= v.len(),
            sorted@ == grid_order(v@.subrange(0, i as int)),
        decreases v.len() - i,
    {
        let c = v[i];
        proof {
            lemma_grid_order_len(v@.subrange(0, i as int));
        }
        let mut p: usize = sorted.len();
        assert(sorted@.subrange(0, p as int) =~= sorted@);
        while p > 0 && precedes_exec(c, sorted[p - 1])
            invariant
                p <= sorted.len(),
                insertion_index(sorted@, c) == insertion_index(sorted@.subrange(0, p as int), c),
            decreases p,
        {
            assert(sorted@.subrange(0, p as int).drop_last() =~= sorted@.subrange(0, p - 1));
            p -= 1;
        }
        proof {
            if p > 0 {
                assert(sorted@.subrange(0, p as int).last() == sorted@[p - 1]);
            }
            assert(insertion_index(sorted@.subrange(0, p as int), c) == p);
            assert(v@.subrange(0, i + 1).drop_last() =~= v@.subrange(0, i as int));
            assert(v@.subrange(0, i + 1).last() == c);
        }
        sorted.insert(p, c);
        i += 1;
    }
    assert(v@.subrange(0, v.len() as int) =~= v@);
    sorted
}


/// Emits one sampling circle for each grid cell that an unclaimed segment falls
/// into, and orders them nearest row first, left to right.
pub fn generate_candidates(
    vertical_scan_lines: &[ScanLine],
    skip_segments: &[PixelPoint],
    rows: &[Row],
) -> (r: PerspectiveGridCandidates)
    requires
        rows_in_range(rows@),
    ensures
        r.candidates@ == candidate_grid(rows@, skip_segments@, vertical_scan_lines@),
        is_grid_ordered(r.candidates@),
{
    broadcast use vstd::std_specs::hash::group_hash_axioms;

    let claimed = claimed_set(skip_segments);
    let mut already_added: HashSet<u128> = HashSet::new();
    let ghost mut added: Seq<Cell> = Seq::empty();
    let mut candidates: Vec<Circle> = Vec::new();
    let ghost mut hits: Seq<Cell> = Seq::empty();
    let mut i: usize = 0;
    while i < vertical_scan_lines.len()
        invariant
            i <= vertical_scan_lines.len(),
            rows_in_range(rows@),
            hits == scan_cells(rows@, skip_segments@, vertical_scan_lines@.subrange(0, i as int)),
            forall|p: PixelPoint| #[trigger] claimed@.contains(pixel_key(p)) <==> skip_segments@.contains(p),
            added == first_occurrences(hits),
            forall|c: Cell| is_keyed_cell(c) ==> (#[trigger] already_added@.contains(cell_key(c)) <==> added.contains(c)),
            candidates@ == added.map_values(|c: Cell| cell_circle(rows@, c)),
        decreases vertical_scan_lines.len() - i,
    {
        let scan_line = &vertical_scan_lines[i];
        let ghost before = hits;
        let mut j: usize = 0;
        assert(scan_line.segments@.subrange(0, 0) =~= Seq::<Segment>::empty());
        assert(before + Seq::<Cell>::empty() =~= before);
        while j < scan_line.segments.len()
            invariant
                j <= scan_line.segments.len(),
                rows_in_range(rows@),
                hits == before + line_cells(
                    rows@,
                    skip_segments@,
                    scan_line.position,
                    scan_line.segments@.subrange(0, j as int),
                ),
                forall|p: PixelPoint| #[trigger] claimed@.contains(pixel_key(p)) <==> skip_segments@.contains(p),
                added == first_occurrences(hits),
                forall|c: Cell| is_keyed_cell(c) ==> (#[trigger] already_added@.contains(cell_key(c)) <==> added.contains(c)),
                candidates@ == added.map_values(|c: Cell| cell_circle(rows@, c)),
            decreases scan_line.segments.len() - j,
        {
            let segment = &scan_line.segments[j];
            let ghost segs = scan_line.segments@.subrange(0, j + 1);
            assert(segs.drop_last() =~= scan_line.segments@.subrange(0, j as int));
            assert(segs.last() == *segment);
            let leading = PixelPoint { x: scan_line.position, y: segment.start };
            let is_claimed = claimed.contains(&(leading.x as u32 * 0x1_0000 + leading.y as u32));
            assert(is_claimed == skip_segments@.contains(leading)) by {
                assert(claimed@.contains(pixel_key(leading)) == skip_segments@.contains(leading));
            }
            if !is_claimed {
                match find_matching_row(rows, segment) {
                    Some((row_index, row)) => {
                        assert(row_in_range(rows@[row_index as int]));
                        let x_units: u64 = scan_line.position as u64 * PIXEL as u64;
                        let width: u64 = 2 * row.circle_radius as u64;
                        let column_u = x_units / width;
                        proof {
                            vstd::arithmetic::div_mod::lemma_fundamental_div_mod(
                                x_units as int,
                                width as int,
                            );
                            vstd::arithmetic::div_mod::lemma_mod_pos_bound(x_units as int, width as int);
                            assert(column_u <= x_units) by (nonlinear_arith)
                                requires
                                    column_u == x_units / width,
                                    width >= 1,
                            {};
                        }
                        let column = column_u as i64;
                        let ghost cell: Cell = (row_index as int, column as int);
                        proof {
                            hits = hits.push(cell);
                        }
                        assert(column as int == column_of(row, scan_line.position));
                        assert(segment_cell(rows@, skip_segments@, scan_line.position, *segment)
                            == Some(cell));
                        assert(hits =~= before + line_cells(
                            rows@,
                            skip_segments@,
                            scan_line.position,
                            segs,
                        ));
                        assert(hits.drop_last() =~= before + line_cells(
                            rows@,
                            skip_segments@,
                            scan_line.position,
                            scan_line.segments@.subrange(0, j as int),
                        ));
                        assert(is_keyed_cell(cell));
                        let key: u128 = row_index as u128 * 0x1_0000_0000_0000_0000u128 + column_u as u128;
                        assert(key == cell_key(cell)) by (nonlinear_arith)
                            requires
                                key == row_index as int * 0x1_0000_0000_0000_0000int + column_u as int,
                                cell == (row_index as int, column_u as int),
                        ;
                        let ghost old_set = already_added@;
                        if already_added.insert(key) {
                            assert(!added.contains(cell));
                            assert(width * column_u <= x_units);
                            let center_x = row.circle_radius + 2 * row.circle_radius * column;
                            let ghost old_added = added;
                            proof {
                                added = added.push(cell);
                                assert forall|c: Cell| is_keyed_cell(c) implies (#[trigger] already_added@.contains(cell_key(c))
                                    <==> added.contains(c)) by {
                                    if cell_key(c) == cell_key(cell) {
                                        lemma_cell_key_distinct(c, cell);
                                    }
                                    if c == cell {
                                        assert(added[added.len() - 1] == c);
                                    }
                                    if old_added.contains(c) {
                                        let k = choose|k: int| 0 <= k < old_added.len() && old_added[k] == c;
                                        assert(added[k] == c);
                                    }
                                    if added.contains(c) && c != cell {
                                        let k = choose|k: int| 0 <= k < added.len() && added[k] == c;
                                        assert(old_added[k] == c);
                                    }
                                }
                            }
                            candidates.push(
                                Circle { center_x, center_y: row.center_y, radius: row.circle_radius },
                            );
                            assert(candidates@ =~= added.map_values(|c: Cell| cell_circle(rows@, c)));
                        } else {
                            assert(added.contains(cell));
                        }
                    },
                    None => {
                        assert(segment_cell(rows@, skip_segments@, scan_line.position, *segment)
                            == None::<Cell>);
                    },
                }
            }
            assert(hits =~= before + line_cells(rows@, skip_segments@, scan_line.position, segs));
            j += 1;
        }
        assert(scan_line.segments@.subrange(0, j as int) =~= scan_line.segments@);
        let ghost lines = vertical_scan_lines@.subrange(0, i + 1);
        assert(lines.drop_last() =~= vertical_scan_lines@.subrange(0, i as int));
        assert(lines.last() == *scan_line);
        i += 1;
    }
    assert(vertical_scan_lines@.subrange(0, i as int) =~= vertical_scan_lines@);
    let sorted = sort_into_grid_order(&candidates);
    proof {
        lemma_candidate_grid_ordered(rows@, skip_segments@, vertical_scan_lines@);
    }
    PerspectiveGridCandidates { candidates: sorted }
}


proof fn lemma_insertion_index_splits(t: Seq<Circle>, c: Circle)
    requires
        is_grid_ordered(t),
    ensures
        0 <= insertion_index(t, c) <= t.len(),
        forall|k: int| 0 <= k < insertion_index(t, c) ==> !precedes(c, #[trigger] t[k]),
        forall|k: int| insertion_index(t, c) <= k < t.len() ==> precedes(c, #[trigger] t[k]),
    decreases t.len(),
{
    if t.len() > 0 {
        let last = t.last();
        if precedes(c, last) {
            let u = t.drop_last();
            assert(is_grid_ordered(u)) by {
                assert forall|i: int, j: int| 0 <= i < j < u.len() implies !precedes(
                    #[trigger] u[j],
                    #[trigger] u[i],
                ) by {
                    assert(u[i] == t[i] && u[j] == t[j]);
                }
            }
            lemma_insertion_index_splits(u, c);
            assert forall|k: int| 0 <= k < insertion_index(t, c) implies !precedes(
                c,
                #[trigger] t[k],
            ) by {
                assert(u[k] == t[k]);
            }
            assert forall|k: int| insertion_index(t, c) <= k < t.len() implies precedes(
                c,
                #[trigger] t[k],
            ) by {
                if k < u.len() {
                    assert(u[k] == t[k]);
                }
            }
        } else {
            assert forall|k: int| 0 <= k < t.len() implies !precedes(c, #[trigger] t[k]) by {
                if k < t.len() - 1 {
                    assert(!precedes(t[t.len() - 1], t[k]));
                }
            }
        }
    }
}

/// Ordering a sequence of circles yields a sequence in the grid's order that
/// holds the same circles, each as often.
pub proof fn lemma_grid_order_sorts(s: Seq<Circle>)
    ensures
        is_grid_ordered(grid_order(s)),
        grid_order(s).to_multiset() == s.to_multiset(),
    decreases s.len(),
{
    broadcast use vstd::seq_lib::to_multiset_insert, vstd::seq_lib::group_to_multiset_ensures;

    if s.len() > 0 {
        let t = grid_order(s.drop_last());
        let c = s.last();
        lemma_grid_order_sorts(s.drop_last());
        lemma_insertion_index_splits(t, c);
        let p = insertion_index(t, c);
        let r = t.insert(p, c);
        assert(r == grid_order(s));
        assert forall|i: int, j: int| 0 <= i < j < r.len() implies !precedes(
            #[trigger] r[j],
            #[trigger] r[i],
        ) by {
            if j < p {
                assert(r[i] == t[i] && r[j] == t[j]);
            } else if j == p {
                assert(r[i] == t[i]);
            } else if i == p {
                assert(r[j] == t[j - 1]);
            } else if i < p {
                assert(r[i] == t[i] && r[j] == t[j - 1]);
            } else {
                assert(r[i] == t[i - 1] && r[j] == t[j - 1]);
            }
        }
        assert(s.drop_last().push(c) =~= s);
    }
}

/// The candidate grid is in the grid's order (descending center y, then
/// ascending center x) and holds exactly the circles of the occupied cells.
pub proof fn lemma_candidate_grid_ordered(rows: Seq<Row>, claimed: Seq<PixelPoint>, lines: Seq<ScanLine>)
    ensures
        is_grid_ordered(candidate_grid(rows, claimed, lines)),
        candidate_grid(rows, claimed, lines).to_multiset() == unordered_candidates(
            rows,
            claimed,
            lines,
        ).to_multiset(),
{
    lemma_grid_order_sorts(unordered_candidates(rows, claimed, lines));
}


/// Deduplication keeps each cell once, and keeps every cell that occurs.
pub proof fn lemma_first_occurrences_distinct(cells: Seq<Cell>)
    ensures
        first_occurrences(cells).no_duplicates(),
        forall|c: Cell| cells.contains(c) <==> #[trigger] first_occurrences(cells).contains(c),
    decreases cells.len(),
{
    if cells.len() > 0 {
        let before = cells.drop_last();
        lemma_first_occurrences_distinct(before);
        let last = cells.last();
        let fb = first_occurrences(before);
        let f = first_occurrences(cells);
        assert forall|c: Cell| cells.contains(c) <==> #[trigger] f.contains(c) by {
            if cells.contains(c) {
                let k = choose|k: int| 0 <= k < cells.len() && cells[k] == c;
                if k < before.len() {
                    assert(before[k] == c);
                    assert(fb.contains(c));
                    let m = choose|m: int| 0 <= m < fb.len() && fb[m] == c;
                    if !fb.contains(last) {
                        assert(f[m] == c);
                    }
                } else if !fb.contains(last) {
                    assert(f[f.len() - 1] == c);
                }
            }
            if f.contains(c) {
                let m = choose|m: int| 0 <= m < f.len() && f[m] == c;
                if m < fb.len() {
                    assert(fb[m] == c);
                    assert(fb.contains(c));
                    assert(before.contains(c));
                    let k = choose|k: int| 0 <= k < before.len() && before[k] == c;
                    assert(cells[k] == c);
                } else {
                    assert(cells[cells.len() - 1] == c);
                }
            }
        }
    }
}


/// Generation is repeatable: two grids generated from the same scan lines,
/// claimed pixels and rows are equal, circle for circle.
pub proof fn lemma_candidates_repeatable(
    rows: Seq<Row>,
    claimed: Seq<PixelPoint>,
    lines: Seq<ScanLine>,
    first: Seq<Circle>,
    second: Seq<Circle>,
)
    requires
        first == candidate_grid(rows, claimed, lines),
        second == candidate_grid(rows, claimed, lines),
    ensures
        first.len() == second.len(),
        forall|i: int| 0 <= i < first.len() ==> first[i] == second[i],
{
}

} // verus!
