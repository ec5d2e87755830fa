//! Walks the image from the bottom row up to the horizon and lays out rows of
//! touching sampling circles whose radius follows the perspective.
//!
//! The pixel radius of the object at each row comes from the camera's
//! projection, which this module does not compute: a `RowScan` asks for it
//! with `next_query`, is told the answer with `advance`, and decides the rest.
use vstd::prelude::*;
use crate::calibration::CameraMatrix;
use crate::image::{row_in_range, Horizon, ImageSize, Row, PIXEL};

verus! {

/// The largest vertical extent of the walk, in fixed-point units.
pub const SCAN_LIMIT: i64 = 0x1000_0000_0000;

/// Consecutive rows touch: each lies two of its predecessor's radii above it.
pub open spec fn rows_packed(rows: Seq<Row>) -> bool {
    forall|i: int|
        0 <= i < rows.len() - 1 ==> #[trigger] rows[i].center_y - rows[i + 1].center_y == 2
            * rows[i].circle_radius
}

/// Every row's radius is at least `minimum_radius`.
pub open spec fn rows_at_least(rows: Seq<Row>, minimum_radius: int) -> bool {
    forall|i: int| 0 <= i < rows.len() ==> #[trigger] rows[i].circle_radius >= minimum_radius
}

/// The image column, in fixed-point units, along which radii are sampled: the
/// left edge when the horizon is higher there, else the right edge.
pub open spec fn sampling_x(horizon: Horizon, image_size: ImageSize) -> int {
    if horizon.left_horizon_y < horizon.right_horizon_y {
        0
    } else {
        (image_size.width - 1) * PIXEL
    }
}

/// No rows are laid out for an empty image or an object without extent.
pub open spec fn is_degenerate(image_size: ImageSize, object_radius: i32) -> bool {
    image_size.width == 0 || image_size.height == 0 || object_radius <= 0
}

/// The point at which the projected radius of the object is wanted, in
/// fixed-point units.
#[derive(Clone, Copy, Debug, PartialEq, Eq, Structural)]
pub struct RadiusQuery {
    pub x: i64,
    pub y: i64,
}

/// The state of one walk from the bottom of the image towards the horizon.
pub struct RowScan {
    /// The image column along which radii are sampled.
    pub reference_x: i64,
    /// The walk continues while the current center is at or below this height.
    pub horizon_y: i64,
    /// The real-world radius of the object whose image the circles should
    /// cover, in thousandths of a metre.
    pub object_radius: i64,
    /// Rows with a smaller radius end the walk.
    pub minimum_radius: i64,
    /// The most recent radius: the fallback until a projection succeeds.
    pub radius: i64,
    /// The vertical center of the next row.
    pub center_y: i64,
    /// The rows laid out so far, bottom first.
    pub rows: Vec<Row>,
    /// Set once a radius below the minimum was met, or from the start for
    /// degenerate inputs.
    pub stopped: bool,
}

impl RowScan {
    /// The state is consistent: its values fit the arithmetic, and the rows so far
    /// are packed, no smaller than the minimum, and touch the next center.
    pub open spec fn wf(&self) -> bool {
        &&& 1 <= self.minimum_radius <= i32::MAX
        &&& i32::MIN <= self.horizon_y <= i32::MAX
        &&& i32::MIN <= self.object_radius <= i32::MAX
        &&& i32::MIN <= self.radius <= i32::MAX
        &&& -SCAN_LIMIT <= self.center_y <= SCAN_LIMIT
        &&& rows_packed(self.rows@)
        &&& rows_at_least(self.rows@, self.minimum_radius as int)
        &&& forall|i: int| 0 <= i < self.rows@.len() ==> #[trigger] row_in_range(self.rows@[i])
        &&& forall|i: int| 0 <= i < self.rows@.len() ==> #[trigger] self.rows@[i].circle_radius <= i32::MAX
        &&& self.rows@.len() > 0 ==> self.rows@.last().center_y - self.center_y == 2
            * self.rows@.last().circle_radius
    }

    /// The walk goes on: no radius below the minimum was met, the next center
    /// is at or below the horizon, and it lies less than the object's radius
    /// above the top of the image.
    pub open spec fn continues(&self) -> bool {
        !self.stopped && self.center_y >= self.horizon_y && self.center_y + self.object_radius > 0
    }

    /// The radius that the next row gets: the projected one if the projection
    /// succeeded, else the last known one.
    pub open spec fn next_radius(&self, measured: Option<i32>) -> int {
        match measured {
            Some(m) => m as int,
            None => self.radius as int,
        }
    }

    /// `next` is this state after the answer `measured`: the configuration is
    /// kept, the answer (or the last radius, for `None`) becomes the radius, and
    /// a radius below the minimum ends the walk while any other lays out a row
    /// at the current center and moves the center up by its diameter.
    pub open spec fn advances_to(&self, next: RowScan, measured: Option<i32>) -> bool {
        let radius = self.next_radius(measured);
        &&& next.reference_x == self.reference_x
        &&& next.horizon_y == self.horizon_y
        &&& next.object_radius == self.object_radius
        &&& next.minimum_radius == self.minimum_radius
        &&& next.radius == radius
        &&& radius < self.minimum_radius ==> {
            &&& next.stopped
            &&& next.rows@ == self.rows@
            &&& next.center_y == self.center_y
        }
        &&& radius >= self.minimum_radius ==> {
            &&& !next.stopped
            &&& next.rows@ == self.rows@.push(
                Row { circle_radius: radius as i64, center_y: self.center_y },
            )
            &&& next.center_y == self.center_y - 2 * radius
        }
    }

    /// The two states agree in every field.
    pub open spec fn same_state(&self, other: RowScan) -> bool {
        &&& self.reference_x == other.reference_x
        &&& self.horizon_y == other.horizon_y
        &&& self.object_radius == other.object_radius
        &&& self.minimum_radius == other.minimum_radius
        &&& self.radius == other.radius
        &&& self.center_y == other.center_y
        &&& self.rows@ == other.rows@
        &&& self.stopped == other.stopped
    }

    /// Starts a walk at the bottom row of an image of `image_size`, sampling radii
    /// along the left edge when the horizon is higher there and along the right
    /// edge otherwise; the walk reads the horizon's height at the left edge. For
    /// an empty image or an object without extent the walk is over at once.
    pub fn new(
        horizon: Horizon,
        image_size: ImageSize,
        minimum_radius: i32,
        fallback_radius: i32,
        object_radius: i32,
    ) -> (r: RowScan)
        requires
            minimum_radius > 0,
        ensures
            r.wf(),
            r.reference_x == sampling_x(horizon, image_size),
            r.horizon_y == horizon.left_horizon_y,
            r.object_radius == object_radius,
            r.minimum_radius == minimum_radius,
            r.radius == fallback_radius,
            r.center_y == (image_size.height - 1) * PIXEL,
            r.rows@ == Seq::<Row>::empty(),
            r.stopped == is_degenerate(image_size, object_radius),
    {
        let reference_x: i64 = if horizon.left_horizon_y < horizon.right_horizon_y {
            0
        } else {
            (image_size.width as i64 - 1) * PIXEL
        };
        RowScan {
            reference_x,
            horizon_y: horizon.left_horizon_y as i64,
            object_radius: object_radius as i64,
            minimum_radius: minimum_radius as i64,
            radius: fallback_radius as i64,
            center_y: (image_size.height as i64 - 1) * PIXEL,
            rows: Vec::new(),
            stopped: image_size.width == 0 || image_size.height == 0 || object_radius <= 0,
        }
    }

    /// Where the projected radius is wanted next, or `None` once the walk is over.
    pub fn next_query(&self) -> (r: Option<RadiusQuery>)
        requires
            self.wf(),
        ensures
            r is Some <==> self.continues(),
            r matches Some(q) ==> q.x == self.reference_x && q.y == self.center_y,
    {
        if !self.stopped && self.center_y >= self.horizon_y && self.center_y + self.object_radius
            > 0 {
            Some(RadiusQuery { x: self.reference_x, y: self.center_y })
        } else {
            None
        }
    }

    /// Takes the projected radius at the last query (`None` where the
    /// projection failed) and lays out the next row, or ends the walk if the
    /// radius is below the minimum.
    pub fn advance(&mut self, measured: Option<i32>)
        requires
            old(self).wf(),
            old(self).continues(),
        ensures
            final(self).wf(),
            old(self).advances_to(*final(self), measured),
    {
        let radius: i64 = match measured {
            Some(m) => m as i64,
            None => self.radius,
        };
        self.radius = radius;
        if radius < self.minimum_radius {
            self.stopped = true;
            return;
        }
        let row = Row { circle_radius: radius, center_y: self.center_y };
        let ghost before = self.rows@;
        self.rows.push(row);
        self.center_y = self.center_y - 2 * radius;
        proof {
            let rows = self.rows@;
            assert(rows.drop_last() == before);
            assert forall|i: int| 0 <= i < rows.len() - 1 implies #[trigger] rows[i].center_y
                - rows[i + 1].center_y == 2 * rows[i].circle_radius by {
                if i < before.len() - 1 {
                    assert(rows[i] == before[i] && rows[i + 1] == before[i + 1]);
                } else {
                    assert(rows[i] == before.last());
                }
            }
        }
    }

    /// The rows laid out, bottom first: packed, and none smaller than the minimum.
    pub fn into_rows(self) -> (r: Vec<Row>)
        requires
            self.wf(),
        ensures
            r@ == self.rows@,
            rows_packed(r@),
            rows_at_least(r@, self.minimum_radius as int),
            crate::image::rows_in_range(r@),
    {
        self.rows
    }
}


/// The radius that a row gets when the projection answers `answer`: the
/// answer if there is one, else `previous`.
pub open spec fn carried_radius(answer: Option<i32>, previous: int) -> int {
    match answer {
        Some(v) => v as int,
        None => previous,
    }
}

/// The radius before row `i`: the fallback for the first row, else the radius
/// of the row before it.
pub open spec fn previous_radius(rows: Seq<Row>, i: int, fallback_radius: i32) -> int {
    if i == 0 {
        fallback_radius as int
    } else {
        rows[i - 1].circle_radius as int
    }
}

/// Where the row after `rows` would be centered: the bottom row of the image
/// first, then one diameter above the last row.
pub open spec fn next_center(rows: Seq<Row>, image_size: ImageSize) -> int {
    if rows.len() == 0 {
        (image_size.height - 1) * PIXEL
    } else {
        rows.last().center_y - 2 * rows.last().circle_radius
    }
}

/// A row centered at `center_y` may be laid out: it is at or below the
/// horizon's left-edge height and less than the object's radius above the top.
pub open spec fn in_band(center_y: int, horizon: Horizon, object_radius: i32) -> bool {
    center_y >= horizon.left_horizon_y && center_y + object_radius > 0
}

/// Where the walk asks for the radius of a row centered at `center_y`.
pub open spec fn query_at(camera_matrix: CameraMatrix, image_size: ImageSize, center_y: int) -> RadiusQuery {
    RadiusQuery { x: sampling_x(camera_matrix.horizon, image_size) as i64, y: center_y as i64 }
}

/// `radius` is what a row gets for some answer that `radius_at` may give at `query`,
/// with `previous` standing in for a failed projection.
pub open spec fn answered<F: Fn(RadiusQuery) -> Option<i32>>(radius_at: F, query: RadiusQuery, previous: int, radius: int) -> bool {
    exists|m: Option<i32>| #[trigger] radius_at.ensures((query,), m) && carried_radius(m, previous) == radius
}

/// `radius_at` may answer at `query` with a radius (or, failing, `previous`)
/// below `minimum_radius`.
pub open spec fn answered_below<F: Fn(RadiusQuery) -> Option<i32>>(
    radius_at: F,
    query: RadiusQuery,
    previous: int,
    minimum_radius: i32,
) -> bool {
    exists|m: Option<i32>| #[trigger] radius_at.ensures((query,), m) && carried_radius(m, previous) < minimum_radius
}

/// `rows` is how a walk begins: it starts at the bottom row, consecutive rows
/// touch, every row lies in the band and has the radius that the projection
/// answered at its center (or the radius before it, where the projection
/// failed), no smaller than the minimum; degenerate inputs give no rows.
pub open spec fn is_walk_prefix<F: Fn(RadiusQuery) -> Option<i32>>(
    camera_matrix: CameraMatrix,
    image_size: ImageSize,
    minimum_radius: i32,
    fallback_radius: i32,
    object_radius: i32,
    radius_at: F,
    rows: Seq<Row>,
) -> bool {
    &&& rows_packed(rows)
    &&& rows_at_least(rows, minimum_radius as int)
    &&& crate::image::rows_in_range(rows)
    &&& is_degenerate(image_size, object_radius) ==> rows.len() == 0
    &&& rows.len() > 0 ==> rows[0].center_y == (image_size.height - 1) * PIXEL
    &&& forall|i: int|
        0 <= i < rows.len() ==> in_band(#[trigger] rows[i].center_y as int, camera_matrix.horizon, object_radius)
            && answered(
            radius_at,
            query_at(camera_matrix, image_size, rows[i].center_y as int),
            previous_radius(rows, i, fallback_radius),
            rows[i].circle_radius as int,
        )
}

/// `rows` is the whole walk: a walk that stops only where the next row would
/// leave the band or the projection may answer there with a radius below the
/// minimum.
pub open spec fn is_row_walk<F: Fn(RadiusQuery) -> Option<i32>>(
    camera_matrix: CameraMatrix,
    image_size: ImageSize,
    minimum_radius: i32,
    fallback_radius: i32,
    object_radius: i32,
    radius_at: F,
    rows: Seq<Row>,
) -> bool {
    let next = next_center(rows, image_size);
    &&& is_walk_prefix(camera_matrix, image_size, minimum_radius, fallback_radius, object_radius, radius_at, rows)
    &&& !is_degenerate(image_size, object_radius) ==> !in_band(next, camera_matrix.horizon, object_radius)
        || answered_below(
        radius_at,
        query_at(camera_matrix, image_size, next),
        previous_radius(rows, rows.len() as int, fallback_radius),
        minimum_radius,
    )
}

/// Lays out the rows for an image of `image_size` taken with `camera_matrix`,
/// walking up to its horizon. `radius_at` gives the projected radius of the
/// object at a point, or `None` where the projection fails; the last known
/// radius, starting from `fallback_radius`, stands in for a failure.
pub fn generate_rows<F: Fn(RadiusQuery) -> Option<i32>>(
    camera_matrix: &CameraMatrix,
    image_size: ImageSize,
    minimum_radius: i32,
    fallback_radius: i32,
    object_radius: i32,
    radius_at: F,
) -> (r: Vec<Row>)
    requires
        minimum_radius > 0,
        forall|q: RadiusQuery| radius_at.requires((q,)),
    ensures
        is_row_walk(*camera_matrix, image_size, minimum_radius, fallback_radius, object_radius, radius_at, r@),
{
    let horizon = camera_matrix.horizon;
    let mut scan = RowScan::new(horizon, image_size, minimum_radius, fallback_radius, object_radius);
    let ghost mut stop_answer: Option<i32> = None;
    loop
        invariant
            scan.wf(),
            scan.horizon_y == horizon.left_horizon_y,
            horizon == camera_matrix.horizon,
            scan.object_radius == object_radius,
            scan.minimum_radius == minimum_radius,
            scan.reference_x == sampling_x(horizon, image_size),
            forall|q: RadiusQuery| radius_at.requires((q,)),
            is_degenerate(image_size, object_radius) ==> scan.stopped,
            scan.center_y == next_center(scan.rows@, image_size),
            !scan.stopped ==> scan.radius == previous_radius(scan.rows@, scan.rows@.len() as int, fallback_radius),
            scan.stopped && !is_degenerate(image_size, object_radius) ==> radius_at.ensures(
                (query_at(*camera_matrix, image_size, scan.center_y as int),),
                stop_answer,
            ) && carried_radius(stop_answer, previous_radius(scan.rows@, scan.rows@.len() as int, fallback_radius))
                < minimum_radius,
            is_walk_prefix(*camera_matrix, image_size, minimum_radius, fallback_radius, object_radius, radius_at, scan.rows@),
        ensures
            scan.wf(),
            is_row_walk(*camera_matrix, image_size, minimum_radius, fallback_radius, object_radius, radius_at, scan.rows@),
        decreases
            if scan.continues() {
                scan.center_y - scan.horizon_y + 1
            } else {
                0
            },
    {
        let query = match scan.next_query() {
            Some(q) => q,
            None => {
                proof {
                    let rows = scan.rows@;
                    let next = next_center(rows, image_size);
                    let prev = previous_radius(rows, rows.len() as int, fallback_radius);
                    if !is_degenerate(image_size, object_radius) {
                        if scan.stopped {
                            assert(radius_at.ensures((query_at(*camera_matrix, image_size, next),), stop_answer));
                            assert(carried_radius(stop_answer, prev) < minimum_radius);
                            assert(answered_below(radius_at, query_at(*camera_matrix, image_size, next), prev, minimum_radius));
                        } else {
                            assert(!in_band(next, camera_matrix.horizon, object_radius));
                        }
                    }
                    assert(is_row_walk(*camera_matrix, image_size, minimum_radius, fallback_radius, object_radius, radius_at, rows));
                }
                break;
            },
        };
        let measured = radius_at(query);
        let ghost before = scan.rows@;
        let ghost previous = scan.radius as int;
        assert(query == query_at(*camera_matrix, image_size, scan.center_y as int));
        scan.advance(measured);
        proof {
            let rows = scan.rows@;
            if rows.len() > before.len() {
                let k = before.len() as int;
                assert(rows.drop_last() == before);
                assert forall|i: int| 0 <= i < before.len() implies rows[i] == before[i] by {}
                assert(previous_radius(rows, k, fallback_radius) == previous);
                assert(radius_at.ensures((query,), measured) && carried_radius(measured, previous) == rows[k].circle_radius);
                assert forall|i: int| 0 <= i < rows.len() implies in_band(#[trigger] rows[i].center_y as int, camera_matrix.horizon, object_radius)
                    && answered(
                    radius_at,
                    query_at(*camera_matrix, image_size, rows[i].center_y as int),
                    previous_radius(rows, i, fallback_radius),
                    rows[i].circle_radius as int,
                ) by {
                    if i < k {
                        assert(rows[i] == before[i]);
                        assert(previous_radius(rows, i, fallback_radius) == previous_radius(before, i, fallback_radius));
                    } else {
                        assert(radius_at.ensures((query_at(*camera_matrix, image_size, rows[i].center_y as int),), measured));
                    }
                }
            } else {
                stop_answer = measured;
            }
        }
    }
    scan.into_rows()
}

/// The walk is repeatable: two walks in the same state that are given the same
/// answer end up in the same state, with the same rows, row for row.
pub proof fn lemma_row_scan_repeatable(
    first: RowScan,
    first_next: RowScan,
    second: RowScan,
    second_next: RowScan,
    measured: Option<i32>,
)
    requires
        first.same_state(second),
        first.advances_to(first_next, measured),
        second.advances_to(second_next, measured),
    ensures
        first_next.same_state(second_next),
{
}


/// The projection gives at most one answer at each point.
pub open spec fn is_deterministic<F: Fn(RadiusQuery) -> Option<i32>>(radius_at: F) -> bool {
    forall|q: RadiusQuery, a: Option<i32>, b: Option<i32>|
        #[trigger] radius_at.ensures((q,), a) && #[trigger] radius_at.ensures((q,), b) ==> a == b
}

proof fn lemma_walks_agree_upto<F: Fn(RadiusQuery) -> Option<i32>>(
    camera_matrix: CameraMatrix,
    image_size: ImageSize,
    minimum_radius: i32,
    fallback_radius: i32,
    object_radius: i32,
    radius_at: F,
    first: Seq<Row>,
    second: Seq<Row>,
    k: int,
)
    requires
        is_deterministic(radius_at),
        is_walk_prefix(camera_matrix, image_size, minimum_radius, fallback_radius, object_radius, radius_at, first),
        is_walk_prefix(camera_matrix, image_size, minimum_radius, fallback_radius, object_radius, radius_at, second),
        0 <= k <= first.len(),
        k <= second.len(),
    ensures
        forall|i: int| 0 <= i < k ==> first[i] == second[i],
    decreases k,
{
    if k > 0 {
        lemma_walks_agree_upto(camera_matrix, image_size, minimum_radius, fallback_radius, object_radius, radius_at, first, second, k - 1);
        let i = k - 1;
        if i > 0 {
            assert(first[i - 1] == second[i - 1]);
            assert(first[i - 1].center_y - first[i].center_y == 2 * first[i - 1].circle_radius);
            assert(second[i - 1].center_y - second[i].center_y == 2 * second[i - 1].circle_radius);
        }
        assert(first[i].center_y == second[i].center_y);
        assert(previous_radius(first, i, fallback_radius) == previous_radius(second, i, fallback_radius));
        let q = query_at(camera_matrix, image_size, first[i].center_y as int);
        let prev = previous_radius(first, i, fallback_radius);
        assert(in_band(first[i].center_y as int, camera_matrix.horizon, object_radius));
        assert(in_band(second[i].center_y as int, camera_matrix.horizon, object_radius));
        let a = choose|m: Option<i32>| #[trigger] radius_at.ensures((q,), m) && carried_radius(m, prev)
            == first[i].circle_radius;
        let b = choose|m: Option<i32>| #[trigger] radius_at.ensures((q,), m) && carried_radius(m, prev)
            == second[i].circle_radius;
        assert(a == b);
        assert(first[i] == second[i]);
    }
}

/// Walks are repeatable: with a projection that gives at most one answer at
/// each point, two walks over the same inputs lay out the same rows, row for row.
pub proof fn lemma_row_walk_repeatable<F: Fn(RadiusQuery) -> Option<i32>>(
    camera_matrix: CameraMatrix,
    image_size: ImageSize,
    minimum_radius: i32,
    fallback_radius: i32,
    object_radius: i32,
    radius_at: F,
    first: Seq<Row>,
    second: Seq<Row>,
)
    requires
        is_deterministic(radius_at),
        is_row_walk(camera_matrix, image_size, minimum_radius, fallback_radius, object_radius, radius_at, first),
        is_row_walk(camera_matrix, image_size, minimum_radius, fallback_radius, object_radius, radius_at, second),
    ensures
        first == second,
{
    lemma_stops_together(camera_matrix, image_size, minimum_radius, fallback_radius, object_radius, radius_at, first, second);
    lemma_stops_together(camera_matrix, image_size, minimum_radius, fallback_radius, object_radius, radius_at, second, first);
    lemma_walks_agree_upto(camera_matrix, image_size, minimum_radius, fallback_radius, object_radius, radius_at, first, second, first.len() as int);
    assert(first =~= second);
}

proof fn lemma_stops_together<F: Fn(RadiusQuery) -> Option<i32>>(
    camera_matrix: CameraMatrix,
    image_size: ImageSize,
    minimum_radius: i32,
    fallback_radius: i32,
    object_radius: i32,
    radius_at: F,
    first: Seq<Row>,
    second: Seq<Row>,
)
    requires
        is_deterministic(radius_at),
        is_row_walk(camera_matrix, image_size, minimum_radius, fallback_radius, object_radius, radius_at, first),
        is_row_walk(camera_matrix, image_size, minimum_radius, fallback_radius, object_radius, radius_at, second),
    ensures
        first.len() >= second.len(),
{
    if first.len() < second.len() {
        let k = first.len() as int;
        lemma_walks_agree_upto(camera_matrix, image_size, minimum_radius, fallback_radius, object_radius, radius_at, first, second, k);
        assert(!is_degenerate(image_size, object_radius));
        let next = next_center(first, image_size);
        if k > 0 {
            assert(first.last() == second[k - 1]);
            assert(second[k - 1].center_y - second[k].center_y == 2 * second[k - 1].circle_radius);
        }
        assert(next == second[k].center_y);
        let prev = previous_radius(first, k, fallback_radius);
        assert(prev == previous_radius(second, k, fallback_radius));
        let q = query_at(camera_matrix, image_size, next);
        assert(in_band(second[k].center_y as int, camera_matrix.horizon, object_radius));
        let b = choose|m: Option<i32>| #[trigger] radius_at.ensures((q,), m) && carried_radius(m, prev)
            == second[k].circle_radius;
        assert(second[k].circle_radius >= minimum_radius);
        if answered_below(radius_at, q, prev, minimum_radius) {
            let a = choose|m: Option<i32>| #[trigger] radius_at.ensures((q,), m) && carried_radius(m, prev)
                < minimum_radius;
            assert(a == b);
        }
    }
}

/// A walk is not empty when the bottom row lies in the band and neither the
/// projection nor the fallback can give a radius below the minimum there.
pub proof fn lemma_row_walk_not_empty<F: Fn(RadiusQuery) -> Option<i32>>(
    camera_matrix: CameraMatrix,
    image_size: ImageSize,
    minimum_radius: i32,
    fallback_radius: i32,
    object_radius: i32,
    radius_at: F,
    rows: Seq<Row>,
)
    requires
        is_row_walk(camera_matrix, image_size, minimum_radius, fallback_radius, object_radius, radius_at, rows),
        !is_degenerate(image_size, object_radius),
        in_band((image_size.height - 1) * PIXEL, camera_matrix.horizon, object_radius),
        fallback_radius >= minimum_radius,
        forall|m: Option<i32>|
            #[trigger] radius_at.ensures(
                (query_at(camera_matrix, image_size, (image_size.height - 1) * PIXEL),),
                m,
            ) ==> carried_radius(m, fallback_radius as int) >= minimum_radius,
    ensures
        rows.len() > 0,
{
}

} // verus!
