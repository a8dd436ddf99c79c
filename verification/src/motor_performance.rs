//! Measured thruster performance and lookups into it.
//!
//! A table is built once from measured rows and never changes. It keeps the
//! rows twice: ordered by force, and ordered by signed current, which is the
//! current of a row with the sign of its force. A lookup finds the two rows
//! around the requested point and makes one record of them.
use crate::direction::Direction;
use crate::number::{one, one_spec, Number, Real};
use vstd::prelude::*;

verus! {

/// How a lookup turns the two rows around the requested point into a record.
#[derive(Clone, Copy, PartialEq, Eq, Default, Debug, Structural)]
pub enum Interpolation {
    /// Return the linear interpolation between the two data entries closest to the requested data point
    /// and modify the pwm field to match the direction of the propeller
    LerpDirection(Direction),
    /// Return the raw data entry closest to the requested data point
    /// Only modifies the pwm field to match the direction of the propeller
    Direction(Direction),
    /// Return the linear interpolation between the two data entries closest to the requested data point
    #[default]
    Lerp,
    /// Return the raw data entry closest to the requested data point
    /// Make no modifications to the data
    OriginalData,
}

impl Interpolation {
    /// Whether the two rows are blended, rather than the nearer one picked.
    pub open spec fn blends(self) -> bool {
        self is LerpDirection || self is Lerp
    }

    /// Whether the pwm of the record is mirrored about the neutral point.
    pub open spec fn mirrors(self) -> bool {
        self == Interpolation::LerpDirection(Direction::CounterClockwise) || self
            == Interpolation::Direction(Direction::CounterClockwise)
    }
}

/// The column that an index of the table is ordered by and searched in.
#[derive(Clone, Copy, PartialEq, Eq, Debug, Structural)]
pub enum TableKey {
    /// The force of a row.
    Force,
    /// The current of a row with the sign of its force.
    SignedCurrent,
}

/// Why no table could be built.
#[derive(Clone, Copy, PartialEq, Eq, Debug, Structural)]
pub enum InvalidTable {
    /// There was no row to build it from.
    Empty,
}

/// One measurement of a thruster, or a point between two measurements.
///
/// `pwm` is a pulse width in microseconds with the neutral point at 1500.
/// In a table `current` is a magnitude; the sign of `force` tells the
/// direction of thrust.
#[derive(Debug, Clone, Copy)]
pub struct MotorRecord<D> {
    pub pwm: D,
    pub rpm: D,
    pub current: D,
    pub voltage: D,
    pub power: D,
    pub force: D,
    pub efficiency: D,
}

/// Twice the neutral pulse width: a pulse width `p` mirrors to `3000 - p`.
pub const PWM_MIRROR: i32 = 3000;

/// The point at `alpha` on the line from `a` (at zero) to `b` (at one):
/// `(1 - alpha) * a + alpha * b`.
pub open spec fn lerp_spec<D: Number>(a: D::Real, b: D::Real, alpha: D) -> D {
    one_spec::<D>().sub_spec(alpha).mul_real_spec(a).add_spec(alpha.mul_real_spec(b))
}

fn lerp<D: Number>(a: D::Real, b: D::Real, alpha: D) -> (r: D)
    ensures
        r == lerp_spec(a, b, alpha),
{
    one::<D>().sub(alpha).mul_real(a).add(alpha.mul_real(b))
}

impl<D: Number> MotorRecord<D> {
    /// The record with its pwm mirrored about the neutral point and every
    /// other field as it was.
    pub open spec fn mirrored_spec(self) -> Self {
        MotorRecord {
            pwm: D::from_real_spec(D::Real::from_int_spec(PWM_MIRROR)).sub_spec(self.pwm),
            ..self
        }
    }

    /// The record as a thruster of the direction that `interpolation` names
    /// is driven: mirrored for counter clockwise, unchanged otherwise.
    pub open spec fn directed_spec(self, interpolation: Interpolation) -> Self {
        if interpolation.mirrors() {
            self.mirrored_spec()
        } else {
            self
        }
    }

    pub fn directed(self, interpolation: Interpolation) -> (r: Self)
        ensures
            r == self.directed_spec(interpolation),
    {
        match interpolation {
            Interpolation::LerpDirection(direction) | Interpolation::Direction(direction) => {
                match direction {
                    Direction::CounterClockwise => MotorRecord {
                        pwm: D::from_real(D::Real::from_int(PWM_MIRROR)).sub(self.pwm),
                        ..self
                    },
                    Direction::Clockwise => self,
                }
            },
            Interpolation::Lerp | Interpolation::OriginalData => self,
        }
    }
}

impl<R: Real> MotorRecord<R> {
    /// Every field of the record at `alpha` on the line from `self` to `other`.
    pub open spec fn lerp_spec<D: Number<Real = R>>(self, other: Self, alpha: D) -> MotorRecord<D> {
        MotorRecord {
            pwm: lerp_spec(self.pwm, other.pwm, alpha),
            rpm: lerp_spec(self.rpm, other.rpm, alpha),
            current: lerp_spec(self.current, other.current, alpha),
            voltage: lerp_spec(self.voltage, other.voltage, alpha),
            power: lerp_spec(self.power, other.power, alpha),
            force: lerp_spec(self.force, other.force, alpha),
            efficiency: lerp_spec(self.efficiency, other.efficiency, alpha),
        }
    }

    /// The record with every field lifted to a [`Number`].
    pub open spec fn widen_spec<D: Number<Real = R>>(self) -> MotorRecord<D> {
        MotorRecord {
            pwm: D::from_real_spec(self.pwm),
            rpm: D::from_real_spec(self.rpm),
            current: D::from_real_spec(self.current),
            voltage: D::from_real_spec(self.voltage),
            power: D::from_real_spec(self.power),
            force: D::from_real_spec(self.force),
            efficiency: D::from_real_spec(self.efficiency),
        }
    }

    /// The value of the row in the column `key`.
    pub open spec fn key_spec(self, key: TableKey) -> R {
        match key {
            TableKey::Force => self.force,
            TableKey::SignedCurrent => self.current.copysign_spec(self.force),
        }
    }

    /// Interpolates every field between two real records. `alpha` may lie
    /// outside zero to one, and the result then lies outside the two records.
    pub fn lerp<D: Number<Real = R>>(&self, other: &Self, alpha: D) -> (r: MotorRecord<D>)
        ensures
            r == self.lerp_spec(*other, alpha),
    {
        MotorRecord {
            pwm: lerp(self.pwm, other.pwm, alpha),
            rpm: lerp(self.rpm, other.rpm, alpha),
            current: lerp(self.current, other.current, alpha),
            voltage: lerp(self.voltage, other.voltage, alpha),
            power: lerp(self.power, other.power, alpha),
            force: lerp(self.force, other.force, alpha),
            efficiency: lerp(self.efficiency, other.efficiency, alpha),
        }
    }

    pub fn widen<D: Number<Real = R>>(&self) -> (r: MotorRecord<D>)
        ensures
            r == self.widen_spec::<D>(),
    {
        MotorRecord {
            pwm: D::from_real(self.pwm),
            rpm: D::from_real(self.rpm),
            current: D::from_real(self.current),
            voltage: D::from_real(self.voltage),
            power: D::from_real(self.power),
            force: D::from_real(self.force),
            efficiency: D::from_real(self.efficiency),
        }
    }

    pub fn key(&self, key: TableKey) -> (r: R)
        ensures
            r == self.key_spec(key),
    {
        match key {
            TableKey::Force => self.force,
            TableKey::SignedCurrent => self.current.copysign(self.force),
        }
    }
}

/// The record that a lookup makes of the rows `a` and `b` around `value`,
/// where `value_a` and `value_b` are what the two rows hold in the searched
/// column.
///
/// Blending interpolations give the point on the line through the two rows at
/// `alpha = (value - value_a) / (value_b - value_a)`. The others give the row
/// whose value is nearer to the real part of `value`, `a` when both are as
/// near, with every field lifted. Last, a counter clockwise direction mirrors
/// the pwm.
pub open spec fn interpolate_spec<R: Real, D: Number<Real = R>>(
    a: MotorRecord<R>,
    b: MotorRecord<R>,
    value: D,
    value_a: R,
    value_b: R,
    interpolation: Interpolation,
) -> MotorRecord<D> {
    let record = if interpolation.blends() {
        a.lerp_spec(b, value.sub_real_spec(value_a).div_real_spec(value_b.sub_spec(value_a)))
    } else {
        let dist_a = value_a.sub_spec(value.re_spec()).abs_spec();
        let dist_b = value_b.sub_spec(value.re_spec()).abs_spec();
        if dist_a.le_spec(dist_b) {
            a.widen_spec::<D>()
        } else {
            b.widen_spec::<D>()
        }
    };
    record.directed_spec(interpolation)
}

/// `sorted` with `record` put behind the last row that does not rank after
/// it in the total order of the column `key`.
pub open spec fn insert_by<R: Real>(
    sorted: Seq<MotorRecord<R>>,
    record: MotorRecord<R>,
    key: TableKey,
) -> Seq<MotorRecord<R>>
    decreases sorted.len(),
{
    if sorted.len() == 0 {
        seq![record]
    } else if sorted.last().key_spec(key).total_key() <= record.key_spec(key).total_key() {
        sorted.push(record)
    } else {
        insert_by(sorted.drop_last(), record, key).push(sorted.last())
    }
}

/// The rows in the total order of the column `key`; rows that rank the same
/// stay in the order in which they came.
pub open spec fn sort_by<R: Real>(records: Seq<MotorRecord<R>>, key: TableKey) -> Seq<
    MotorRecord<R>,
>
    decreases records.len(),
{
    if records.len() == 0 {
        Seq::empty()
    } else {
        insert_by(sort_by(records.drop_last(), key), records.last(), key)
    }
}

/// The rows without those that are numerically equal, in the column `key`,
/// to the row kept last before them.
pub open spec fn dedup_by<R: Real>(records: Seq<MotorRecord<R>>, key: TableKey) -> Seq<
    MotorRecord<R>,
>
    decreases records.len(),
{
    if records.len() == 0 {
        Seq::empty()
    } else {
        let kept = dedup_by(records.drop_last(), key);
        if kept.len() > 0 && records.last().key_spec(key).equals_spec(kept.last().key_spec(key)) {
            kept
        } else {
            kept.push(records.last())
        }
    }
}

/// The index of a table over the column `key`: the rows sorted, then
/// de-duplicated.
pub open spec fn index_of<R: Real>(records: Seq<MotorRecord<R>>, key: TableKey) -> Seq<
    MotorRecord<R>,
> {
    dedup_by(sort_by(records, key), key)
}

/// Where a bisection of `rows[lo..hi]` for `value` ends: it halves the range,
/// going right where the middle row is less than `value` and left where it
/// is not.
pub open spec fn bisect<R: Real>(
    rows: Seq<MotorRecord<R>>,
    key: TableKey,
    value: R,
    lo: int,
    hi: int,
) -> int
    decreases hi - lo,
{
    if lo >= hi {
        lo
    } else {
        let mid = lo + (hi - lo) / 2;
        if rows[mid].key_spec(key).lt_spec(value) {
            bisect(rows, key, value, mid + 1, hi)
        } else {
            bisect(rows, key, value, lo, mid)
        }
    }
}

/// The index at which `value` would be inserted into `rows`.
pub open spec fn partition_point_spec<R: Real>(
    rows: Seq<MotorRecord<R>>,
    key: TableKey,
    value: R,
) -> int {
    bisect(rows, key, value, 0, rows.len() as int)
}

/// Whether every row less than `value` stands before every row that is not.
pub open spec fn partitioned<R: Real>(rows: Seq<MotorRecord<R>>, key: TableKey, value: R) -> bool {
    forall|i: int, j: int|
        0 <= i < j < rows.len() && #[trigger] rows[j].key_spec(key).lt_spec(value)
            ==> #[trigger] rows[i].key_spec(key).lt_spec(value)
}

/// The upper of the two rows that a lookup of `value` works with.
pub open spec fn upper_row<R: Real>(rows: Seq<MotorRecord<R>>, key: TableKey, value: R) -> int {
    let point = partition_point_spec(rows, key, value);
    if point < 1 {
        1
    } else if point > rows.len() - 1 {
        rows.len() - 1
    } else {
        point
    }
}

/// The record that a lookup of `value` in the column `key` gives.
///
/// A table of one row gives that row, lifted and directed. Otherwise the
/// insertion index of the real part of `value`, clamped to `1..=len - 1`,
/// names the upper row, and the record is [`interpolate_spec`] of it and the
/// row before it. A value outside the table is extrapolated from the two
/// rows at that end.
pub open spec fn lookup_spec<R: Real, D: Number<Real = R>>(
    rows: Seq<MotorRecord<R>>,
    key: TableKey,
    value: D,
    interpolation: Interpolation,
) -> MotorRecord<D>
    recommends
        rows.len() > 0,
{
    if rows.len() == 1 {
        rows[0].widen_spec::<D>().directed_spec(interpolation)
    } else {
        let upper = upper_row(rows, key, value.re_spec());
        let a = rows[upper - 1];
        let b = rows[upper];
        interpolate_spec(a, b, value, a.key_spec(key), b.key_spec(key), interpolation)
    }
}

/// The insertion index of `value` in the column `key` of `rows`.
pub fn partition_point<R: Real>(rows: &Vec<MotorRecord<R>>, key: TableKey, value: R) -> (point:
    usize)
    ensures
        point == partition_point_spec(rows@, key, value),
        point <= rows.len(),
{
    let mut lo: usize = 0;
    let mut hi: usize = rows.len();
    while lo < hi
        invariant
            lo <= hi <= rows.len(),
            bisect(rows@, key, value, lo as int, hi as int) == partition_point_spec(
                rows@,
                key,
                value,
            ),
        decreases hi - lo,
    {
        let mid: usize = lo + (hi - lo) / 2;
        if rows[mid].key(key).lt(value) {
            lo = mid + 1;
        } else {
            hi = mid;
        }
    }
    lo
}

/// A bisection ends inside the range it was given, on a boundary: the row
/// before it, if it is in the range, is less than `value`, and the row at
/// it, if it is in the range, is not.
pub proof fn lemma_bisect_boundary<R: Real>(
    rows: Seq<MotorRecord<R>>,
    key: TableKey,
    value: R,
    lo: int,
    hi: int,
)
    requires
        0 <= lo <= hi <= rows.len(),
    ensures
        lo <= bisect(rows, key, value, lo, hi) <= hi,
        bisect(rows, key, value, lo, hi) > lo ==> rows[bisect(rows, key, value, lo, hi)
            - 1].key_spec(key).lt_spec(value),
        bisect(rows, key, value, lo, hi) < hi ==> !rows[bisect(
            rows,
            key,
            value,
            lo,
            hi,
        )].key_spec(key).lt_spec(value),
    decreases hi - lo,
{
    if lo < hi {
        let mid = lo + (hi - lo) / 2;
        if rows[mid].key_spec(key).lt_spec(value) {
            lemma_bisect_boundary(rows, key, value, mid + 1, hi);
        } else {
            lemma_bisect_boundary(rows, key, value, lo, mid);
        }
    }
}

/// In rows that `value` partitions, the insertion index is the one place
/// where the rows change from less than `value` to not less: every row
/// before it is less, and no row from it on is.
pub proof fn lemma_partition_point_splits<R: Real>(
    rows: Seq<MotorRecord<R>>,
    key: TableKey,
    value: R,
)
    requires
        partitioned(rows, key, value),
    ensures
        0 <= partition_point_spec(rows, key, value) <= rows.len(),
        forall|i: int|
            0 <= i < partition_point_spec(rows, key, value) ==> #[trigger] rows[i].key_spec(
                key,
            ).lt_spec(value),
        forall|i: int|
            partition_point_spec(rows, key, value) <= i < rows.len() ==> !#[trigger] rows[i].key_spec(
                key,
            ).lt_spec(value),
{
    let point = partition_point_spec(rows, key, value);
    lemma_bisect_boundary(rows, key, value, 0, rows.len() as int);
    assert forall|i: int| 0 <= i < point implies #[trigger] rows[i].key_spec(key).lt_spec(
        value,
    ) by {
        assert(rows[point - 1].key_spec(key).lt_spec(value));
    }
    assert forall|i: int| point <= i < rows.len() implies !#[trigger] rows[i].key_spec(
        key,
    ).lt_spec(value) by {
        if rows[i].key_spec(key).lt_spec(value) {
            assert(!rows[point].key_spec(key).lt_spec(value));
        }
    }
}

/// Inserting behind the last row that does not rank after `record` is
/// inserting at `at`, where every row from `at` on ranks after `record` and
/// the row before `at` does not.
proof fn lemma_insert_by_at<R: Real>(
    sorted: Seq<MotorRecord<R>>,
    record: MotorRecord<R>,
    key: TableKey,
    at: int,
)
    requires
        0 <= at <= sorted.len(),
        at > 0 ==> sorted[at - 1].key_spec(key).total_key() <= record.key_spec(key).total_key(),
        forall|t: int|
            at <= t < sorted.len() ==> (#[trigger] sorted[t]).key_spec(key).total_key()
                > record.key_spec(key).total_key(),
    ensures
        insert_by(sorted, record, key) == sorted.insert(at, record),
    decreases sorted.len() - at,
{
    if at == sorted.len() {
        assert(sorted.insert(at, record) =~= sorted.push(record));
    } else {
        let rest = sorted.drop_last();
        lemma_insert_by_at(rest, record, key, at);
        assert(rest.insert(at, record).push(sorted.last()) =~= sorted.insert(at, record));
    }
}

/// Whether the rows stand in the total order of the column `key`.
pub open spec fn ordered_by<R: Real>(rows: Seq<MotorRecord<R>>, key: TableKey) -> bool {
    forall|i: int, j: int|
        0 <= i < j < rows.len() ==> (#[trigger] rows[i]).key_spec(key).total_key() <= (
        #[trigger] rows[j]).key_spec(key).total_key()
}

/// Whether no row is numerically equal, in the column `key`, to the row
/// before it.
pub open spec fn no_repeats<R: Real>(rows: Seq<MotorRecord<R>>, key: TableKey) -> bool {
    forall|i: int|
        0 < i < rows.len() ==> !(#[trigger] rows[i]).key_spec(key).equals_spec(
            rows[i - 1].key_spec(key),
        )
}

/// Where [`insert_by`] puts a row: behind the last row that does not rank
/// after it.
pub open spec fn insert_point<R: Real>(
    sorted: Seq<MotorRecord<R>>,
    record: MotorRecord<R>,
    key: TableKey,
) -> int
    decreases sorted.len(),
{
    if sorted.len() == 0 {
        0
    } else if sorted.last().key_spec(key).total_key() <= record.key_spec(key).total_key() {
        sorted.len() as int
    } else {
        insert_point(sorted.drop_last(), record, key)
    }
}

proof fn lemma_insert_point<R: Real>(
    sorted: Seq<MotorRecord<R>>,
    record: MotorRecord<R>,
    key: TableKey,
)
    ensures
        0 <= insert_point(sorted, record, key) <= sorted.len(),
        insert_point(sorted, record, key) > 0 ==> sorted[insert_point(sorted, record, key)
            - 1].key_spec(key).total_key() <= record.key_spec(key).total_key(),
        forall|t: int|
            insert_point(sorted, record, key) <= t < sorted.len() ==> (
            #[trigger] sorted[t]).key_spec(key).total_key() > record.key_spec(key).total_key(),
        insert_by(sorted, record, key) == sorted.insert(
            insert_point(sorted, record, key),
            record,
        ),
    decreases sorted.len(),
{
    let at = insert_point(sorted, record, key);
    if sorted.len() > 0 && sorted.last().key_spec(key).total_key() > record.key_spec(
        key,
    ).total_key() {
        let rest = sorted.drop_last();
        lemma_insert_point(rest, record, key);
        assert forall|t: int| at <= t < sorted.len() implies (#[trigger] sorted[t]).key_spec(
            key,
        ).total_key() > record.key_spec(key).total_key() by {
            if t < rest.len() {
                assert(sorted[t] == rest[t]);
            }
        }
        if at > 0 {
            assert(sorted[at - 1] == rest[at - 1]);
        }
    }
    lemma_insert_by_at(sorted, record, key, at);
}

/// Sorting puts the rows in order.
pub proof fn lemma_sort_by_ordered<R: Real>(records: Seq<MotorRecord<R>>, key: TableKey)
    ensures
        ordered_by(sort_by(records, key), key),
    decreases records.len(),
{
    if records.len() > 0 {
        let sorted = sort_by(records.drop_last(), key);
        let record = records.last();
        lemma_sort_by_ordered(records.drop_last(), key);
        lemma_insert_point(sorted, record, key);
        let at = insert_point(sorted, record, key);
        let out = sorted.insert(at, record);
        assert forall|i: int, j: int| 0 <= i < j < out.len() implies (
        #[trigger] out[i]).key_spec(key).total_key() <= (#[trigger] out[j]).key_spec(
            key,
        ).total_key() by {
            if j < at {
                assert(out[i] == sorted[i] && out[j] == sorted[j]);
            } else if j == at {
                assert(out[i] == sorted[i]);
                assert(sorted[i].key_spec(key).total_key() <= sorted[at - 1].key_spec(
                    key,
                ).total_key());
            } else if i < at {
                assert(out[i] == sorted[i] && out[j] == sorted[j - 1]);
            } else if i == at {
                assert(out[j] == sorted[j - 1]);
            } else {
                assert(out[i] == sorted[i - 1] && out[j] == sorted[j - 1]);
            }
        }
    }
}

proof fn lemma_insert_by_multiset<R: Real>(
    sorted: Seq<MotorRecord<R>>,
    record: MotorRecord<R>,
    key: TableKey,
)
    ensures
        insert_by(sorted, record, key).to_multiset() == sorted.to_multiset().insert(record),
    decreases sorted.len(),
{
    broadcast use vstd::seq_lib::group_to_multiset_ensures;

    if sorted.len() > 0 && sorted.last().key_spec(key).total_key() > record.key_spec(
        key,
    ).total_key() {
        let rest = sorted.drop_last();
        lemma_insert_by_multiset(rest, record, key);
        assert(rest.push(sorted.last()) =~= sorted);
        assert(insert_by(sorted, record, key).to_multiset() =~= sorted.to_multiset().insert(
            record,
        ));
    }
}

/// Sorting neither adds a row nor loses one: the sorted rows are the given
/// rows in another order.
pub proof fn lemma_sort_by_permutes<R: Real>(records: Seq<MotorRecord<R>>, key: TableKey)
    ensures
        sort_by(records, key).to_multiset() == records.to_multiset(),
    decreases records.len(),
{
    broadcast use vstd::seq_lib::group_to_multiset_ensures;

    if records.len() == 0 {
        assert(sort_by(records, key) =~= records);
    } else {
        let rest = records.drop_last();
        lemma_sort_by_permutes(rest, key);
        lemma_insert_by_multiset(sort_by(rest, key), records.last(), key);
        assert(rest.push(records.last()) =~= records);
    }
}

/// De-duplication leaves rows in order in order, lets no row repeat the
/// row before it, and keeps rows of what it was given.
pub proof fn lemma_dedup_by<R: Real>(records: Seq<MotorRecord<R>>, key: TableKey)
    ensures
        no_repeats(dedup_by(records, key), key),
        ordered_by(records, key) ==> ordered_by(dedup_by(records, key), key),
        forall|i: int|
            0 <= i < dedup_by(records, key).len() ==> records.contains(
                #[trigger] dedup_by(records, key)[i],
            ),
        records.len() > 0 ==> dedup_by(records, key).len() > 0 && dedup_by(records, key)[0]
            == records[0],
    decreases records.len(),
{
    if records.len() > 0 {
        let rest = records.drop_last();
        let kept = dedup_by(rest, key);
        let out = dedup_by(records, key);
        lemma_dedup_by(rest, key);
        assert forall|i: int| 0 <= i < out.len() implies records.contains(#[trigger] out[i]) by {
            if i < kept.len() {
                assert(rest.contains(kept[i]));
                let at = choose|at: int| 0 <= at < rest.len() && rest[at] == kept[i];
                assert(records[at] == kept[i]);
            } else {
                assert(records[records.len() - 1] == out[i]);
            }
        }
        if ordered_by(records, key) {
            assert(ordered_by(rest, key)) by {
                assert forall|i: int, j: int| 0 <= i < j < rest.len() implies (
                #[trigger] rest[i]).key_spec(key).total_key() <= (#[trigger] rest[j]).key_spec(
                    key,
                ).total_key() by {
                    assert(rest[i] == records[i] && rest[j] == records[j]);
                }
            }
            assert forall|i: int, j: int| 0 <= i < j < out.len() implies (
            #[trigger] out[i]).key_spec(key).total_key() <= (#[trigger] out[j]).key_spec(
                key,
            ).total_key() by {
                if j == kept.len() {
                    assert(rest.contains(kept[i]));
                    let at = choose|at: int| 0 <= at < rest.len() && rest[at] == kept[i];
                    assert(records[at] == kept[i]);
                    assert(out[j] == records[records.len() - 1]);
                }
            }
        }
    }
}

/// The index of a table is in the order of its column, lets no row repeat
/// the row before it, holds rows of the table only, and is empty only where
/// the table is.
pub proof fn lemma_index_of<R: Real>(records: Seq<MotorRecord<R>>, key: TableKey)
    ensures
        ordered_by(index_of(records, key), key),
        no_repeats(index_of(records, key), key),
        forall|i: int|
            0 <= i < index_of(records, key).len() ==> records.contains(
                #[trigger] index_of(records, key)[i],
            ),
        records.len() > 0 ==> index_of(records, key).len() > 0,
{
    broadcast use vstd::seq_lib::group_to_multiset_ensures;

    let sorted = sort_by(records, key);
    lemma_sort_by_ordered(records, key);
    lemma_sort_by_permutes(records, key);
    lemma_sort_by_len(records, key);
    lemma_dedup_by(sorted, key);
    assert forall|i: int| 0 <= i < index_of(records, key).len() implies records.contains(
        #[trigger] index_of(records, key)[i],
    ) by {
        let row = index_of(records, key)[i];
        assert(sorted.contains(row));
        assert(sorted.to_multiset().count(row) > 0);
        assert(records.to_multiset().count(row) > 0);
    }
}

/// Sorting keeps the number of rows.
pub proof fn lemma_sort_by_len<R: Real>(records: Seq<MotorRecord<R>>, key: TableKey)
    ensures
        sort_by(records, key).len() == records.len(),
    decreases records.len(),
{
    if records.len() > 0 {
        lemma_sort_by_len(records.drop_last(), key);
        lemma_insert_by_len(sort_by(records.drop_last(), key), records.last(), key);
    }
}

proof fn lemma_insert_by_len<R: Real>(
    sorted: Seq<MotorRecord<R>>,
    record: MotorRecord<R>,
    key: TableKey,
)
    ensures
        insert_by(sorted, record, key).len() == sorted.len() + 1,
    decreases sorted.len(),
{
    if sorted.len() > 0 && sorted.last().key_spec(key).total_key() > record.key_spec(
        key,
    ).total_key() {
        lemma_insert_by_len(sorted.drop_last(), record, key);
    }
}

/// De-duplication keeps the first row, so it empties nothing.
pub proof fn lemma_dedup_by_len<R: Real>(records: Seq<MotorRecord<R>>, key: TableKey)
    ensures
        dedup_by(records, key).len() <= records.len(),
        records.len() > 0 ==> dedup_by(records, key).len() > 0,
    decreases records.len(),
{
    if records.len() > 0 {
        lemma_dedup_by_len(records.drop_last(), key);
    }
}

fn sorted_by<R: Real>(records: &Vec<MotorRecord<R>>, key: TableKey) -> (sorted: Vec<
    MotorRecord<R>,
>)
    ensures
        sorted@ == sort_by(records@, key),
{
    let mut sorted: Vec<MotorRecord<R>> = Vec::new();
    let mut i: usize = 0;
    while i < records.len()
        invariant
            i <= records.len(),
            sorted@ == sort_by(records@.take(i as int), key),
        decreases records.len() - i,
    {
        let record = records[i];
        let rank = record.key(key);
        let mut at: usize = sorted.len();
        let mut found = false;
        while at > 0 && !found
            invariant
                at <= sorted.len(),
                rank == record.key_spec(key),
                found ==> at > 0 && sorted[at - 1].key_spec(key).total_key() <= rank.total_key(),
                forall|t: int|
                    at <= t < sorted.len() ==> (#[trigger] sorted[t]).key_spec(key).total_key()
                        > rank.total_key(),
            decreases at + (if found { 0int } else { 1int }),
        {
            if sorted[at - 1].key(key).total_le(rank) {
                found = true;
            } else {
                at -= 1;
            }
        }
        proof {
            lemma_insert_by_at(sorted@, record, key, at as int);
            assert(records@.take(i + 1).drop_last() =~= records@.take(i as int));
        }
        sorted.insert(at, record);
        i += 1;
    }
    proof {
        assert(records@.take(records.len() as int) =~= records@);
    }
    sorted
}

fn deduped_by<R: Real>(records: &Vec<MotorRecord<R>>, key: TableKey) -> (kept: Vec<
    MotorRecord<R>,
>)
    ensures
        kept@ == dedup_by(records@, key),
{
    let mut kept: Vec<MotorRecord<R>> = Vec::new();
    let mut i: usize = 0;
    while i < records.len()
        invariant
            i <= records.len(),
            kept@ == dedup_by(records@.take(i as int), key),
        decreases records.len() - i,
    {
        let record = records[i];
        let n: usize = kept.len();
        let repeats = n > 0 && record.key(key).equals(kept[n - 1].key(key));
        proof {
            assert(records@.take(i + 1).drop_last() =~= records@.take(i as int));
        }
        if !repeats {
            kept.push(record);
        }
        i += 1;
    }
    proof {
        assert(records@.take(records.len() as int) =~= records@);
    }
    kept
}

/// The measured performance of one kind of thruster.
pub struct MotorData<R: Real> {
    force_index: Vec<MotorRecord<R>>,
    current_index: Vec<MotorRecord<R>>,
}

impl<R: Real> MotorData<R> {
    /// The rows ordered by force.
    pub closed spec fn by_force(self) -> Seq<MotorRecord<R>> {
        self.force_index@
    }

    /// The rows ordered by signed current.
    pub closed spec fn by_signed_current(self) -> Seq<MotorRecord<R>> {
        self.current_index@
    }

    /// The rows ordered by the column `key`.
    pub open spec fn index(self, key: TableKey) -> Seq<MotorRecord<R>> {
        match key {
            TableKey::Force => self.by_force(),
            TableKey::SignedCurrent => self.by_signed_current(),
        }
    }

    /// What every table holds: at least one row in each index.
    pub open spec fn wf(self) -> bool {
        self.by_force().len() > 0 && self.by_signed_current().len() > 0
    }

    #[verifier::type_invariant]
    spec fn inv(self) -> bool {
        self.wf()
    }

    /// Builds the table from measured rows, in any order.
    ///
    /// Each index holds the rows sorted by its column in the total order of
    /// the scalars, without the rows that repeat the value of the row before
    /// them. No table is built from no rows.
    pub fn from(records: Vec<MotorRecord<R>>) -> (r: Result<Self, InvalidTable>)
        ensures
            match r {
                Ok(table) => {
                    &&& records@.len() > 0
                    &&& table.wf()
                    &&& table.by_force() == index_of(records@, TableKey::Force)
                    &&& table.by_signed_current() == index_of(records@, TableKey::SignedCurrent)
                    &&& ordered_by(table.by_force(), TableKey::Force)
                    &&& ordered_by(table.by_signed_current(), TableKey::SignedCurrent)
                    &&& no_repeats(table.by_force(), TableKey::Force)
                    &&& no_repeats(table.by_signed_current(), TableKey::SignedCurrent)
                },
                Err(e) => records@.len() == 0 && e == InvalidTable::Empty,
            },
    {
        if records.len() == 0 {
            return Err(InvalidTable::Empty);
        }
        let by_force = sorted_by(&records, TableKey::Force);
        let force_index = deduped_by(&by_force, TableKey::Force);
        let by_current = sorted_by(&records, TableKey::SignedCurrent);
        let current_index = deduped_by(&by_current, TableKey::SignedCurrent);
        proof {
            lemma_sort_by_len(records@, TableKey::Force);
            lemma_dedup_by_len(by_force@, TableKey::Force);
            lemma_sort_by_len(records@, TableKey::SignedCurrent);
            lemma_dedup_by_len(by_current@, TableKey::SignedCurrent);
            lemma_index_of(records@, TableKey::Force);
            lemma_index_of(records@, TableKey::SignedCurrent);
        }
        Ok(MotorData { force_index, current_index })
    }

    /// The rows ordered by force.
    pub fn force_rows(&self) -> (rows: &Vec<MotorRecord<R>>)
        ensures
            rows@ == self.by_force(),
            rows@.len() > 0,
    {
        proof {
            use_type_invariant(self);
        }
        &self.force_index
    }

    /// The rows ordered by signed current.
    pub fn current_rows(&self) -> (rows: &Vec<MotorRecord<R>>)
        ensures
            rows@ == self.by_signed_current(),
            rows@.len() > 0,
    {
        proof {
            use_type_invariant(self);
        }
        &self.current_index
    }

    /// The record for a thruster that gives `force`.
    pub fn lookup_by_force<D: Number<Real = R>>(
        &self,
        force: D,
        interpolation: Interpolation,
    ) -> (r: MotorRecord<D>)
        ensures
            r == lookup_spec(self.by_force(), TableKey::Force, force, interpolation),
    {
        proof {
            use_type_invariant(self);
        }
        lookup(&self.force_index, TableKey::Force, force, interpolation)
    }

    /// The record for a thruster that draws `signed_current`: a current with
    /// the sign of the force that it gives.
    pub fn lookup_by_current<D: Number<Real = R>>(
        &self,
        signed_current: D,
        interpolation: Interpolation,
    ) -> (r: MotorRecord<D>)
        ensures
            r == lookup_spec(
                self.by_signed_current(),
                TableKey::SignedCurrent,
                signed_current,
                interpolation,
            ),
    {
        proof {
            use_type_invariant(self);
        }
        lookup(&self.current_index, TableKey::SignedCurrent, signed_current, interpolation)
    }

    /// Makes one record of the rows `a` and `b` around `value`; see
    /// [`interpolate_spec`].
    pub fn interpolate<D: Number<Real = R>>(
        a: &MotorRecord<R>,
        b: &MotorRecord<R>,
        value: D,
        value_a: R,
        value_b: R,
        interpolation: Interpolation,
    ) -> (r: MotorRecord<D>)
        ensures
            r == interpolate_spec(*a, *b, value, value_a, value_b, interpolation),
    {
        let record = match interpolation {
            Interpolation::LerpDirection(_) | Interpolation::Lerp => {
                let alpha = value.sub_real(value_a).div_real(value_b.sub(value_a));
                a.lerp(b, alpha)
            },
            Interpolation::Direction(_) | Interpolation::OriginalData => {
                let dist_a = value_a.sub(value.re()).abs();
                let dist_b = value_b.sub(value.re()).abs();
                if dist_a.le(dist_b) {
                    a.widen()
                } else {
                    b.widen()
                }
            },
        };
        record.directed(interpolation)
    }
}

fn lookup<R: Real, D: Number<Real = R>>(
    rows: &Vec<MotorRecord<R>>,
    key: TableKey,
    value: D,
    interpolation: Interpolation,
) -> (r: MotorRecord<D>)
    requires
        rows@.len() > 0,
    ensures
        r == lookup_spec(rows@, key, value, interpolation),
{
    if rows.len() == 1 {
        return rows[0].widen().directed(interpolation);
    }
    let point = partition_point(rows, key, value.re());
    let upper: usize = if point < 1 {
        1
    } else if point > rows.len() - 1 {
        rows.len() - 1
    } else {
        point
    };
    let a = &rows[upper - 1];
    let b = &rows[upper];
    MotorData::interpolate(a, b, value, a.key(key), b.key(key), interpolation)
}

/// A lookup works with two rows of the table that stand side by side.
pub proof fn lemma_upper_row_bounds<R: Real>(rows: Seq<MotorRecord<R>>, key: TableKey, value: R)
    requires
        rows.len() >= 2,
    ensures
        1 <= upper_row(rows, key, value) <= rows.len() - 1,
{
    lemma_bisect_boundary(rows, key, value, 0, rows.len() as int);
}

/// A lookup that does not blend gives a row of the table, lifted and
/// directed.
pub proof fn lemma_nearest_is_a_row<R: Real, D: Number<Real = R>>(
    rows: Seq<MotorRecord<R>>,
    key: TableKey,
    value: D,
    interpolation: Interpolation,
)
    requires
        rows.len() > 0,
        !interpolation.blends(),
    ensures
        exists|k: int|
            0 <= k < rows.len() && lookup_spec(rows, key, value, interpolation) == (
            #[trigger] rows[k]).widen_spec::<D>().directed_spec(interpolation),
{
    if rows.len() == 1 {
        assert(lookup_spec(rows, key, value, interpolation) == rows[0].widen_spec::<
            D,
        >().directed_spec(interpolation));
    } else {
        lemma_upper_row_bounds(rows, key, value.re_spec());
        let upper = upper_row(rows, key, value.re_spec());
        let a = rows[upper - 1];
        let b = rows[upper];
        let dist_a = a.key_spec(key).sub_spec(value.re_spec()).abs_spec();
        let dist_b = b.key_spec(key).sub_spec(value.re_spec()).abs_spec();
        if dist_a.le_spec(dist_b) {
            assert(lookup_spec(rows, key, value, interpolation) == rows[upper
                - 1].widen_spec::<D>().directed_spec(interpolation));
        } else {
            assert(lookup_spec(rows, key, value, interpolation) == rows[upper].widen_spec::<
                D,
            >().directed_spec(interpolation));
        }
    }
}

/// The direction of a thruster enters a lookup in one place: a counter
/// clockwise lookup gives the record of the clockwise lookup at the same
/// value with the pwm mirrored, `3000 - pwm`, and every other field the same.
/// A clockwise lookup gives what the lookup without a direction gives.
pub proof fn lemma_direction_mirrors_pwm<R: Real, D: Number<Real = R>>(
    rows: Seq<MotorRecord<R>>,
    key: TableKey,
    value: D,
)
    requires
        rows.len() > 0,
    ensures
        lookup_spec(rows, key, value, Interpolation::LerpDirection(Direction::CounterClockwise))
            == lookup_spec(
            rows,
            key,
            value,
            Interpolation::LerpDirection(Direction::Clockwise),
        ).mirrored_spec(),
        lookup_spec(rows, key, value, Interpolation::Direction(Direction::CounterClockwise))
            == lookup_spec(
            rows,
            key,
            value,
            Interpolation::Direction(Direction::Clockwise),
        ).mirrored_spec(),
        lookup_spec(rows, key, value, Interpolation::LerpDirection(Direction::Clockwise))
            == lookup_spec(rows, key, value, Interpolation::Lerp),
        lookup_spec(rows, key, value, Interpolation::Direction(Direction::Clockwise))
            == lookup_spec(rows, key, value, Interpolation::OriginalData),
{
}

} // verus!
