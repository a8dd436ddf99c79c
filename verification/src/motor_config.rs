//! The geometry of a vehicle's thrusters.
//!
//! A configuration holds the thrusters ordered by id, the matrix that takes
//! one force per thruster to the movement they give together, and a
//! pseudo-inverse of that matrix, which takes a movement to one force per
//! thruster. It never changes once it is built.
use crate::direction::Direction;
use crate::movement::Movement;
use crate::number::{one, one_spec, Number, Real};
use crate::vector::Vector3;
use vstd::prelude::*;

verus! {

/// An id with its type taken away, for layers that want a primitive key.
pub type ErasedMotorId = u8;

/// The id of a thruster.
///
/// Ids are ordered as their erased forms are, and two ids with one erased
/// form name one thruster.
pub trait MotorId: Copy {
    /// The id as a primitive key.
    spec fn erased_spec(self) -> ErasedMotorId;

    fn erased(self) -> (raw: ErasedMotorId)
        ensures
            raw == self.erased_spec(),
    ;

    /// The id that a primitive key stands for, if it stands for one.
    spec fn unerased_spec(raw: ErasedMotorId) -> Option<Self>;

    fn unerased(raw: ErasedMotorId) -> (id: Option<Self>)
        ensures
            id == Self::unerased_spec(raw),
    ;
}

impl MotorId for ErasedMotorId {
    open spec fn erased_spec(self) -> ErasedMotorId {
        self
    }

    fn erased(self) -> (raw: ErasedMotorId) {
        self
    }

    open spec fn unerased_spec(raw: ErasedMotorId) -> Option<Self> {
        Some(raw)
    }

    fn unerased(raw: ErasedMotorId) -> (id: Option<Self>) {
        Some(raw)
    }
}

/// A propeller on the vehicle.
#[derive(Debug, Clone, Copy)]
pub struct Motor<D> {
    /// Offset from origin
    pub position: Vector3<D>,
    /// Unit vector
    pub orientation: Vector3<D>,
    pub direction: Direction,
}

/// Why no configuration could be built.
#[derive(Debug, Clone, Copy, PartialEq, Eq, Structural)]
pub enum InvalidGeometry {
    /// There was no thruster.
    NoThrusters,
    /// No pseudo-inverse of the matrix was found.
    Unsolved,
    /// The pseudo-inverse does not have one row for each thruster.
    DimensionMismatch,
}

/// A primitive key that stands for no id of the wanted type.
#[derive(Debug, Clone, Copy, PartialEq, Eq, Structural)]
pub struct UneraseError {
    pub raw: ErasedMotorId,
}

/// The value that `entries` holds for the id with the erased form `raw`: that
/// of the first entry with such an id.
pub open spec fn find<Id: MotorId, V>(entries: Seq<(Id, V)>, raw: ErasedMotorId) -> Option<V>
    decreases entries.len(),
{
    if entries.len() == 0 {
        None
    } else if entries[0].0.erased_spec() == raw {
        Some(entries[0].1)
    } else {
        find(entries.subrange(1, entries.len() as int), raw)
    }
}

/// Whether the ids of `entries` rise strictly, so that none occurs twice.
pub open spec fn strictly_ordered<Id: MotorId, V>(entries: Seq<(Id, V)>) -> bool {
    forall|i: int, j: int|
        0 <= i < j < entries.len() ==> (#[trigger] entries[i]).0.erased_spec() < (
        #[trigger] entries[j]).0.erased_spec()
}

/// `arranged` with `entry` put in the place of its id, unless an entry with
/// that id is there already.
pub open spec fn place<Id: MotorId, V>(arranged: Seq<(Id, V)>, entry: (Id, V)) -> Seq<(Id, V)>
    decreases arranged.len(),
{
    if arranged.len() == 0 {
        seq![entry]
    } else if arranged.last().0.erased_spec() < entry.0.erased_spec() {
        arranged.push(entry)
    } else if arranged.last().0.erased_spec() == entry.0.erased_spec() {
        arranged
    } else {
        place(arranged.drop_last(), entry).push(arranged.last())
    }
}

/// The entries ordered by id, with the first entry of each id and no other.
pub open spec fn arrange<Id: MotorId, V>(entries: Seq<(Id, V)>) -> Seq<(Id, V)>
    decreases entries.len(),
{
    if entries.len() == 0 {
        Seq::empty()
    } else {
        place(arrange(entries.drop_last()), entries.last())
    }
}

/// The movement that a thruster gives for each unit of force: its
/// orientation as the force, and its arm from the center of mass crossed with
/// its orientation as the torque.
pub open spec fn wrench_of<D: Number>(motor: Motor<D>, center_mass: Vector3<D>) -> Movement<D> {
    Movement {
        force: motor.orientation,
        torque: motor.position.sub_spec(center_mass).cross_spec(motor.orientation),
    }
}

/// The matrix of a set of thrusters, column by column: the column of a
/// thruster is its [`wrench_of`].
pub open spec fn wrench_matrix<Id: MotorId, D: Number>(
    motors: Seq<(Id, Motor<D>)>,
    center_mass: Vector3<D>,
) -> Seq<Movement<D>> {
    Seq::new(motors.len(), |k: int| wrench_of(motors[k].1, center_mass))
}

/// One over the ridge of the pseudo-inverse.
pub const RIDGE_INVERSE: i32 = 10_000;

/// The ridge that the pseudo-inverse is made with, one ten-thousandth:
/// what is this small in the matrix counts as nothing.
pub open spec fn ridge_spec<D: Number>() -> D {
    one_spec::<D>().div_spec(D::from_real_spec(D::Real::from_int_spec(RIDGE_INVERSE)))
}

/// See [`ridge_spec`].
pub fn ridge<D: Number>() -> (r: D)
    ensures
        r == ridge_spec::<D>(),
{
    one::<D>().div(D::from_real(D::Real::from_int(RIDGE_INVERSE)))
}

/// What a configuration holds.
pub ghost struct MotorConfigView<Id, D> {
    /// The thrusters, ordered by id.
    pub motors: Seq<(Id, Motor<D>)>,
    /// The columns of the matrix, one for each thruster.
    pub matrix: Seq<Movement<D>>,
    /// The rows of the pseudo-inverse, one for each thruster.
    pub pseudo_inverse: Seq<Movement<D>>,
}

impl<Id: MotorId, D: Number> MotorConfigView<Id, D> {
    /// At least one thruster, no id twice, ids rising, and one column and one
    /// row for each thruster.
    pub open spec fn wf(self) -> bool {
        &&& self.motors.len() > 0
        &&& strictly_ordered(self.motors)
        &&& self.matrix.len() == self.motors.len()
        &&& self.pseudo_inverse.len() == self.motors.len()
    }

    /// The same configuration with every id erased.
    pub open spec fn erase_spec(self) -> MotorConfigView<ErasedMotorId, D> {
        MotorConfigView {
            motors: Seq::new(
                self.motors.len(),
                |k: int| (self.motors[k].0.erased_spec(), self.motors[k].1),
            ),
            matrix: self.matrix,
            pseudo_inverse: self.pseudo_inverse,
        }
    }
}

/// Whether the primitive key `raw` stands for an id of the type `Id` that
/// erases to `raw` again.
pub open spec fn decodes<Id: MotorId>(raw: ErasedMotorId) -> bool {
    match Id::unerased_spec(raw) {
        Some(id) => id.erased_spec() == raw,
        None => false,
    }
}

/// The first of the `ids` that does not decode.
pub open spec fn first_undecodable<Id: MotorId, V>(entries: Seq<(ErasedMotorId, V)>) -> Option<
    ErasedMotorId,
>
    decreases entries.len(),
{
    if entries.len() == 0 {
        None
    } else if !decodes::<Id>(entries[0].0) {
        Some(entries[0].0)
    } else {
        first_undecodable::<Id, V>(entries.subrange(1, entries.len() as int))
    }
}

impl<D: Number> MotorConfigView<ErasedMotorId, D> {
    /// The same configuration with every id given its type back, or the
    /// first id for which that fails.
    pub open spec fn unerase_spec<Id: MotorId>(self) -> Result<
        MotorConfigView<Id, D>,
        UneraseError,
    > {
        match first_undecodable::<Id, Motor<D>>(self.motors) {
            Some(raw) => Err(UneraseError { raw }),
            None => Ok(
                MotorConfigView {
                    motors: Seq::new(
                        self.motors.len(),
                        |k: int| (Id::unerased_spec(self.motors[k].0).unwrap(), self.motors[k].1),
                    ),
                    matrix: self.matrix,
                    pseudo_inverse: self.pseudo_inverse,
                },
            ),
        }
    }
}

/// Placing `entry` is inserting it at `at`, or leaving the entries alone
/// where the entry before `at` has its id, given that every entry from `at`
/// on has a greater id and the entry before `at` has none.
pub proof fn lemma_place_at<Id: MotorId, V>(arranged: Seq<(Id, V)>, entry: (Id, V), at: int)
    requires
        0 <= at <= arranged.len(),
        at > 0 ==> arranged[at - 1].0.erased_spec() <= entry.0.erased_spec(),
        forall|t: int|
            at <= t < arranged.len() ==> (#[trigger] arranged[t]).0.erased_spec()
                > entry.0.erased_spec(),
    ensures
        place(arranged, entry) == if at > 0 && arranged[at - 1].0.erased_spec()
            == entry.0.erased_spec() {
            arranged
        } else {
            arranged.insert(at, entry)
        },
    decreases arranged.len() - at,
{
    if at == arranged.len() {
        assert(arranged.insert(at, entry) =~= arranged.push(entry));
    } else {
        let rest = arranged.drop_last();
        lemma_place_at(rest, entry, at);
        assert(rest.push(arranged.last()) =~= arranged);
        assert(rest.insert(at, entry).push(arranged.last()) =~= arranged.insert(at, entry));
    }
}

/// Arranging one entry more is placing it among the others arranged.
pub proof fn lemma_arrange_push<Id: MotorId, V>(entries: Seq<(Id, V)>, entry: (Id, V))
    ensures
        arrange(entries.push(entry)) == place(arrange(entries), entry),
{
    assert(entries.push(entry).drop_last() =~= entries);
}

/// Where [`place`] puts an entry, or finds its id: behind the last entry
/// whose id is not greater.
pub open spec fn place_point<Id: MotorId, V>(arranged: Seq<(Id, V)>, entry: (Id, V)) -> int
    decreases arranged.len(),
{
    if arranged.len() == 0 {
        0
    } else if arranged.last().0.erased_spec() <= entry.0.erased_spec() {
        arranged.len() as int
    } else {
        place_point(arranged.drop_last(), entry)
    }
}

proof fn lemma_place_point<Id: MotorId, V>(arranged: Seq<(Id, V)>, entry: (Id, V))
    ensures
        0 <= place_point(arranged, entry) <= arranged.len(),
        place_point(arranged, entry) > 0 ==> arranged[place_point(arranged, entry)
            - 1].0.erased_spec() <= entry.0.erased_spec(),
        forall|t: int|
            place_point(arranged, entry) <= t < arranged.len() ==> (
            #[trigger] arranged[t]).0.erased_spec() > entry.0.erased_spec(),
        place(arranged, entry) == if place_point(arranged, entry) > 0 && arranged[place_point(
            arranged,
            entry,
        ) - 1].0.erased_spec() == entry.0.erased_spec() {
            arranged
        } else {
            arranged.insert(place_point(arranged, entry), entry)
        },
    decreases arranged.len(),
{
    let at = place_point(arranged, entry);
    if arranged.len() > 0 && arranged.last().0.erased_spec() > entry.0.erased_spec() {
        let rest = arranged.drop_last();
        lemma_place_point(rest, entry);
        assert forall|t: int| at <= t < arranged.len() implies (
        #[trigger] arranged[t]).0.erased_spec() > entry.0.erased_spec() by {
            if t < rest.len() {
                assert(arranged[t] == rest[t]);
            }
        }
        if at > 0 {
            assert(arranged[at - 1] == rest[at - 1]);
        }
    }
    lemma_place_at(arranged, entry, at);
}

/// Placing an entry among entries with rising ids leaves the ids rising.
pub proof fn lemma_place_ordered<Id: MotorId, V>(arranged: Seq<(Id, V)>, entry: (Id, V))
    requires
        strictly_ordered(arranged),
    ensures
        strictly_ordered(place(arranged, entry)),
{
    lemma_place_point(arranged, entry);
    let at = place_point(arranged, entry);
    let out = place(arranged, entry);
    if !(at > 0 && arranged[at - 1].0.erased_spec() == entry.0.erased_spec()) {
        assert forall|i: int, j: int| 0 <= i < j < out.len() implies (
        #[trigger] out[i]).0.erased_spec() < (#[trigger] out[j]).0.erased_spec() by {
            if j < at {
                assert(out[i] == arranged[i] && out[j] == arranged[j]);
            } else if j == at {
                assert(out[i] == arranged[i]);
                if i < at - 1 {
                    assert(arranged[i].0.erased_spec() < arranged[at - 1].0.erased_spec());
                }
            } else if i < at {
                assert(out[i] == arranged[i] && out[j] == arranged[j - 1]);
            } else if i == at {
                assert(out[j] == arranged[j - 1]);
            } else {
                assert(out[i] == arranged[i - 1] && out[j] == arranged[j - 1]);
            }
        }
    }
}

/// The arranged entries have rising ids, so none has the id of another.
pub proof fn lemma_arrange_ordered<Id: MotorId, V>(entries: Seq<(Id, V)>)
    ensures
        strictly_ordered(arrange(entries)),
    decreases entries.len(),
{
    if entries.len() > 0 {
        lemma_arrange_ordered(entries.drop_last());
        lemma_place_ordered(arrange(entries.drop_last()), entries.last());
    }
}

/// Entries with rising ids are arranged already.
pub proof fn lemma_arrange_of_ordered<Id: MotorId, V>(entries: Seq<(Id, V)>)
    requires
        strictly_ordered(entries),
    ensures
        arrange(entries) == entries,
    decreases entries.len(),
{
    if entries.len() > 0 {
        let rest = entries.drop_last();
        assert(strictly_ordered(rest)) by {
            assert forall|i: int, j: int| 0 <= i < j < rest.len() implies (
            #[trigger] rest[i]).0.erased_spec() < (#[trigger] rest[j]).0.erased_spec() by {
                assert(rest[i] == entries[i] && rest[j] == entries[j]);
            }
        }
        lemma_arrange_of_ordered(rest);
        if rest.len() > 0 {
            assert(rest.last() == entries[entries.len() - 2]);
        }
        assert(rest.push(entries.last()) =~= entries);
    }
}

/// Nothing is found for an id exactly where no entry has it.
pub proof fn lemma_find_none<Id: MotorId, V>(entries: Seq<(Id, V)>, raw: ErasedMotorId)
    ensures
        find(entries, raw) is None <==> forall|i: int|
            0 <= i < entries.len() ==> (#[trigger] entries[i]).0.erased_spec() != raw,
    decreases entries.len(),
{
    if entries.len() > 0 {
        let rest = entries.subrange(1, entries.len() as int);
        lemma_find_none(rest, raw);
        if entries[0].0.erased_spec() != raw {
            if find(rest, raw) is None {
                assert forall|i: int| 0 <= i < entries.len() implies (
                #[trigger] entries[i]).0.erased_spec() != raw by {
                    if i > 0 {
                        assert(rest[i - 1] == entries[i]);
                    }
                }
            } else {
                let bad = choose|i: int|
                    0 <= i < rest.len() && (#[trigger] rest[i]).0.erased_spec() == raw;
                assert(entries[bad + 1] == rest[bad]);
            }
        }
    }
}

/// What is found for an id is the value of the first entry that has it.
pub proof fn lemma_find_first<Id: MotorId, V>(entries: Seq<(Id, V)>, raw: ErasedMotorId, at: int)
    requires
        0 <= at < entries.len(),
        entries[at].0.erased_spec() == raw,
        forall|j: int| 0 <= j < at ==> (#[trigger] entries[j]).0.erased_spec() != raw,
    ensures
        find(entries, raw) == Some(entries[at].1),
    decreases entries.len(),
{
    if at > 0 {
        let rest = entries.subrange(1, entries.len() as int);
        assert(entries[0].0.erased_spec() != raw);
        assert(rest[at - 1] == entries[at]);
        assert forall|j: int| 0 <= j < at - 1 implies (#[trigger] rest[j]).0.erased_spec()
            != raw by {
            assert(rest[j] == entries[j + 1]);
        }
        lemma_find_first(rest, raw, at - 1);
    }
}

/// The place of the first entry with the id `raw`, or the number of
/// entries where none has it.
pub open spec fn first_index<Id: MotorId, V>(entries: Seq<(Id, V)>, raw: ErasedMotorId) -> int
    decreases entries.len(),
{
    if entries.len() == 0 {
        0
    } else if entries[0].0.erased_spec() == raw {
        0
    } else {
        1 + first_index(entries.subrange(1, entries.len() as int), raw)
    }
}

proof fn lemma_first_index<Id: MotorId, V>(entries: Seq<(Id, V)>, raw: ErasedMotorId)
    ensures
        0 <= first_index(entries, raw) <= entries.len(),
        forall|j: int|
            0 <= j < first_index(entries, raw) ==> (#[trigger] entries[j]).0.erased_spec() != raw,
        first_index(entries, raw) < entries.len() ==> entries[first_index(
            entries,
            raw,
        )].0.erased_spec() == raw && find(entries, raw) == Some(
            entries[first_index(entries, raw)].1,
        ),
        first_index(entries, raw) == entries.len() ==> find(entries, raw) is None,
    decreases entries.len(),
{
    if entries.len() > 0 && entries[0].0.erased_spec() != raw {
        let rest = entries.subrange(1, entries.len() as int);
        lemma_first_index(rest, raw);
        let at = first_index(rest, raw);
        assert forall|j: int| 0 <= j < at + 1 implies (#[trigger] entries[j]).0.erased_spec()
            != raw by {
            if j > 0 {
                assert(rest[j - 1] == entries[j]);
            }
        }
        if at < rest.len() {
            assert(rest[at] == entries[at + 1]);
        }
    }
}

/// The value for an id after one more entry: what was found before, or
/// else the value of the new entry where it has the id.
pub open spec fn find_after<Id: MotorId, V>(
    before: Option<V>,
    entry: (Id, V),
    raw: ErasedMotorId,
) -> Option<V> {
    match before {
        Some(value) => Some(value),
        None => if entry.0.erased_spec() == raw {
            Some(entry.1)
        } else {
            None
        },
    }
}

proof fn lemma_find_push<Id: MotorId, V>(entries: Seq<(Id, V)>, entry: (Id, V), raw: ErasedMotorId)
    ensures
        find(entries.push(entry), raw) == find_after(find(entries, raw), entry, raw),
{
    let out = entries.push(entry);
    lemma_first_index(entries, raw);
    let at = first_index(entries, raw);
    if at < entries.len() {
        assert(out[at] == entries[at]);
        assert forall|j: int| 0 <= j < at implies (#[trigger] out[j]).0.erased_spec() != raw by {
            assert(out[j] == entries[j]);
        }
        lemma_find_first(out, raw, at);
    } else if entry.0.erased_spec() == raw {
        assert forall|j: int| 0 <= j < entries.len() implies (#[trigger] out[j]).0.erased_spec()
            != raw by {
            assert(out[j] == entries[j]);
        }
        lemma_find_first(out, raw, entries.len() as int);
    } else {
        lemma_find_none(out, raw);
        assert forall|j: int| 0 <= j < out.len() implies (#[trigger] out[j]).0.erased_spec()
            != raw by {
            if j < entries.len() {
                assert(out[j] == entries[j]);
            }
        }
    }
}

proof fn lemma_find_place<Id: MotorId, V>(arranged: Seq<(Id, V)>, entry: (Id, V), raw: ErasedMotorId)
    requires
        strictly_ordered(arranged),
    ensures
        find(place(arranged, entry), raw) == find_after(find(arranged, raw), entry, raw),
{
    lemma_place_point(arranged, entry);
    let at = place_point(arranged, entry);
    let out = place(arranged, entry);
    lemma_first_index(arranged, raw);
    let first = first_index(arranged, raw);
    if at > 0 && arranged[at - 1].0.erased_spec() == entry.0.erased_spec() {
        if first == arranged.len() {
            assert(arranged[at - 1].0.erased_spec() != raw);
        }
    } else {
        // no entry has the id of the new one
        assert forall|t: int| 0 <= t < arranged.len() implies (
        #[trigger] arranged[t]).0.erased_spec() != entry.0.erased_spec() by {
            if t < at - 1 {
                assert(arranged[t].0.erased_spec() < arranged[at - 1].0.erased_spec());
            }
        }
        if first < arranged.len() {
            let moved = if first < at {
                first
            } else {
                first + 1
            };
            assert(out[moved] == arranged[first]);
            assert forall|j: int| 0 <= j < moved implies (#[trigger] out[j]).0.erased_spec()
                != raw by {
                if j < at {
                    assert(out[j] == arranged[j]);
                } else if j == at {
                    assert(out[j] == entry);
                    assert(arranged[first].0.erased_spec() != entry.0.erased_spec());
                } else {
                    assert(out[j] == arranged[j - 1]);
                }
            }
            lemma_find_first(out, raw, moved);
        } else if entry.0.erased_spec() == raw {
            assert forall|j: int| 0 <= j < at implies (#[trigger] out[j]).0.erased_spec()
                != raw by {
                assert(out[j] == arranged[j]);
            }
            lemma_find_first(out, raw, at);
        } else {
            lemma_find_none(out, raw);
            assert forall|j: int| 0 <= j < out.len() implies (#[trigger] out[j]).0.erased_spec()
                != raw by {
                if j < at {
                    assert(out[j] == arranged[j]);
                } else if j > at {
                    assert(out[j] == arranged[j - 1]);
                }
            }
        }
    }
}

/// Arranging changes nothing about what is found: for every id, the
/// arranged entries hold the value of the first entry with that id.
pub proof fn lemma_arrange_find<Id: MotorId, V>(entries: Seq<(Id, V)>, raw: ErasedMotorId)
    ensures
        find(arrange(entries), raw) == find(entries, raw),
    decreases entries.len(),
{
    if entries.len() > 0 {
        let rest = entries.drop_last();
        lemma_arrange_find(rest, raw);
        lemma_arrange_ordered(rest);
        lemma_find_place(arrange(rest), entries.last(), raw);
        lemma_find_push(rest, entries.last(), raw);
        assert(rest.push(entries.last()) =~= entries);
    }
}

/// Orders the entries by id and keeps the first entry of each id.
pub fn arranged<Id: MotorId, V: Copy>(entries: &Vec<(Id, V)>) -> (r: Vec<(Id, V)>)
    ensures
        r@ == arrange(entries@),
        strictly_ordered(r@),
        r@.len() <= entries@.len(),
        entries@.len() > 0 ==> r@.len() > 0,
{
    let mut out: Vec<(Id, V)> = Vec::new();
    let mut i: usize = 0;
    while i < entries.len()
        invariant
            i <= entries.len(),
            out@ == arrange(entries@.take(i as int)),
            strictly_ordered(out@),
            out@.len() <= i,
            i > 0 ==> out@.len() > 0,
        decreases entries.len() - i,
    {
        let entry = entries[i];
        let raw = entry.0.erased();
        let mut at: usize = out.len();
        let mut found = false;
        while at > 0 && !found
            invariant
                at <= out.len(),
                raw == entry.0.erased_spec(),
                found ==> at > 0 && out[at - 1].0.erased_spec() <= raw,
                forall|t: int| at <= t < out.len() ==> (#[trigger] out[t]).0.erased_spec() > raw,
            decreases at + (if found { 0int } else { 1int }),
        {
            if out[at - 1].0.erased() <= raw {
                found = true;
            } else {
                at -= 1;
            }
        }
        proof {
            lemma_place_at(out@, entry, at as int);
            assert(entries@.take(i + 1).drop_last() =~= entries@.take(i as int));
        }
        let present = at > 0 && out[at - 1].0.erased() == raw;
        if !present {
            out.insert(at, entry);
        }
        i += 1;
    }
    proof {
        assert(entries@.take(entries.len() as int) =~= entries@);
    }
    out
}

impl<D: Number> Motor<D> {
    /// See [`wrench_of`].
    pub fn wrench(&self, center_mass: Vector3<D>) -> (r: Movement<D>)
        ensures
            r == wrench_of(*self, center_mass),
    {
        Movement {
            force: self.orientation,
            torque: self.position.sub(center_mass).cross(self.orientation),
        }
    }
}

/// The matrix of thrusters that are arranged already.
pub fn matrix_of<Id: MotorId, D: Number>(motors: &Vec<(Id, Motor<D>)>, center_mass: Vector3<D>) -> (r:
    Vec<Movement<D>>)
    ensures
        r@ == wrench_matrix(motors@, center_mass),
{
    let mut matrix: Vec<Movement<D>> = Vec::new();
    let mut k: usize = 0;
    while k < motors.len()
        invariant
            k <= motors.len(),
            matrix@.len() == k,
            forall|t: int| 0 <= t < k ==> #[trigger] matrix@[t] == wrench_of(motors@[t].1, center_mass),
        decreases motors.len() - k,
    {
        matrix.push(motors[k].1.wrench(center_mass));
        k += 1;
    }
    proof {
        assert(matrix@ =~= wrench_matrix(motors@, center_mass));
    }
    matrix
}

fn copied<T: Copy>(items: &Vec<T>) -> (r: Vec<T>)
    ensures
        r@ == items@,
{
    let mut out: Vec<T> = Vec::new();
    let mut k: usize = 0;
    while k < items.len()
        invariant
            k <= items.len(),
            out@ == items@.take(k as int),
        decreases items.len() - k,
    {
        out.push(items[k]);
        proof {
            assert(items@.take(k as int).push(items@[k as int]) =~= items@.take(k + 1));
        }
        k += 1;
    }
    proof {
        assert(items@.take(items.len() as int) =~= items@);
    }
    out
}

/// The thrusters of a vehicle with the matrices that the solvers work with.
#[derive(Debug)]
pub struct MotorConfig<Id: MotorId, D: Number> {
    motors: Vec<(Id, Motor<D>)>,
    matrix: Vec<Movement<D>>,
    pseudo_inverse: Vec<Movement<D>>,
}

impl<Id: MotorId, D: Number> View for MotorConfig<Id, D> {
    type V = MotorConfigView<Id, D>;

    closed spec fn view(&self) -> MotorConfigView<Id, D> {
        MotorConfigView {
            motors: self.motors@,
            matrix: self.matrix@,
            pseudo_inverse: self.pseudo_inverse@,
        }
    }
}

impl<Id: MotorId, D: Number> Clone for MotorConfig<Id, D> {
    fn clone(&self) -> (r: Self)
        ensures
            r@ == self@,
    {
        proof {
            use_type_invariant(self);
        }
        MotorConfig {
            motors: copied(&self.motors),
            matrix: copied(&self.matrix),
            pseudo_inverse: copied(&self.pseudo_inverse),
        }
    }
}

impl<Id: MotorId, D: Number> MotorConfig<Id, D> {
    #[verifier::type_invariant]
    spec fn inv(self) -> bool {
        self@.wf()
    }

    /// Builds the configuration of `motors` around `center_mass`.
    ///
    /// The thrusters are ordered by id, and of two with one id the first
    /// stays. `solve` is asked once for a pseudo-inverse of their matrix,
    /// made with the ridge of [`ridge_spec`]; it is not asked when there is
    /// no thruster. The configuration holds what
    /// it answered, and none is built when it answered nothing or answered
    /// with another number of rows than there are thrusters.
    pub fn new_raw<F: FnOnce(&Vec<Movement<D>>, D) -> Option<Vec<Movement<D>>>>(
        motors: Vec<(Id, Motor<D>)>,
        center_mass: Vector3<D>,
        solve: F,
    ) -> (r: Result<Self, InvalidGeometry>)
        requires
            Self::solvable(motors@, center_mass, solve),
        ensures
            Self::built_by(r, motors@, center_mass, solve),
    {
        let arranged = arranged(&motors);
        if arranged.len() == 0 {
            return Err(InvalidGeometry::NoThrusters);
        }
        let matrix = matrix_of(&arranged, center_mass);
        let solved = solve(&matrix, ridge::<D>());
        Self::assemble(arranged, matrix, solved, Ghost(motors@), Ghost(center_mass))
    }

    /// Builds the configuration of `motors` around `center_mass` with a
    /// pseudo-inverse that was found elsewhere for
    /// [`MotorConfig::layout`] of the same thrusters; `None` stands for a
    /// search that failed.
    pub fn from_parts(
        motors: Vec<(Id, Motor<D>)>,
        center_mass: Vector3<D>,
        pseudo_inverse: Option<Vec<Movement<D>>>,
    ) -> (r: Result<Self, InvalidGeometry>)
        ensures
            Self::built(r, motors@, center_mass, pseudo_inverse),
    {
        let arranged = arranged(&motors);
        if arranged.len() == 0 {
            return Err(InvalidGeometry::NoThrusters);
        }
        let matrix = matrix_of(&arranged, center_mass);
        Self::assemble(arranged, matrix, pseudo_inverse, Ghost(motors@), Ghost(center_mass))
    }

    /// The matrix of `motors` around `center_mass`, column by column in the
    /// order of the ids: what a pseudo-inverse has to be found for.
    pub fn layout(motors: &Vec<(Id, Motor<D>)>, center_mass: Vector3<D>) -> (matrix: Vec<
        Movement<D>,
    >)
        ensures
            matrix@ == wrench_matrix(arrange(motors@), center_mass),
    {
        let arranged = arranged(motors);
        matrix_of(&arranged, center_mass)
    }

    /// Whether `solve` may be asked for a pseudo-inverse of the matrix of
    /// `motors` around `center_mass`, made with the ridge of [`ridge_spec`].
    pub open spec fn solvable<F: FnOnce(&Vec<Movement<D>>, D) -> Option<Vec<Movement<D>>>>(
        motors: Seq<(Id, Motor<D>)>,
        center_mass: Vector3<D>,
        solve: F,
    ) -> bool {
        forall|matrix: Vec<Movement<D>>|
            matrix@ == wrench_matrix(arrange(motors), center_mass) ==> call_requires(
                solve,
                (&matrix, ridge_spec::<D>()),
            )
    }

    /// What is built of `motors` around `center_mass` with `solve` to find
    /// the pseudo-inverse: without a thruster nothing, and otherwise what
    /// [`MotorConfig::built`] says for an answer of `solve` to the matrix of
    /// the thrusters.
    pub open spec fn built_by<F: FnOnce(&Vec<Movement<D>>, D) -> Option<Vec<Movement<D>>>>(
        r: Result<Self, InvalidGeometry>,
        motors: Seq<(Id, Motor<D>)>,
        center_mass: Vector3<D>,
        solve: F,
    ) -> bool {
        if motors.len() == 0 {
            r == Err::<Self, InvalidGeometry>(InvalidGeometry::NoThrusters)
        } else {
            exists|matrix: Vec<Movement<D>>, solved: Option<Vec<Movement<D>>>|
                {
                    &&& matrix@ == wrench_matrix(arrange(motors), center_mass)
                    &&& call_ensures(solve, (&matrix, ridge_spec::<D>()), solved)
                    &&& Self::built(r, motors, center_mass, solved)
                }
        }
    }

    /// What is built of `motors` around `center_mass` when the search for a
    /// pseudo-inverse ended in `solved`.
    ///
    /// Without a thruster nothing is built, whatever the search gave. With
    /// one, nothing is built when the search failed or gave another number
    /// of rows than there are thrusters. Otherwise the configuration holds
    /// the thrusters arranged, their matrix, and the rows that were found.
    pub open spec fn built(
        r: Result<Self, InvalidGeometry>,
        motors: Seq<(Id, Motor<D>)>,
        center_mass: Vector3<D>,
        solved: Option<Vec<Movement<D>>>,
    ) -> bool {
        if motors.len() == 0 {
            r == Err::<Self, InvalidGeometry>(InvalidGeometry::NoThrusters)
        } else {
            match solved {
                None => r == Err::<Self, InvalidGeometry>(InvalidGeometry::Unsolved),
                Some(rows) => if rows@.len() != arrange(motors).len() {
                    r == Err::<Self, InvalidGeometry>(InvalidGeometry::DimensionMismatch)
                } else {
                    match r {
                        Ok(config) => config@ == (MotorConfigView {
                            motors: arrange(motors),
                            matrix: wrench_matrix(arrange(motors), center_mass),
                            pseudo_inverse: rows@,
                        }),
                        Err(_) => false,
                    }
                },
            }
        }
    }

    fn assemble(
        arranged: Vec<(Id, Motor<D>)>,
        matrix: Vec<Movement<D>>,
        solved: Option<Vec<Movement<D>>>,
        Ghost(motors): Ghost<Seq<(Id, Motor<D>)>>,
        Ghost(center_mass): Ghost<Vector3<D>>,
    ) -> (r: Result<Self, InvalidGeometry>)
        requires
            motors.len() > 0,
            arranged@ == arrange(motors),
            arranged@.len() > 0,
            strictly_ordered(arranged@),
            matrix@ == wrench_matrix(arranged@, center_mass),
        ensures
            Self::built(r, motors, center_mass, solved),
    {
        match solved {
            None => Err(InvalidGeometry::Unsolved),
            Some(rows) => {
                if rows.len() != arranged.len() {
                    Err(InvalidGeometry::DimensionMismatch)
                } else {
                    Ok(MotorConfig { motors: arranged, matrix, pseudo_inverse: rows })
                }
            },
        }
    }

    /// The thruster with the id `motor`.
    pub fn motor(&self, motor: &Id) -> (r: Option<&Motor<D>>)
        ensures
            match r {
                Some(found) => find(self@.motors, motor.erased_spec()) == Some(*found),
                None => find(self@.motors, motor.erased_spec()) is None,
            },
    {
        let raw = motor.erased();
        let mut i: usize = 0;
        proof {
            assert(self.motors@.subrange(0, self.motors@.len() as int) =~= self.motors@);
        }
        while i < self.motors.len()
            invariant
                i <= self.motors.len(),
                raw == motor.erased_spec(),
                find(self.motors@, raw) == find(
                    self.motors@.subrange(i as int, self.motors@.len() as int),
                    raw,
                ),
            decreases self.motors.len() - i,
        {
            let ghost rest = self.motors@.subrange(i as int, self.motors@.len() as int);
            if self.motors[i].0.erased() == raw {
                assert(rest[0] == self.motors@[i as int]);
                return Some(&self.motors[i].1);
            }
            proof {
                assert(rest.subrange(1, rest.len() as int) =~= self.motors@.subrange(
                    i + 1,
                    self.motors@.len() as int,
                ));
            }
            i += 1;
        }
        None
    }

    /// The thrusters, ordered by id.
    pub fn motors(&self) -> (r: &Vec<(Id, Motor<D>)>)
        ensures
            r@ == self@.motors,
            self@.wf(),
    {
        proof {
            use_type_invariant(self);
        }
        &self.motors
    }

    /// The columns of the matrix, in the order of the thrusters.
    pub fn matrix(&self) -> (r: &Vec<Movement<D>>)
        ensures
            r@ == self@.matrix,
            self@.wf(),
    {
        proof {
            use_type_invariant(self);
        }
        &self.matrix
    }

    /// The rows of the pseudo-inverse, in the order of the thrusters.
    pub fn pseudo_inverse(&self) -> (r: &Vec<Movement<D>>)
        ensures
            r@ == self@.pseudo_inverse,
            self@.wf(),
    {
        proof {
            use_type_invariant(self);
        }
        &self.pseudo_inverse
    }

    /// Takes the type of the ids away. The order of the thrusters and both
    /// matrices stay as they are.
    pub fn erase(self) -> (r: MotorConfig<ErasedMotorId, D>)
        ensures
            r@ == self@.erase_spec(),
    {
        proof {
            use_type_invariant(&self);
        }
        let mut motors: Vec<(ErasedMotorId, Motor<D>)> = Vec::new();
        let mut k: usize = 0;
        while k < self.motors.len()
            invariant
                k <= self.motors.len(),
                motors@.len() == k,
                forall|t: int|
                    0 <= t < k ==> #[trigger] motors@[t] == (
                        self.motors@[t].0.erased_spec(),
                        self.motors@[t].1,
                    ),
            decreases self.motors.len() - k,
        {
            let entry = self.motors[k];
            motors.push((entry.0.erased(), entry.1));
            k += 1;
        }
        proof {
            assert(motors@ =~= self@.erase_spec().motors);
        }
        MotorConfig { motors, matrix: self.matrix, pseudo_inverse: self.pseudo_inverse }
    }
}

impl<D: Number> MotorConfig<ErasedMotorId, D> {
    /// Gives the ids their type back. A key that stands for no id of that
    /// type, or for one that erases to another key, ends it: the first such
    /// key is returned. Both matrices stay as they are.
    pub fn unerase<Id: MotorId>(self) -> (r: Result<MotorConfig<Id, D>, UneraseError>)
        ensures
            match r {
                Ok(config) => self@.unerase_spec::<Id>() == Ok::<
                    MotorConfigView<Id, D>,
                    UneraseError,
                >(config@),
                Err(e) => self@.unerase_spec::<Id>() == Err::<MotorConfigView<Id, D>, UneraseError>(
                    e,
                ),
            },
    {
        proof {
            use_type_invariant(&self);
        }
        let mut motors: Vec<(Id, Motor<D>)> = Vec::new();
        let mut k: usize = 0;
        proof {
            assert(self.motors@.subrange(0, self.motors@.len() as int) =~= self.motors@);
        }
        while k < self.motors.len()
            invariant
                k <= self.motors.len(),
                self@.wf(),
                motors@.len() == k,
                first_undecodable::<Id, Motor<D>>(self.motors@) == first_undecodable::<
                    Id,
                    Motor<D>,
                >(self.motors@.subrange(k as int, self.motors@.len() as int)),
                forall|t: int|
                    0 <= t < k ==> #[trigger] motors@[t] == (
                        Id::unerased_spec(self.motors@[t].0).unwrap(),
                        self.motors@[t].1,
                    ),
                forall|t: int| 0 <= t < k ==> (#[trigger] motors@[t]).0.erased_spec() == self.motors@[t].0,
            decreases self.motors.len() - k,
        {
            let entry = self.motors[k];
            let ghost rest = self.motors@.subrange(k as int, self.motors@.len() as int);
            proof {
                assert(rest[0] == self.motors@[k as int]);
                assert(rest.subrange(1, rest.len() as int) =~= self.motors@.subrange(
                    k + 1,
                    self.motors@.len() as int,
                ));
            }
            match Id::unerased(entry.0) {
                Some(id) => {
                    if id.erased() != entry.0 {
                        return Err(UneraseError { raw: entry.0 });
                    }
                    motors.push((id, entry.1));
                },
                None => {
                    return Err(UneraseError { raw: entry.0 });
                },
            }
            k += 1;
        }
        proof {
            assert(self.motors@.subrange(self.motors@.len() as int, self.motors@.len() as int).len()
                == 0);
            assert(motors@ =~= self@.unerase_spec::<Id>().unwrap().motors);
            assert(strictly_ordered(motors@)) by {
                assert forall|i: int, j: int| 0 <= i < j < motors@.len() implies (
                #[trigger] motors@[i]).0.erased_spec() < (#[trigger] motors@[j]).0.erased_spec() by {
                    assert(self.motors@[i].0.erased_spec() < self.motors@[j].0.erased_spec());
                }
            }
        }
        Ok(MotorConfig { motors, matrix: self.matrix, pseudo_inverse: self.pseudo_inverse })
    }
}

/// Every id before the first that does not decode does decode, and where
/// there is no such id all of them decode.
pub proof fn lemma_first_undecodable<Id: MotorId, V>(entries: Seq<(ErasedMotorId, V)>)
    ensures
        first_undecodable::<Id, V>(entries) is None <==> forall|k: int|
            0 <= k < entries.len() ==> decodes::<Id>((#[trigger] entries[k]).0),
    decreases entries.len(),
{
    if entries.len() > 0 {
        let rest = entries.subrange(1, entries.len() as int);
        lemma_first_undecodable::<Id, V>(rest);
        if decodes::<Id>(entries[0].0) {
            if first_undecodable::<Id, V>(rest) is None {
                assert forall|k: int| 0 <= k < entries.len() implies decodes::<Id>(
                    (#[trigger] entries[k]).0,
                ) by {
                    if k > 0 {
                        assert(rest[k - 1] == entries[k]);
                    }
                }
            } else {
                let bad = choose|k: int| 0 <= k < rest.len() && !decodes::<Id>((#[trigger] rest[k]).0);
                assert(entries[bad + 1] == rest[bad]);
            }
        }
    }
}

/// Erasing the ids of a configuration and giving them their type back
/// gives the configuration again, where every id of it is what its erased
/// form stands for.
pub proof fn lemma_erase_unerase<Id: MotorId, D: Number>(config: MotorConfigView<Id, D>)
    requires
        forall|k: int|
            0 <= k < config.motors.len() ==> Id::unerased_spec(
                (#[trigger] config.motors[k]).0.erased_spec(),
            ) == Some(config.motors[k].0),
    ensures
        config.erase_spec().unerase_spec::<Id>() == Ok::<MotorConfigView<Id, D>, UneraseError>(
            config,
        ),
{
    let erased = config.erase_spec();
    lemma_first_undecodable::<Id, Motor<D>>(erased.motors);
    assert forall|k: int| 0 <= k < erased.motors.len() implies decodes::<Id>(
        (#[trigger] erased.motors[k]).0,
    ) by {
        assert(Id::unerased_spec(config.motors[k].0.erased_spec()) == Some(config.motors[k].0));
    }
    let back = erased.unerase_spec::<Id>().unwrap();
    assert(back.motors =~= config.motors) by {
        assert forall|k: int| 0 <= k < config.motors.len() implies back.motors[k]
            == config.motors[k] by {
            assert(Id::unerased_spec(config.motors[k].0.erased_spec()) == Some(config.motors[k].0));
        }
    }
}

} // verus!
