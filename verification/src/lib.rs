//! A discrete-event simulator for named actors moving through 3D space and
//! coordinating by signals.
//!
//! A user hands [`Workspace::perform`] a script: a tree of [`action::Action`]
//! values interpreted by a small stack-based virtual machine.  Execution
//! advances simulated time by jumping from one scheduled event to the next;
//! [`Workspace::simulate`] drains the per-actor agendas until the world
//! halts.  Actors are rows of a plain table indexed by
//! [`action::ActorHandle`], laid out entity-component style: each component
//! column of the row is independently optional.
//!
//! The scheduler scans every actor's agenda for the task with the least
//! `(eta, guid)` key; a priority queue over the same keys would also do,
//! but the linear scan keeps the tie-break rule and the listener-fulfilment
//! insertions (`eta = now`) trivially in view, and the population is small.
pub mod action;
pub mod num;
pub mod pretty_print;
pub mod script;
pub mod task;
pub mod time;

use vstd::prelude::*;

use std::sync::Arc;

use crate::action::AbsValue;
use crate::action::Expr;
use crate::action::Action;
use crate::action::ActorHandle;
use crate::action::Method;
use crate::action::Signal;
use crate::action::Value;
use crate::action::Vector;
use crate::num::Scalar;
use crate::num::s_add;
use crate::num::s_half;
use crate::num::s_mul;
use crate::num::s_sub;
use crate::num::sat64;
use crate::task::Fiber;
use crate::task::StackFrame;
use crate::task::QueuedTask;
use crate::task::SortToken;
use crate::task::Waiting;
use crate::task::fiber_wf;
use crate::time::Instant;
use crate::time::Interval;

verus! {

broadcast use vstd::std_specs::vec::group_vec_axioms, vstd::seq::group_seq_axioms;

/// A position in space, in light-seconds.
#[derive(Copy, Clone, PartialEq, Eq, Structural, Debug)]
pub struct Position(pub Vector);

/// The instant an actor was spawned.
#[derive(Copy, Clone, PartialEq, Eq, Structural, Debug)]
pub struct CreationDate(pub Instant);

/// An actor's display name.
#[derive(Clone, Debug)]
pub struct Name(pub String);

/// Whether an actor is alive.  `Die` marks an actor dead but leaves it
/// queryable.
#[derive(Copy, Clone, PartialEq, Eq, Structural, Debug)]
pub enum Liveness {
    Alive,
    Dead,
}

impl Default for Liveness {
    /// Actors are alive until something kills them.
    fn default() -> (r: Self)
        ensures
            r == Liveness::Alive,
    {
        Liveness::Alive
    }
}

/// Trajectory in space, as a function from time to position.
#[derive(Copy, Clone, PartialEq, Eq, Structural, Debug)]
pub enum Trajectory {
    /// At rest at `value`.
    Fixed { value: Position },
    /// Uniformly accelerated motion from `start_place` at `start_time`.
    Linear { start_place: Position, start_time: Instant, start_velocity: Vector, accel: Vector },
}

impl Default for Trajectory {
    /// The default trajectory is at rest at the origin.
    fn default() -> (r: Self)
        ensures
            r == Trajectory::spec_default(),
    {
        Trajectory::Fixed { value: Position(Vector::zero()) }
    }
}

impl Default for Position {
    /// The default position is the origin.
    fn default() -> (r: Self)
        ensures
            r == Position(Vector::spec_zero()),
    {
        Position(Vector::zero())
    }
}

/// The velocity of a trajectory at `at`: zero for `Fixed`, and
/// `start_velocity + accel * dt` for `Linear`.
pub open spec fn velocity_spec(t: Trajectory, at: Instant) -> Vector {
    match t {
        Trajectory::Fixed { value } => Vector::spec_zero(),
        Trajectory::Linear { start_place, start_time, start_velocity, accel } => {
            let dt = s_sub(at.at, start_time.at);
            Vector {
                x: s_add(start_velocity.x, s_mul(accel.x, dt)),
                y: s_add(start_velocity.y, s_mul(accel.y, dt)),
                z: s_add(start_velocity.z, s_mul(accel.z, dt)),
            }
        },
    }
}

/// The position of a trajectory at `at`: its value for `Fixed`, and
/// `start_place + start_velocity * dt + accel * dt * dt / 2` for `Linear`,
/// evaluated componentwise in fixed point.
pub open spec fn sample_spec(t: Trajectory, at: Instant) -> Position {
    match t {
        Trajectory::Fixed { value } => value,
        Trajectory::Linear { start_place, start_time, start_velocity, accel } => {
            let dt = s_sub(at.at, start_time.at);
            Position(
                Vector {
                    x: s_add(
                        s_add(start_place.0.x, s_mul(start_velocity.x, dt)),
                        s_half(s_mul(s_mul(accel.x, dt), dt)),
                    ),
                    y: s_add(
                        s_add(start_place.0.y, s_mul(start_velocity.y, dt)),
                        s_half(s_mul(s_mul(accel.y, dt), dt)),
                    ),
                    z: s_add(
                        s_add(start_place.0.z, s_mul(start_velocity.z, dt)),
                        s_half(s_mul(s_mul(accel.z, dt), dt)),
                    ),
                },
            )
        },
    }
}

impl Trajectory {
    /// The default trajectory: at rest at the origin.
    pub open spec fn spec_default() -> Trajectory {
        Trajectory::Fixed { value: Position(Vector::spec_zero()) }
    }

    /// The velocity at `time`.
    pub fn velocity_at(&self, time: Instant) -> (r: Vector)
        ensures
            r == velocity_spec(*self, time),
    {
        match *self {
            Trajectory::Fixed { .. } => Vector::zero(),
            Trajectory::Linear { start_place, start_time, start_velocity, accel } => {
                let dt = time.at.sub_sat(start_time.at);
                Vector {
                    x: start_velocity.x.add_sat(accel.x.mul_fx(dt)),
                    y: start_velocity.y.add_sat(accel.y.mul_fx(dt)),
                    z: start_velocity.z.add_sat(accel.z.mul_fx(dt)),
                }
            },
        }
    }

    /// The position at `time`.
    pub fn sample_at(&self, time: Instant) -> (r: Position)
        ensures
            r == sample_spec(*self, time),
    {
        match *self {
            Trajectory::Fixed { value } => value,
            Trajectory::Linear { start_place, start_time, start_velocity, accel } => {
                let dt = time.at.sub_sat(start_time.at);
                Position(
                    Vector {
                        x: start_place.0.x.add_sat(start_velocity.x.mul_fx(dt)).add_sat(
                            accel.x.mul_fx(dt).mul_fx(dt).half(),
                        ),
                        y: start_place.0.y.add_sat(start_velocity.y.mul_fx(dt)).add_sat(
                            accel.y.mul_fx(dt).mul_fx(dt).half(),
                        ),
                        z: start_place.0.z.add_sat(start_velocity.z.mul_fx(dt)).add_sat(
                            accel.z.mul_fx(dt).mul_fx(dt).half(),
                        ),
                    },
                )
            },
        }
    }
}

/// A trajectory's position at its own start time is its start place.
pub proof fn lemma_sample_at_start(
    start_place: Position,
    start_time: Instant,
    start_velocity: Vector,
    accel: Vector,
)
    ensures
        sample_spec(
            Trajectory::Linear { start_place, start_time, start_velocity, accel },
            start_time,
        ) == start_place,
{
    let dt = s_sub(start_time.at, start_time.at);
    assert(dt == Scalar { raw: 0 });
    crate::num::lemma_s_mul_zero(start_velocity.x);
    crate::num::lemma_s_mul_zero(start_velocity.y);
    crate::num::lemma_s_mul_zero(start_velocity.z);
    crate::num::lemma_s_mul_zero(accel.x);
    crate::num::lemma_s_mul_zero(accel.y);
    crate::num::lemma_s_mul_zero(accel.z);
    crate::num::lemma_s_mul_zero(Scalar { raw: 0 });
    crate::num::lemma_s_half_zero();
    crate::num::lemma_s_add_zero(start_place.0.x);
    crate::num::lemma_s_add_zero(start_place.0.y);
    crate::num::lemma_s_add_zero(start_place.0.z);
}

/// A trajectory's velocity at its own start time is its start velocity.
pub proof fn lemma_velocity_at_start(
    start_place: Position,
    start_time: Instant,
    start_velocity: Vector,
    accel: Vector,
)
    ensures
        velocity_spec(
            Trajectory::Linear { start_place, start_time, start_velocity, accel },
            start_time,
        ) == start_velocity,
{
    let dt = s_sub(start_time.at, start_time.at);
    assert(dt == Scalar { raw: 0 });
    crate::num::lemma_s_mul_zero(accel.x);
    crate::num::lemma_s_mul_zero(accel.y);
    crate::num::lemma_s_mul_zero(accel.z);
    crate::num::lemma_s_add_zero(start_velocity.x);
    crate::num::lemma_s_add_zero(start_velocity.y);
    crate::num::lemma_s_add_zero(start_velocity.z);
}

/// Per-actor pending work: at most one queued task — the type allows no
/// more — and the signals the actor is listening for.
pub struct Agenda {
    pub next: Option<QueuedTask>,
    pub listening: Vec<(Signal, Waiting)>,
}

impl Agenda {
    /// An empty agenda: no queued task, no listeners.
    pub fn empty() -> (r: Agenda)
        ensures
            r.next is None,
            r.listening@ == Seq::<(Signal, Waiting)>::empty(),
    {
        Agenda { next: None, listening: Vec::new() }
    }
}

impl Default for Agenda {
    /// A fresh agenda is empty.
    fn default() -> (r: Self)
        ensures
            r.next is None,
            r.listening@ == Seq::<(Signal, Waiting)>::empty(),
    {
        Agenda::empty()
    }
}

/// One row of the actor table.  Every column except the name and the
/// agenda is independently optional, as in an entity-component store.
pub struct Actor {
    pub name: Name,
    pub created: Option<CreationDate>,
    pub trajectory: Option<Trajectory>,
    /// Cache of the position at the world's current instant; cleared on
    /// every dispatch.
    pub position: Option<Position>,
    pub agenda: Agenda,
    pub liveness: Option<Liveness>,
}

/// What can go wrong while interpreting a script.
#[derive(Debug)]
pub enum Error {
    /// A name referenced in `AsActor`, `Var` or an actor-name argument has
    /// no binding.
    NoSuchGlobal { name: String },
    /// An actor lacks a resolvable trajectory when one is required.
    /// (Unreachable here: a missing trajectory samples as the default.)
    MissingPosition { name: String },
    /// A component write failed, such as `SetAccel` on an actor that was
    /// never given a trajectory.
    CouldNotWrite { component: &'static str },
    /// Field lookup on a value that does not define the field.
    NoSuchField { name: String, on_value: Value },
    /// `Call` of a method that was never defined.
    NoSuchMethod { name: String },
    /// `Call` with the wrong number of arguments.
    ArgListMismatch { name: String, wanted: usize, got: usize },
    /// The interpreter's step budget ran out.  The budget is astronomically
    /// large; only a script that runs forever can exhaust it.
    StepLimit,
}

/// The mathematical shape of an [`Error`].
pub enum AbsErr {
    NoSuchGlobal { name: Seq<char> },
    MissingPosition { name: Seq<char> },
    CouldNotWrite { component: Seq<char> },
    NoSuchField { name: Seq<char>, on_value: AbsValue },
    NoSuchMethod { name: Seq<char> },
    ArgListMismatch { name: Seq<char>, wanted: int, got: int },
    StepLimit,
}

impl View for Error {
    type V = AbsErr;

    open spec fn view(&self) -> AbsErr {
        match *self {
            Error::NoSuchGlobal { name } => AbsErr::NoSuchGlobal { name: name@ },
            Error::MissingPosition { name } => AbsErr::MissingPosition { name: name@ },
            Error::CouldNotWrite { component } => AbsErr::CouldNotWrite { component: component@ },
            Error::NoSuchField { name, on_value } => AbsErr::NoSuchField {
                name: name@,
                on_value: on_value@,
            },
            Error::NoSuchMethod { name } => AbsErr::NoSuchMethod { name: name@ },
            Error::ArgListMismatch { name, wanted, got } => AbsErr::ArgListMismatch {
                name: name@,
                wanted: wanted as int,
                got: got as int,
            },
            Error::StepLimit => AbsErr::StepLimit,
        }
    }
}

/// The world: the actor table, the clock, the global and method tables,
/// the supervisor, the guid counter, and the trace log.
pub struct Workspace {
    pub has_halted: bool,
    pub actors: Vec<Actor>,
    pub now: Instant,
    pub globals: Vec<(String, ActorHandle)>,
    pub methods: Vec<(String, Arc<Method>)>,
    pub supervisor: ActorHandle,
    pub task_counter: u64,
    /// Human-readable lines describing every executed action; the caller
    /// decides what to do with them.
    pub log: Vec<String>,
}

/// The trajectory an actor moves on: its own, or the default when it was
/// never given one.
pub open spec fn traj_or_default(a: Actor) -> Trajectory {
    match a.trajectory {
        Some(t) => t,
        None => Trajectory::spec_default(),
    }
}

/// The position of actor `i` at the world's current instant — the value
/// every read at this instant returns, whether or not it is cached yet.
pub open spec fn spec_position_of(w: Workspace, i: int) -> Position {
    if 0 <= i < w.actors@.len() {
        sample_spec(traj_or_default(w.actors@[i]), w.now)
    } else {
        Position(Vector::spec_zero())
    }
}

/// The guid was drawn from the counter in the past.  Once the counter
/// has pinned at its maximum, the bound gives no information.
pub open spec fn guid_ok(g: u64, counter: u64) -> bool {
    g < counter || counter == u64::MAX
}

/// A single listener entry is well-formed: its guid was issued in the
/// past and its fiber is closed over valid actors.
pub open spec fn listener_wf(e: (Signal, Waiting), counter: u64, n: int) -> bool {
    &&& guid_ok(e.1.guid, counter)
    &&& fiber_wf(*e.1.fiber, n)
}

/// An agenda is well-formed: the queued task, if any, is not overdue and
/// carries an already-issued guid; listeners are well-formed and listen
/// for pairwise distinct signals.
pub open spec fn agenda_wf(a: Agenda, now: Instant, counter: u64, n: int) -> bool {
    &&& match a.next {
        Some(t) => {
            &&& t.token.eta.at.raw >= now.at.raw
            &&& guid_ok(t.token.guid, counter)
            &&& fiber_wf(*t.fiber, n)
        },
        None => true,
    }
    &&& forall|i: int|
        0 <= i < a.listening@.len() ==> listener_wf(#[trigger] a.listening@[i], counter, n)
    &&& forall|i: int, j: int|
        0 <= i < j < a.listening@.len() ==> (#[trigger] a.listening@[i]).0@ != (
        #[trigger] a.listening@[j]).0@
}

/// An actor row is well-formed: its agenda is, and its position cache, if
/// filled, holds exactly the position its trajectory gives at `now`.
pub open spec fn actor_wf(a: Actor, now: Instant, counter: u64, n: int) -> bool {
    &&& agenda_wf(a.agenda, now, counter, n)
    &&& match a.position {
        Some(p) => p == sample_spec(traj_or_default(a), now),
        None => true,
    }
}

/// The world invariant: the supervisor exists, the clock is non-negative,
/// every actor row is well-formed, every global binding points into the
/// table, and every registered method body is a well-formed script.
pub open spec fn wf(w: Workspace) -> bool {
    let n = w.actors@.len() as int;
    &&& (w.supervisor.idx as int) < n
    &&& w.now.at.raw >= 0
    &&& forall|i: int| 0 <= i < n ==> actor_wf(#[trigger] w.actors@[i], w.now, w.task_counter, n)
    &&& forall|i: int| 0 <= i < w.globals@.len() ==> ((#[trigger] w.globals@[i]).1.idx as int) < n
    &&& forall|i: int|
        0 <= i < w.methods@.len() ==> crate::action::script_wf((#[trigger] w.methods@[i]).1.script@)
}

impl Workspace {
    /// Whether this world satisfies its invariant.  Every public operation
    /// preserves it; [`Workspace::new`] establishes it.
    pub open spec fn wf(&self) -> bool {
        wf(*self)
    }

    /// An empty world: only the supervisor actor, named `"Everything"`,
    /// with the clock at zero.
    pub fn new() -> (r: Workspace)
        ensures
            r.wf(),
            !r.has_halted,
            r.now == Instant::spec_origin(),
            r.task_counter == 0,
            r.supervisor == (ActorHandle { idx: 0 }),
            r.actors@.len() == 1,
            r.actors@[0].name.0@ == "Everything"@,
            r.actors@[0].created is None,
            r.actors@[0].trajectory is None,
            r.actors@[0].position is None,
            r.actors@[0].liveness is None,
            r.actors@[0].agenda.next is None,
            r.actors@[0].agenda.listening@.len() == 0,
            r.globals@.len() == 1,
            r.globals@[0].0@ == "Everything"@,
            r.globals@[0].1 == (ActorHandle { idx: 0 }),
            r.methods@.len() == 0,
            r.log@.len() == 0,
    {
        let init_name: String = "Everything".to_owned();
        let supervisor = ActorHandle { idx: 0 };
        let mut actors: Vec<Actor> = Vec::new();
        actors.push(
            Actor {
                name: Name(init_name.clone()),
                created: None,
                trajectory: None,
                position: None,
                agenda: Agenda::empty(),
                liveness: None,
            },
        );
        let mut globals: Vec<(String, ActorHandle)> = Vec::new();
        globals.push((init_name, supervisor));
        Workspace {
            has_halted: false,
            actors,
            now: Instant::origin(),
            globals,
            methods: Vec::new(),
            supervisor,
            task_counter: 0,
            log: Vec::new(),
        }
    }

    /// Whether a `Halt` action has stopped the world.
    pub fn has_halted(&self) -> (r: bool)
        ensures
            r == self.has_halted,
    {
        self.has_halted
    }

    /// Draw a fresh guid: the current counter value.  The counter then
    /// grows, so later guids are strictly larger — until the counter would
    /// overflow, where it pins at the maximum instead of wrapping.
    fn make_guid(&mut self) -> (r: u64)
        ensures
            r == old(self).task_counter,
            final(self).task_counter == (if old(self).task_counter < u64::MAX {
                old(self).task_counter + 1
            } else {
                u64::MAX as int
            }),
            *final(self) == (Workspace { task_counter: final(self).task_counter, ..*old(self) }),
            old(self).wf() ==> final(self).wf(),
    {
        let guid = self.task_counter;
        if self.task_counter < u64::MAX {
            self.task_counter = self.task_counter + 1;
        }
        proof {
            if old(self).wf() {
                let w1 = *old(self);
                let w2 = *self;
                let nn = w2.actors@.len() as int;
                assert forall|j: int| 0 <= j < nn implies actor_wf(
                    #[trigger] w2.actors@[j],
                    w2.now,
                    w2.task_counter,
                    nn,
                ) by {
                    assert(actor_wf(w1.actors@[j], w1.now, w1.task_counter, nn));
                    assert(w2.actors@[j] == w1.actors@[j]);
                    assert forall|x: int|
                        0 <= x < w2.actors@[j].agenda.listening@.len() implies listener_wf(
                        #[trigger] w2.actors@[j].agenda.listening@[x],
                        w2.task_counter,
                        nn,
                    ) by {
                        assert(listener_wf(
                            w1.actors@[j].agenda.listening@[x],
                            w1.task_counter,
                            nn,
                        ));
                    }
                }
            }
        }
        guid
    }
}

/// The first binding of `name` in an association list, if any.
pub open spec fn assoc_find<V>(s: Seq<(String, V)>, name: Seq<char>) -> Option<V>
    decreases s.len(),
{
    if s.len() == 0 {
        None
    } else if s[0].0@ == name {
        Some(s[0].1)
    } else {
        assoc_find(s.drop_first(), name)
    }
}

/// Bind `name` to `val` in an association list: replace the first binding
/// of the name, or append a new one.
pub open spec fn assoc_set_shape<V>(
    s1: Seq<(String, V)>,
    s2: Seq<(String, V)>,
    name: Seq<char>,
    kept_name: String,
    val: V,
) -> bool {
    ||| (exists|k: int|
        0 <= k < s1.len() && (#[trigger] s1[k]).0@ == name && (forall|j: int|
            0 <= j < k ==> (#[trigger] s1[j]).0@ != name) && s2 == s1.update(k, (kept_name, val)))
    ||| ((forall|j: int| 0 <= j < s1.len() ==> (#[trigger] s1[j]).0@ != name) && s2 == s1.push(
        (kept_name, val),
    ))
}

/// Look a name up in the global table.
#[verifier::loop_isolation(false)]
fn assoc_get_handle(v: &Vec<(String, ActorHandle)>, name: &String) -> (r: Option<ActorHandle>)
    ensures
        r == assoc_find(v@, name@),
{
    let n = v.len();
    let mut i: usize = 0;
    proof {
        assert(v@.skip(0) =~= v@);
    }
    while i < n
        invariant
            0 <= i <= n,
            assoc_find(v@, name@) == assoc_find(v@.skip(i as int), name@),
        decreases n - i,
    {
        proof {
            assert(v@.skip(i as int)[0] == v@[i as int]);
        }
        if v[i].0 == *name {
            return Some(v[i].1);
        }
        proof {
            assert(v@.skip(i as int).drop_first() =~= v@.skip(i as int + 1));
        }
        i = i + 1;
    }
    None
}

/// Look a name up in the method table; the body is shared, not copied.
#[verifier::loop_isolation(false)]
fn assoc_get_method(v: &Vec<(String, Arc<Method>)>, name: &String) -> (r: Option<Arc<Method>>)
    ensures
        r == assoc_find(v@, name@),
{
    let n = v.len();
    let mut i: usize = 0;
    proof {
        assert(v@.skip(0) =~= v@);
    }
    while i < n
        invariant
            0 <= i <= n,
            assoc_find(v@, name@) == assoc_find(v@.skip(i as int), name@),
        decreases n - i,
    {
        proof {
            assert(v@.skip(i as int)[0] == v@[i as int]);
        }
        if v[i].0 == *name {
            return Some(v[i].1.clone());
        }
        proof {
            assert(v@.skip(i as int).drop_first() =~= v@.skip(i as int + 1));
        }
        i = i + 1;
    }
    None
}

/// Look a name up in a locals table; the value is cloned out.
#[verifier::loop_isolation(false)]
fn assoc_get_value(v: &Vec<(String, Value)>, name: &String) -> (r: Option<Value>)
    ensures
        r == assoc_find(v@, name@),
{
    let n = v.len();
    let mut i: usize = 0;
    proof {
        assert(v@.skip(0) =~= v@);
    }
    while i < n
        invariant
            0 <= i <= n,
            assoc_find(v@, name@) == assoc_find(v@.skip(i as int), name@),
        decreases n - i,
    {
        proof {
            assert(v@.skip(i as int)[0] == v@[i as int]);
        }
        if v[i].0 == *name {
            return Some(v[i].1.clone());
        }
        proof {
            assert(v@.skip(i as int).drop_first() =~= v@.skip(i as int + 1));
        }
        i = i + 1;
    }
    None
}

/// Bind `name` to `val`, overwriting the first binding of the name or
/// appending a new one.
#[verifier::loop_isolation(false)]
fn assoc_set<V>(v: &mut Vec<(String, V)>, name: String, val: V)
    ensures
        assoc_set_shape(old(v)@, final(v)@, name@, name, val),
{
    let n = v.len();
    let mut i: usize = 0;
    while i < n
        invariant
            0 <= i <= n,
            *v == *old(v),
            forall|j: int| 0 <= j < i ==> (#[trigger] v@[j]).0@ != name@,
        decreases n - i,
    {
        if v[i].0 == name {
            let slot = &mut v[i];
            *slot = (name, val);
            return ;
        }
        i = i + 1;
    }
    v.push((name, val));
}

impl Workspace {
    /// The position of `id` at the current instant, memoised: the first
    /// read at this instant computes it from the actor's trajectory (the
    /// default trajectory if it has none) and fills the cache; later reads
    /// return the identical value.  Never fails.
    fn get_position(&mut self, id: ActorHandle) -> (r: Result<Position, Error>)
        requires
            old(self).wf(),
            (id.idx as int) < old(self).actors@.len(),
        ensures
            final(self).wf(),
            r == Ok::<Position, Error>(spec_position_of(*old(self), id.idx as int)),
            final(self).actors@ == old(self).actors@.update(
                id.idx as int,
                Actor {
                    position: Some(spec_position_of(*old(self), id.idx as int)),
                    ..old(self).actors@[id.idx as int]
                },
            ),
            *final(self) == (Workspace { actors: final(self).actors, ..*old(self) }),
    {
        let i = id.idx;
        let ghost target = spec_position_of(*old(self), id.idx as int);
        let cached = self.actors[i].position;
        match cached {
            Some(p) => {
                proof {
                    assert(actor_wf(
                        self.actors@[i as int],
                        self.now,
                        self.task_counter,
                        self.actors@.len() as int,
                    ));
                    assert(p == target);
                    assert(old(self).actors@.update(
                        i as int,
                        Actor { position: Some(target), ..old(self).actors@[i as int] },
                    ) =~= old(self).actors@);
                }
                Ok(p)
            },
            None => {
                let traj = match &self.actors[i].trajectory {
                    Some(t) => *t,
                    None => Trajectory::default(),
                };
                let pos = traj.sample_at(self.now);
                proof {
                    assert(traj == traj_or_default(self.actors@[i as int]));
                    assert(pos == target);
                }
                let a = &mut self.actors[i];
                a.position = Some(pos);
                proof {
                    let w1 = *old(self);
                    let w2 = *self;
                    let n = w2.actors@.len() as int;
                    assert(w2.actors@.len() == w1.actors@.len());
                    assert forall|j: int| 0 <= j < n implies actor_wf(
                        #[trigger] w2.actors@[j],
                        w2.now,
                        w2.task_counter,
                        n,
                    ) by {
                        assert(actor_wf(w1.actors@[j], w1.now, w1.task_counter, n));
                        if j == i as int {
                            assert(traj_or_default(w2.actors@[j]) == traj_or_default(
                                w1.actors@[j],
                            ));
                        } else {
                            assert(w2.actors@[j] == w1.actors@[j]);
                        }
                    }
                }
                Ok(pos)
            },
        }
    }
}

/// The first binding of `name` in an abstract record's field list.
pub open spec fn abs_fields_find(fields: Seq<(Seq<char>, AbsValue)>, name: Seq<char>) -> Option<
    AbsValue,
>
    decreases fields.len(),
{
    if fields.len() == 0 {
        None
    } else if fields[0].0 == name {
        Some(fields[0].1)
    } else {
        abs_fields_find(fields.drop_first(), name)
    }
}

/// A found binding is one of the list's values.
pub proof fn lemma_assoc_find_member<V>(s: Seq<(String, V)>, name: Seq<char>)
    ensures
        match assoc_find(s, name) {
            Some(v) => exists|j: int| 0 <= j < s.len() && v == (#[trigger] s[j]).1,
            None => true,
        },
    decreases s.len(),
{
    if s.len() > 0 && s[0].0@ != name {
        lemma_assoc_find_member(s.drop_first(), name);
        match assoc_find(s.drop_first(), name) {
            Some(v) => {
                let j = choose|j: int|
                    0 <= j < s.drop_first().len() && v == (#[trigger] s.drop_first()[j]).1;
                assert(s.drop_first()[j] == s[j + 1]);
            },
            None => {},
        }
    }
}

/// What a pure expression evaluates to, as a function of the world's
/// bindings and trajectories, the running actor, and the frame's locals:
/// `Myself` is the running actor; a variable is looked up in the locals,
/// then among the global actor names; a number is itself; a field is
/// looked up on a record value, and `position` on an actor yields its
/// position at the current instant as a record.  Exactly the named
/// lookup failures are errors.
pub open spec fn eval_spec(
    w: Workspace,
    me: ActorHandle,
    locals: Seq<(String, Value)>,
    e: Expr,
) -> Result<AbsValue, AbsErr>
    decreases e,
{
    match e {
        Expr::Myself => Ok(AbsValue::Actor { idx: me.idx as int }),
        Expr::NumConst { value } => Ok(AbsValue::Num { raw: value.raw as int }),
        Expr::Var { name } => match assoc_find(locals, name@) {
            Some(v) => Ok(crate::action::value_view(v)),
            None => match assoc_find(w.globals@, name@) {
                Some(h) => Ok(AbsValue::Actor { idx: h.idx as int }),
                None => Err(AbsErr::NoSuchGlobal { name: name@ }),
            },
        },
        Expr::Field { subject, field_name } => match eval_spec(w, me, locals, *subject) {
            Err(err) => Err(err),
            Ok(AbsValue::Actor { idx }) => {
                if field_name@ == "position"@ {
                    Ok(abs_position(spec_position_of(w, idx)))
                } else {
                    Err(
                        AbsErr::NoSuchField {
                            name: field_name@,
                            on_value: AbsValue::Actor { idx },
                        },
                    )
                }
            },
            Ok(AbsValue::Struct { fields }) => match abs_fields_find(fields, field_name@) {
                Some(v) => Ok(v),
                None => Err(
                    AbsErr::NoSuchField {
                        name: field_name@,
                        on_value: AbsValue::Struct { fields },
                    },
                ),
            },
            Ok(other) => Err(AbsErr::NoSuchField { name: field_name@, on_value: other }),
        },
    }
}

/// Two worlds agree on everything expression evaluation reads: global
/// bindings, the clock, and each actor's trajectory.  The position cache
/// is deliberately not included.
pub open spec fn eval_inputs_agree(w1: Workspace, w2: Workspace) -> bool {
    &&& w1.globals == w2.globals
    &&& w1.now == w2.now
    &&& w1.actors@.len() == w2.actors@.len()
    &&& forall|i: int|
        0 <= i < w1.actors@.len() ==> traj_or_default(#[trigger] w1.actors@[i]) == traj_or_default(
            w2.actors@[i],
        )
}

/// Expression evaluation cannot see the position cache: worlds that agree
/// on the evaluation inputs evaluate every expression alike.
pub proof fn lemma_eval_spec_agrees(
    w1: Workspace,
    w2: Workspace,
    me: ActorHandle,
    locals: Seq<(String, Value)>,
    e: &Expr,
)
    requires
        eval_inputs_agree(w1, w2),
    ensures
        eval_spec(w1, me, locals, *e) == eval_spec(w2, me, locals, *e),
    decreases *e,
{
    match e {
        Expr::Field { subject, field_name } => {
            lemma_eval_spec_agrees(w1, w2, me, locals, subject);
        },
        _ => {},
    }
}

/// What `Transmit` does to one actor: if the actor listens for the
/// signal, the listener entry is removed — consumed exactly once — and
/// the parked fiber is queued with `eta = now` under its original guid;
/// otherwise the actor is untouched.
pub open spec fn transmit_effect(a1: Actor, a2: Actor, sig: crate::action::AbsSignal, now: Instant) -> bool {
    &&& a2 == (Actor { agenda: a2.agenda, ..a1 })
    &&& {
        ||| (exists|k: int|
            {
                &&& 0 <= k < a1.agenda.listening@.len()
                &&& (#[trigger] a1.agenda.listening@[k]).0@ == sig
                &&& (forall|j: int|
                    0 <= j < k ==> (#[trigger] a1.agenda.listening@[j]).0@ != sig)
                &&& a2.agenda.listening@ == a1.agenda.listening@.remove(k)
                &&& a2.agenda.next == Some(
                    QueuedTask {
                        token: SortToken { eta: now, guid: a1.agenda.listening@[k].1.guid },
                        fiber: a1.agenda.listening@[k].1.fiber,
                    },
                )
            })
        ||| ((forall|k: int|
            0 <= k < a1.agenda.listening@.len() ==> (#[trigger] a1.agenda.listening@[k]).0@
                != sig) && a2 == a1)
    }
}

/// The trajectory `SetAccel` installs: if the actor is at rest and the
/// new acceleration is zero, collapse to `Fixed` at the current position;
/// otherwise accelerated motion from here and now.
pub open spec fn set_accel_traj(t0: Trajectory, pos: Position, now: Instant, value: Vector) -> Trajectory {
    if velocity_spec(t0, now) == Vector::spec_zero() && value == Vector::spec_zero() {
        Trajectory::Fixed { value: pos }
    } else {
        Trajectory::Linear {
            start_place: pos,
            start_time: now,
            start_velocity: velocity_spec(t0, now),
            accel: value,
        }
    }
}

impl Workspace {
    /// Remove and return the parked task with the least `(eta, guid)`
    /// key; if nothing is parked, synthesize a `Halt` for the supervisor
    /// one second from now.  Either way the returned time is not in the
    /// past.
    fn find_next_task(&mut self) -> (r: (Instant, Box<Fiber>))
        requires
            old(self).wf(),
        ensures
            final(self).wf(),
            r.0.at.raw >= old(self).now.at.raw,
            fiber_wf(*r.1, final(self).actors@.len() as int),
            *final(self) == (Workspace { actors: final(self).actors, ..*old(self) }),
            final(self).actors@.len() == old(self).actors@.len(),
            ({
                ||| (exists|i: int|
                    {
                        &&& 0 <= i < old(self).actors@.len()
                        &&& match (#[trigger] old(self).actors@[i]).agenda.next {
                            Some(t) => {
                                &&& t.token.eta == r.0
                                &&& t.fiber == r.1
                                &&& final(self).actors@[i].agenda.next is None
                                &&& final(self).actors@[i].agenda.listening
                                    == old(self).actors@[i].agenda.listening
                                &&& final(self).actors@[i] == (Actor {
                                    agenda: final(self).actors@[i].agenda,
                                    ..old(self).actors@[i]
                                })
                                &&& (forall|j: int|
                                    0 <= j < old(self).actors@.len() && j != i
                                        ==> final(self).actors@[j] == old(self).actors@[j])
                                &&& (forall|j: int|
                                    0 <= j < old(self).actors@.len() ==> match (
                                    #[trigger] old(self).actors@[j]).agenda.next {
                                        Some(u) => crate::task::token_le(t.token, u.token),
                                        None => true,
                                    })
                            },
                            None => false,
                        }
                    })
                ||| ({
                    &&& (forall|j: int|
                        0 <= j < old(self).actors@.len() ==> (
                        #[trigger] old(self).actors@[j]).agenda.next is None)
                    &&& final(self).actors@ == old(self).actors@
                    &&& r.0.at.raw == sat64(old(self).now.at.raw + crate::num::SCALE)
                    &&& r.1.me == old(self).supervisor
                    &&& r.1.stack@.len() == 1
                    &&& r.1.stack@[0].pc == 0
                    &&& r.1.stack@[0].script@ == seq![Action::Halt]
                    &&& r.1.stack@[0].locals@.len() == 0
                })
            }),
    {
        let n = self.actors.len();
        let mut best: Option<(usize, SortToken)> = None;
        let mut i: usize = 0;
        while i < n
            invariant
                0 <= i <= n,
                n == self.actors@.len(),
                old(self).wf(),
                *self == *old(self),
                match best {
                    None => forall|j: int|
                        0 <= j < i ==> (#[trigger] self.actors@[j]).agenda.next is None,
                    Some(b) => {
                        &&& (b.0 as int) < i
                        &&& match self.actors@[b.0 as int].agenda.next {
                            Some(t) => t.token == b.1,
                            None => false,
                        }
                        &&& forall|j: int|
                            0 <= j < i ==> match (#[trigger] self.actors@[j]).agenda.next {
                                Some(u) => crate::task::token_le(b.1, u.token),
                                None => true,
                            }
                    },
                },
            decreases n - i,
        {
            let token = match &self.actors[i].agenda.next {
                Some(task) => Some(task.token),
                None => None,
            };
            match token {
                Some(tok) => {
                    let replace = match &best {
                        Some(b) => !b.1.before(&tok),
                        None => true,
                    };
                    if replace {
                        best = Some((i, tok));
                    }
                },
                None => {},
            }
            i = i + 1;
        }
        match best {
            Some((bi, _tok)) => {
                let taken = self.actors[bi].agenda.next.take();
                match taken {
                    Some(task) => {
                        proof {
                            let w1 = *old(self);
                            let w2 = *self;
                            let nn = w2.actors@.len() as int;
                            assert forall|j: int| 0 <= j < nn implies actor_wf(
                                #[trigger] w2.actors@[j],
                                w2.now,
                                w2.task_counter,
                                nn,
                            ) by {
                                assert(actor_wf(w1.actors@[j], w1.now, w1.task_counter, nn));
                                if j != bi as int {
                                    assert(w2.actors@[j] == w1.actors@[j]);
                                }
                            }
                            assert(actor_wf(w1.actors@[bi as int], w1.now, w1.task_counter, nn));
                        }
                        let (eta, fiber) = task.into_parts();
                        (eta, fiber)
                    },
                    None => vstd::pervasive::unreached(),
                }
            },
            None => {
                let eta = self.now.plus(Interval::one());
                let mut script: Vec<Action> = Vec::new();
                script.push(Action::Halt);
                let fiber = Fiber::new(self.supervisor, Arc::new(script));
                proof {
                    assert(fiber.stack@[0].script@ =~= seq![Action::Halt]);
                    assert(crate::task::frame_wf(
                        fiber.stack@[0],
                        self.actors@.len() as int,
                    ));
                    assert(fiber_wf(fiber, self.actors@.len() as int));
                }
                (eta, Box::new(fiber))
            },
        }
    }

    /// Wake every listener whose recorded signal matches `sig`: each is
    /// consumed from its listener table and queued to run at the current
    /// instant under the guid it drew when it began listening.  The
    /// transmitter itself does not suspend.  A fulfilled task replaces
    /// whatever was queued before (last writer wins).
    fn do_transmit(&mut self, sig: &Signal)
        requires
            old(self).wf(),
        ensures
            final(self).wf(),
            transmit_world(*old(self), sig@, *final(self)),
    {
        let n = self.actors.len();
        let mut i: usize = 0;
        while i < n
            invariant
                0 <= i <= n,
                n == self.actors@.len() == old(self).actors@.len(),
                old(self).wf(),
                self.wf(),
                *self == (Workspace { actors: self.actors, ..*old(self) }),
                forall|j: int|
                    0 <= j < i ==> transmit_effect(
                        #[trigger] old(self).actors@[j],
                        self.actors@[j],
                        sig@,
                        old(self).now,
                    ),
                forall|j: int|
                    i <= j < n ==> #[trigger] self.actors@[j] == old(self).actors@[j],
            decreases n - i,
        {
            // scan this actor's listener table for the matching signal
            let m = self.actors[i].listening_len();
            let mut k: usize = 0;
            let mut found: Option<usize> = None;
            while k < m
                invariant
                    0 <= k <= m,
                    (i as int) < self.actors@.len(),
                    m == self.actors@[i as int].agenda.listening@.len(),
                    match found {
                        None => forall|j: int|
                            0 <= j < k ==> (#[trigger] self.actors@[
                                i as int
                            ].agenda.listening@[j]).0@ != sig@,
                        Some(f) => {
                            &&& (f as int) < k
                            &&& self.actors@[i as int].agenda.listening@[f as int].0@ == sig@
                            &&& forall|j: int|
                                0 <= j < f ==> (#[trigger] self.actors@[
                                    i as int
                                ].agenda.listening@[j]).0@ != sig@
                        },
                    },
                decreases m - k,
            {
                match found {
                    None => {
                        if signal_eq_at(&self.actors, i, k, sig) {
                            found = Some(k);
                        }
                    },
                    Some(_) => {},
                }
                k = k + 1;
            }
            match found {
                Some(f) => {
                    let entry = self.actors[i].agenda.listening.remove(f);
                    let now_copy = self.now;
                    let guid = entry.1.guid;
                    let a = &mut self.actors[i];
                    a.agenda.next = Some(
                        QueuedTask {
                            token: SortToken { eta: now_copy, guid },
                            fiber: entry.1.fiber,
                        },
                    );
                    proof {
                        let w1 = *old(self);
                        let w2 = *self;
                        let nn = w2.actors@.len() as int;
                        let l1 = w1.actors@[i as int].agenda.listening@;
                        let l2 = w2.actors@[i as int].agenda.listening@;
                        assert(l2 =~= l1.remove(f as int));
                        assert(actor_wf(w1.actors@[i as int], w1.now, w1.task_counter, nn));
                        assert(listener_wf(l1[f as int], w1.task_counter, nn));
                        assert forall|x: int, y: int|
                            0 <= x < y < l2.len() implies (#[trigger] l2[x]).0@ != (
                        #[trigger] l2[y]).0@ by {
                            let x1 = if x < f as int { x } else { x + 1 };
                            let y1 = if y < f as int { y } else { y + 1 };
                            assert(l2[x] == l1[x1] && l2[y] == l1[y1]);
                        }
                        assert forall|x: int|
                            0 <= x < l2.len() implies listener_wf(
                            #[trigger] l2[x],
                            w2.task_counter,
                            nn,
                        ) by {
                            let x1 = if x < f as int { x } else { x + 1 };
                            assert(l2[x] == l1[x1]);
                            assert(listener_wf(l1[x1], w1.task_counter, nn));
                        }
                        assert(actor_wf(w2.actors@[i as int], w2.now, w2.task_counter, nn));
                        assert forall|j: int| 0 <= j < nn implies actor_wf(
                            #[trigger] w2.actors@[j],
                            w2.now,
                            w2.task_counter,
                            nn,
                        ) by {
                            if j != i as int {
                                assert(w2.actors@[j] == w1.actors@[j]
                                    || transmit_effect(w1.actors@[j], w2.actors@[j], sig@, w1.now));
                                assert(actor_wf(w1.actors@[j], w1.now, w1.task_counter, nn));
                            }
                        }
                        assert(transmit_effect(
                            w1.actors@[i as int],
                            w2.actors@[i as int],
                            sig@,
                            w1.now,
                        ));
                    }
                },
                None => {
                    proof {
                        assert(transmit_effect(
                            old(self).actors@[i as int],
                            self.actors@[i as int],
                            sig@,
                            old(self).now,
                        ));
                    }
                },
            }
            i = i + 1;
        }
    }
}

impl Workspace {
    /// Create a fresh actor named `name` at the spawner's current
    /// position, bind the name in the global table (overwriting any prior
    /// binding), and return its handle.  The new actor inherits no
    /// listeners and nothing queued.
    fn do_spawn(&mut self, me: ActorHandle, name: &String)
        requires
            old(self).wf(),
            (me.idx as int) < old(self).actors@.len(),
        ensures
            final(self).wf(),
            spawn_effect(*old(self), me, *name, *final(self)),
    {
        let pos = match self.get_position(me) {
            Ok(p) => p,
            Err(_) => vstd::pervasive::unreached(),
        };
        let ghost mid = *self;
        let handle = ActorHandle { idx: self.actors.len() };
        self.actors.push(
            Actor {
                name: Name(name.clone()),
                created: Some(CreationDate(self.now)),
                trajectory: Some(Trajectory::Fixed { value: pos }),
                position: None,
                agenda: Agenda::empty(),
                liveness: None,
            },
        );
        proof {
            let w2 = *self;
            let n1 = mid.actors@.len() as int;
            let nn = w2.actors@.len() as int;
            assert forall|j: int| 0 <= j < nn implies actor_wf(
                #[trigger] w2.actors@[j],
                w2.now,
                w2.task_counter,
                nn,
            ) by {
                if j < n1 {
                    assert(actor_wf(mid.actors@[j], mid.now, mid.task_counter, n1));
                    assert(w2.actors@[j] == mid.actors@[j]);
                    let a = w2.actors@[j];
                    match a.agenda.next {
                        Some(t) => {
                            crate::task::lemma_fiber_wf_mono(*t.fiber, n1, nn);
                        },
                        None => {},
                    }
                    assert forall|x: int|
                        0 <= x < a.agenda.listening@.len() implies listener_wf(
                        #[trigger] a.agenda.listening@[x],
                        w2.task_counter,
                        nn,
                    ) by {
                        assert(listener_wf(a.agenda.listening@[x], mid.task_counter, n1));
                        crate::task::lemma_fiber_wf_mono(*a.agenda.listening@[x].1.fiber, n1, nn);
                    }
                }
            }
        }
        let ghost pre_globals = self.globals@;
        let kept = name.clone();
        assoc_set(&mut self.globals, kept, handle);
        proof {
            lemma_assoc_shape_is_put(pre_globals, self.globals@, kept, handle);
        }
    }

    /// Install a new trajectory on `me` from its state at the current
    /// instant: `Fixed` here if it is at rest and the new acceleration is
    /// zero, else `Linear` motion from here and now.  Fails with
    /// `CouldNotWrite` if the actor was never given a trajectory; the
    /// position read happens first either way, so it fills the cache even
    /// when the write then fails.
    fn do_set_accel(&mut self, me: ActorHandle, value: Vector) -> (r: Result<(), Error>)
        requires
            old(self).wf(),
            (me.idx as int) < old(self).actors@.len(),
        ensures
            final(self).wf(),
            match old(self).actors@[me.idx as int].trajectory {
                None => {
                    &&& r matches Err(e) && e@ == (AbsErr::CouldNotWrite {
                        component: "Trajectory"@,
                    })
                    &&& set_accel_missing(*old(self), me, *final(self))
                },
                Some(t0) => r is Ok && set_accel_effect(*old(self), me, value, *final(self)),
            },
    {
        let pos = match self.get_position(me) {
            Ok(p) => p,
            Err(_) => vstd::pervasive::unreached(),
        };
        let ghost mid = *self;
        let t0 = match &self.actors[me.idx].trajectory {
            Some(t) => *t,
            None => {
                return Err(Error::CouldNotWrite { component: "Trajectory" });
            },
        };
        let v0 = t0.velocity_at(self.now);
        let newtraj = if v0.is_zero() && value.is_zero() {
            Trajectory::Fixed { value: pos }
        } else {
            Trajectory::Linear {
                start_place: pos,
                start_time: self.now,
                start_velocity: v0,
                accel: value,
            }
        };
        let a = &mut self.actors[me.idx];
        a.trajectory = Some(newtraj);
        proof {
            let w2 = *self;
            let nn = w2.actors@.len() as int;
            lemma_sample_at_start(pos, w2.now, v0, value);
            assert(sample_spec(newtraj, w2.now) == pos);
            assert forall|j: int| 0 <= j < nn implies actor_wf(
                #[trigger] w2.actors@[j],
                w2.now,
                w2.task_counter,
                nn,
            ) by {
                assert(actor_wf(mid.actors@[j], mid.now, mid.task_counter, nn));
                if j != me.idx as int {
                    assert(w2.actors@[j] == mid.actors@[j]);
                } else {
                    assert(traj_or_default(w2.actors@[j]) == newtraj);
                }
            }
        }
        Ok(())
    }

    /// Park a fiber on `me`'s task slot under the given dispatch key,
    /// replacing whatever was queued there.  This is how `Wait` suspends:
    /// the key's eta must not lie in the past.
    fn park_task(&mut self, me: ActorHandle, token: SortToken, parked: Fiber)
        requires
            old(self).wf(),
            (me.idx as int) < old(self).actors@.len(),
            token.eta.at.raw >= old(self).now.at.raw,
            guid_ok(token.guid, old(self).task_counter),
            fiber_wf(parked, old(self).actors@.len() as int),
        ensures
            final(self).wf(),
            park_effect(*old(self), me, token, parked, *final(self)),
    {
        let ghost before = *self;
        let a = &mut self.actors[me.idx];
        a.agenda.next = Some(QueuedTask { token, fiber: Box::new(parked) });
        proof {
            let w2 = *self;
            let nn = w2.actors@.len() as int;
            assert forall|j: int| 0 <= j < nn implies actor_wf(
                #[trigger] w2.actors@[j],
                w2.now,
                w2.task_counter,
                nn,
            ) by {
                assert(actor_wf(before.actors@[j], before.now, before.task_counter, nn));
                if j != me.idx as int {
                    assert(w2.actors@[j] == before.actors@[j]);
                } else {
                    assert(w2.actors@[j].agenda.listening == before.actors@[j].agenda.listening);
                    assert(traj_or_default(w2.actors@[j]) == traj_or_default(before.actors@[j]));
                }
            }
        }
    }

    /// Record a listener on `me` for the signal, replacing any earlier
    /// listener for the same signal.  This is how `ListenFor` suspends:
    /// the fiber sleeps until a matching transmit re-queues it.
    fn park_listener(&mut self, me: ActorHandle, sig: Signal, waiting: Waiting)
        requires
            old(self).wf(),
            (me.idx as int) < old(self).actors@.len(),
            guid_ok(waiting.guid, old(self).task_counter),
            fiber_wf(*waiting.fiber, old(self).actors@.len() as int),
        ensures
            final(self).wf(),
            listen_effect(*old(self), me, sig, waiting, *final(self)),
    {
        let ghost before = *self;
        let a = &mut self.actors[me.idx];
        listen_insert(&mut a.agenda.listening, sig, waiting);
        proof {
            let w2 = *self;
            let nn = w2.actors@.len() as int;
            let l1 = before.actors@[me.idx as int].agenda.listening@;
            let l2 = w2.actors@[me.idx as int].agenda.listening@;
            assert(actor_wf(
                before.actors@[me.idx as int],
                before.now,
                before.task_counter,
                nn,
            ));
            assert forall|x: int, y: int|
                0 <= x < y < l2.len() implies (#[trigger] l2[x]).0@ != (#[trigger] l2[y]).0@ by {
                assert(0 <= x < l1.len() || l2 == l1.push((sig, waiting)));
            }
            assert forall|x: int|
                0 <= x < l2.len() implies listener_wf(#[trigger] l2[x], w2.task_counter, nn) by {
                if x < l1.len() && l2[x] != (sig, waiting) {
                    assert(listener_wf(l1[x], before.task_counter, nn));
                }
            }
            assert forall|j: int| 0 <= j < nn implies actor_wf(
                #[trigger] w2.actors@[j],
                w2.now,
                w2.task_counter,
                nn,
            ) by {
                assert(actor_wf(before.actors@[j], before.now, before.task_counter, nn));
                if j != me.idx as int {
                    assert(w2.actors@[j] == before.actors@[j]);
                } else {
                    assert(w2.actors@[j].agenda.next == before.actors@[j].agenda.next);
                    assert(traj_or_default(w2.actors@[j]) == traj_or_default(before.actors@[j]));
                }
            }
        }
    }

    /// Mark `me` dead.  No other side effects; the actor stays queryable.
    fn do_die(&mut self, me: ActorHandle)
        requires
            old(self).wf(),
            (me.idx as int) < old(self).actors@.len(),
        ensures
            final(self).wf(),
            die_effect(*old(self), me, *final(self)),
    {
        let a = &mut self.actors[me.idx];
        a.liveness = Some(Liveness::Dead);
        proof {
            let w1 = *old(self);
            let w2 = *self;
            let nn = w2.actors@.len() as int;
            assert forall|j: int| 0 <= j < nn implies actor_wf(
                #[trigger] w2.actors@[j],
                w2.now,
                w2.task_counter,
                nn,
            ) by {
                assert(actor_wf(w1.actors@[j], w1.now, w1.task_counter, nn));
                if j == me.idx as int {
                    assert(traj_or_default(w2.actors@[j]) == traj_or_default(w1.actors@[j]));
                }
            }
        }
    }
}

/// Record a listener for `sig` in a listener table: replace the entry for
/// the same signal, or append a new one.  Keys stay pairwise distinct.
#[verifier::loop_isolation(false)]
fn listen_insert(listening: &mut Vec<(Signal, Waiting)>, sig: Signal, w: Waiting)
    ensures
        ({
            ||| (exists|k: int|
                {
                    &&& 0 <= k < old(listening)@.len()
                    &&& (#[trigger] old(listening)@[k]).0@ == sig@
                    &&& final(listening)@ == old(listening)@.update(k, (sig, w))
                })
            ||| ((forall|j: int|
                0 <= j < old(listening)@.len() ==> (#[trigger] old(listening)@[j]).0@ != sig@)
                && final(listening)@ == old(listening)@.push((sig, w)))
        }),
{
    let n = listening.len();
    let mut i: usize = 0;
    while i < n
        invariant
            0 <= i <= n,
            *listening == *old(listening),
            forall|j: int| 0 <= j < i ==> (#[trigger] listening@[j]).0@ != sig@,
        decreases n - i,
    {
        if crate::action::signal_eq(&listening[i].0, &sig) {
            let slot = &mut listening[i];
            *slot = (sig, w);
            return ;
        }
        i = i + 1;
    }
    listening.push((sig, w));
}


/// The log grew by exactly these rendered lines, in order.
pub open spec fn log_appended(l1: Seq<String>, l2: Seq<String>, lines: Seq<Seq<char>>) -> bool {
    &&& l2.len() == l1.len() + lines.len()
    &&& (forall|j: int| 0 <= j < l1.len() ==> #[trigger] l2[j] == l1[j])
    &&& (forall|i: int| 0 <= i < lines.len() ==> (#[trigger] l2[l1.len() + i])@ == lines[i])
}

/// Only the log changed, by exactly these lines.
pub open spec fn log_step(w1: Workspace, w2: Workspace, lines: Seq<Seq<char>>) -> bool {
    &&& w2 == (Workspace { log: w2.log, ..w1 })
    &&& log_appended(w1.log@, w2.log@, lines)
}

/// A fresh guid was drawn: only the counter moved, pinning at the top
/// instead of wrapping.
pub open spec fn guid_step(w1: Workspace, w2: Workspace) -> bool {
    &&& w2 == (Workspace { task_counter: w2.task_counter, ..w1 })
    &&& (w1.task_counter < u64::MAX ==> w2.task_counter == w1.task_counter + 1)
    &&& (w1.task_counter == u64::MAX ==> w2.task_counter == u64::MAX)
}

/// The fiber has nothing left to execute: its stack is empty or the top
/// frame's program counter has run past its script.
pub open spec fn fiber_done(f: Fiber) -> bool {
    f.stack@.len() == 0 || f.stack@.last().pc >= f.stack@.last().script@.len()
}

/// `g` is `f` with the top frame's program counter advanced past the
/// action just fetched.
pub open spec fn advanced(f: Fiber, g: Fiber) -> bool {
    &&& f.stack@.len() > 0
    &&& g.me == f.me
    &&& g.stack@ == f.stack@.update(
        f.stack@.len() - 1,
        StackFrame { pc: (f.stack@.last().pc + 1) as usize, ..f.stack@.last() },
    )
}

/// A one-frame fiber about to run `script` on `me` with these locals.
pub open spec fn fresh_fiber(
    me: ActorHandle,
    script: Arc<Vec<Action>>,
    locals: Seq<(String, Value)>,
    f: Fiber,
) -> bool {
    &&& f.me == me
    &&& f.stack@.len() == 1
    &&& f.stack@[0].pc == 0
    &&& f.stack@[0].script == script
    &&& f.stack@[0].locals@ == locals
}

/// `g` is `f` with `name` bound to `v` in the top frame's locals.
pub open spec fn locals_written(f: Fiber, name: String, v: Value, g: Fiber) -> bool {
    &&& f.stack@.len() > 0
    &&& g.me == f.me
    &&& g.stack@ == f.stack@.update(
        f.stack@.len() - 1,
        StackFrame { locals: g.stack@.last().locals, ..f.stack@.last() },
    )
    &&& g.stack@.last().locals@ == assoc_put(f.stack@.last().locals@, name, v)
}

/// `g` is `f` with a frame for method `m` pushed, its parameters bound
/// in order to `vals`.
pub open spec fn frame_pushed(f: Fiber, m: Arc<Method>, vals: Seq<Value>, g: Fiber) -> bool {
    &&& g.me == f.me
    &&& g.stack@ == f.stack@.push(g.stack@.last())
    &&& g.stack@.last().pc == 0
    &&& g.stack@.last().script == m.script
    &&& g.stack@.last().locals@ == bound_params(m.params@, vals, m.params@.len() as int)
}

/// `g` is `f` with the top frame popped.
pub open spec fn frame_popped(f: Fiber, g: Fiber) -> bool {
    &&& f.stack@.len() > 0
    &&& g.me == f.me
    &&& g.stack@ == f.stack@.drop_last()
}

/// The index of the first binding of `name`, or -1 if there is none.
pub open spec fn assoc_key_index<V>(s: Seq<(String, V)>, name: Seq<char>) -> int
    decreases s.len(),
{
    if s.len() == 0 {
        -1
    } else if s[0].0@ == name {
        0
    } else {
        let r = assoc_key_index(s.drop_first(), name);
        if r == -1 {
            -1
        } else {
            r + 1
        }
    }
}

/// Bind `name` to `v` in an association list: replace its first binding
/// or append a new one.
pub open spec fn assoc_put<V>(s: Seq<(String, V)>, name: String, v: V) -> Seq<(String, V)> {
    let k = assoc_key_index(s, name@);
    if k == -1 {
        s.push((name, v))
    } else {
        s.update(k, (name, v))
    }
}

/// `assoc_key_index` finds exactly the first match.
pub proof fn lemma_assoc_key_index_char<V>(s: Seq<(String, V)>, name: Seq<char>)
    ensures
        ({
            let k = assoc_key_index(s, name);
            &&& (k == -1 ==> forall|j: int| 0 <= j < s.len() ==> (#[trigger] s[j]).0@ != name)
            &&& (k != -1 ==> 0 <= k < s.len() && s[k].0@ == name && (forall|j: int|
                0 <= j < k ==> (#[trigger] s[j]).0@ != name))
        }),
    decreases s.len(),
{
    if s.len() > 0 && s[0].0@ != name {
        lemma_assoc_key_index_char(s.drop_first(), name);
        let r = assoc_key_index(s.drop_first(), name);
        assert forall|j: int| 1 <= j < s.len() implies s.drop_first()[j - 1] == s[j] by {}
    }
}

/// The update-or-append shape `assoc_set` establishes determines the new
/// list: it is exactly `assoc_put`.
pub proof fn lemma_assoc_shape_is_put<V>(
    s1: Seq<(String, V)>,
    s2: Seq<(String, V)>,
    name: String,
    v: V,
)
    requires
        assoc_set_shape(s1, s2, name@, name, v),
    ensures
        s2 == assoc_put(s1, name, v),
{
    lemma_assoc_key_index_char(s1, name@);
    let k = assoc_key_index(s1, name@);
    if exists|k0: int|
        0 <= k0 < s1.len() && (#[trigger] s1[k0]).0@ == name@ && (forall|j: int|
            0 <= j < k0 ==> (#[trigger] s1[j]).0@ != name@) && s2 == s1.update(k0, (name, v)) {
        let k0 = choose|k0: int|
            0 <= k0 < s1.len() && (#[trigger] s1[k0]).0@ == name@ && (forall|j: int|
                0 <= j < k0 ==> (#[trigger] s1[j]).0@ != name@) && s2 == s1.update(k0, (name, v));
        assert(k == k0);
    }
}

/// The fold binding each of the first `i` parameters, in order, to its
/// value; later bindings of a repeated name win.
pub open spec fn bound_params(params: Seq<String>, vals: Seq<Value>, i: int) -> Seq<
    (String, Value),
>
    decreases i,
{
    if i <= 0 {
        Seq::empty()
    } else {
        assoc_put(bound_params(params, vals, i - 1), params[i - 1], vals[i - 1])
    }
}

/// Each argument expression evaluates successfully to the corresponding
/// value.
pub open spec fn args_eval_to(
    w: Workspace,
    me: ActorHandle,
    locals: Seq<(String, Value)>,
    args: Seq<Expr>,
    vals: Seq<Value>,
) -> bool {
    &&& vals.len() == args.len()
    &&& forall|i: int|
        0 <= i < args.len() ==> eval_spec(w, me, locals, #[trigger] args[i]) == Ok::<
            AbsValue,
            AbsErr,
        >(crate::action::value_view(vals[i]))
}

/// Some argument fails to evaluate, raising exactly this error.
pub open spec fn args_eval_err(
    w: Workspace,
    me: ActorHandle,
    locals: Seq<(String, Value)>,
    args: Seq<Expr>,
    e: Error,
) -> bool {
    exists|i: int|
        0 <= i < args.len() && eval_spec(w, me, locals, #[trigger] args[i]) == Err::<
            AbsValue,
            AbsErr,
        >(e@)
}

/// The abstract signal a head and evaluated arguments denote.
pub open spec fn signal_denotes(
    w: Workspace,
    me: ActorHandle,
    locals: Seq<(String, Value)>,
    head: Seq<char>,
    args: Seq<Expr>,
    sig: crate::action::AbsSignal,
) -> bool {
    &&& sig.head == head
    &&& sig.body.len() == args.len()
    &&& forall|i: int|
        0 <= i < args.len() ==> eval_spec(w, me, locals, #[trigger] args[i]) == Ok::<
            AbsValue,
            AbsErr,
        >(sig.body[i])
}

/// What `Spawn` does: the spawner's position is read (and so cached), a
/// fresh actor appears at rest at that position, and the name is bound
/// to its handle in the global table, overwriting any prior binding.
pub open spec fn spawn_effect(w1: Workspace, me: ActorHandle, name: String, w2: Workspace) -> bool {
    &&& (me.idx as int) < w1.actors@.len()
    &&& w2 == (Workspace { actors: w2.actors, globals: w2.globals, ..w1 })
    &&& w2.actors@.len() == w1.actors@.len() + 1
    &&& (forall|j: int|
        0 <= j < w1.actors@.len() && j != me.idx ==> #[trigger] w2.actors@[j] == w1.actors@[j])
    &&& w2.actors@[me.idx as int] == (Actor {
        position: Some(spec_position_of(w1, me.idx as int)),
        ..w1.actors@[me.idx as int]
    })
    &&& ({
        let neu = w2.actors@[w1.actors@.len() as int];
        &&& neu.name.0@ == name@
        &&& neu.created == Some(CreationDate(w1.now))
        &&& neu.trajectory == Some(
            Trajectory::Fixed { value: spec_position_of(w1, me.idx as int) },
        )
        &&& neu.position is None
        &&& neu.agenda.next is None
        &&& neu.agenda.listening@.len() == 0
        &&& neu.liveness is None
    })
    &&& w2.globals@ == assoc_put(
        w1.globals@,
        name,
        ActorHandle { idx: w1.actors@.len() as usize },
    )
}

/// What a successful `SetAccel` does: the current position is read (and
/// cached) and the trajectory `set_accel_traj` describes is installed.
pub open spec fn set_accel_effect(w1: Workspace, me: ActorHandle, value: Vector, w2: Workspace) -> bool {
    &&& (me.idx as int) < w1.actors@.len()
    &&& w1.actors@[me.idx as int].trajectory is Some
    &&& w2 == (Workspace { actors: w2.actors, ..w1 })
    &&& w2.actors@.len() == w1.actors@.len()
    &&& (forall|j: int|
        0 <= j < w1.actors@.len() && j != me.idx ==> #[trigger] w2.actors@[j] == w1.actors@[j])
    &&& w2.actors@[me.idx as int] == (Actor {
        position: Some(spec_position_of(w1, me.idx as int)),
        trajectory: Some(
            set_accel_traj(
                w1.actors@[me.idx as int].trajectory->Some_0,
                spec_position_of(w1, me.idx as int),
                w1.now,
                value,
            ),
        ),
        ..w1.actors@[me.idx as int]
    })
}

/// `SetAccel` on an actor never given a trajectory: the position is
/// still read and cached, then the write fails.
pub open spec fn set_accel_missing(w1: Workspace, me: ActorHandle, w2: Workspace) -> bool {
    &&& (me.idx as int) < w1.actors@.len()
    &&& w1.actors@[me.idx as int].trajectory is None
    &&& w2 == (Workspace { actors: w2.actors, ..w1 })
    &&& w2.actors@.len() == w1.actors@.len()
    &&& (forall|j: int|
        0 <= j < w1.actors@.len() && j != me.idx ==> #[trigger] w2.actors@[j] == w1.actors@[j])
    &&& w2.actors@[me.idx as int] == (Actor {
        position: Some(spec_position_of(w1, me.idx as int)),
        ..w1.actors@[me.idx as int]
    })
}

/// What `Wait` does to the world: the fiber is parked on `me`'s task
/// slot under `token`, replacing whatever was queued.
pub open spec fn park_effect(
    w1: Workspace,
    me: ActorHandle,
    token: SortToken,
    parked: Fiber,
    w2: Workspace,
) -> bool {
    &&& (me.idx as int) < w1.actors@.len()
    &&& w2 == (Workspace { actors: w2.actors, ..w1 })
    &&& w2.actors@.len() == w1.actors@.len()
    &&& (forall|j: int|
        0 <= j < w1.actors@.len() && j != me.idx ==> #[trigger] w2.actors@[j] == w1.actors@[j])
    &&& w2.actors@[me.idx as int] == (Actor {
        agenda: w2.actors@[me.idx as int].agenda,
        ..w1.actors@[me.idx as int]
    })
    &&& w2.actors@[me.idx as int].agenda.next == Some(
        QueuedTask { token, fiber: Box::new(parked) },
    )
    &&& w2.actors@[me.idx as int].agenda.listening == w1.actors@[me.idx as int].agenda.listening
}

/// What `ListenFor` does to the world: the listener entry is recorded on
/// `me`, replacing any earlier listener for the same signal.
pub open spec fn listen_effect(
    w1: Workspace,
    me: ActorHandle,
    sig: Signal,
    waiting: Waiting,
    w2: Workspace,
) -> bool {
    &&& (me.idx as int) < w1.actors@.len()
    &&& w2 == (Workspace { actors: w2.actors, ..w1 })
    &&& w2.actors@.len() == w1.actors@.len()
    &&& (forall|j: int|
        0 <= j < w1.actors@.len() && j != me.idx ==> #[trigger] w2.actors@[j] == w1.actors@[j])
    &&& w2.actors@[me.idx as int] == (Actor {
        agenda: w2.actors@[me.idx as int].agenda,
        ..w1.actors@[me.idx as int]
    })
    &&& w2.actors@[me.idx as int].agenda.next == w1.actors@[me.idx as int].agenda.next
    &&& ({
        let l1 = w1.actors@[me.idx as int].agenda.listening@;
        let l2 = w2.actors@[me.idx as int].agenda.listening@;
        ||| (exists|k: int|
            {
                &&& 0 <= k < l1.len()
                &&& (#[trigger] l1[k]).0@ == sig@
                &&& l2 == l1.update(k, (sig, waiting))
            })
        ||| ((forall|j: int| 0 <= j < l1.len() ==> (#[trigger] l1[j]).0@ != sig@) && l2 == l1.push(
            (sig, waiting),
        ))
    })
}

/// What `Die` does to the world: the one liveness mark, nothing else.
pub open spec fn die_effect(w1: Workspace, me: ActorHandle, w2: Workspace) -> bool {
    &&& (me.idx as int) < w1.actors@.len()
    &&& w2 == (Workspace { actors: w2.actors, ..w1 })
    &&& w2.actors@ == w1.actors@.update(
        me.idx as int,
        Actor { liveness: Some(Liveness::Dead), ..w1.actors@[me.idx as int] },
    )
}

/// What `Transmit` does to the world: every actor undergoes
/// `transmit_effect` for the signal, at the current instant.
pub open spec fn transmit_world(w1: Workspace, sig: crate::action::AbsSignal, w2: Workspace) -> bool {
    &&& w2 == (Workspace { actors: w2.actors, ..w1 })
    &&& w2.actors@.len() == w1.actors@.len()
    &&& forall|i: int|
        0 <= i < w1.actors@.len() ==> transmit_effect(
            #[trigger] w1.actors@[i],
            w2.actors@[i],
            sig,
            w1.now,
        )
}


/// One step of the dispatch loop on a configuration `(world, fiber
/// stack)`: a finished top fiber is discarded; otherwise the next action
/// of its top frame is fetched, logged, and acts on the world and the
/// stack as the action table says.  `Wait` and `ListenFor` suspend the
/// fiber (it leaves the stack for an agenda); `AsActor` stacks a nested
/// fiber to run first; `Halt` stops the world and ends the fiber.
pub open spec fn step_ok(w1: Workspace, fs1: Seq<Fiber>, w2: Workspace, fs2: Seq<Fiber>) -> bool {
    &&& fs1.len() > 0
    &&& ({
        let f = fs1.last();
        let rest = fs1.drop_last();
        if fiber_done(f) {
            w2 == w1 && fs2 == rest
        } else {
            let fr = f.stack@.last();
            let a = fr.script@[fr.pc as int];
            let locals = fr.locals@;
            let line = crate::pretty_print::line_chars(w1.now, a);
            exists|fadv: Fiber|
                #[trigger] advanced(f, fadv) && match a {
                    Action::Halt => {
                        &&& halt_step(w1, w2)
                        &&& fs2 == rest
                    },
                    Action::Trace { expr } => {
                        &&& fs2 == rest.push(fadv)
                        &&& exists|v: Value|
                            #![trigger crate::action::value_view(v)]
                            {
                                &&& eval_spec(w1, f.me, locals, *expr) == Ok::<AbsValue, AbsErr>(
                                    crate::action::value_view(v),
                                )
                                &&& exists|wm: Workspace|
                                    #[trigger] log_step(w1, wm, seq![line]) && exists|wc: Workspace|
                                        #[trigger] same_but_cache(wm, wc) && log_step(
                                            wc,
                                            w2,
                                            seq![crate::pretty_print::trace_chars(*expr, v)],
                                        )
                            }
                    },
                    Action::Spawn { name } => {
                        &&& fs2 == rest.push(fadv)
                        &&& exists|wm: Workspace|
                            #[trigger] log_step(w1, wm, seq![line]) && spawn_effect(
                                wm,
                                f.me,
                                name,
                                w2,
                            )
                    },
                    Action::AsActor { name, script } => {
                        &&& log_step(w1, w2, seq![line])
                        &&& match assoc_find(w1.globals@, name@) {
                            Some(h) => exists|nested: Fiber|
                                #[trigger] fresh_fiber(h, script, locals, nested) && fs2
                                    == rest.push(fadv).push(nested),
                            None => false,
                        }
                    },
                    Action::SetAccel { value } => {
                        &&& fs2 == rest.push(fadv)
                        &&& exists|wm: Workspace|
                            #[trigger] log_step(w1, wm, seq![line]) && set_accel_effect(
                                wm,
                                f.me,
                                value,
                                w2,
                            )
                    },
                    Action::Wait { interval } => {
                        &&& fs2 == rest
                        &&& exists|wm1: Workspace|
                            #[trigger] log_step(w1, wm1, seq![line]) && exists|wm2: Workspace|
                                #[trigger] guid_step(wm1, wm2) && park_effect(
                                    wm2,
                                    f.me,
                                    SortToken {
                                        eta: Instant {
                                            at: Scalar {
                                                raw: sat64(
                                                    w1.now.at.raw + interval.length.raw,
                                                ) as i64,
                                            },
                                        },
                                        guid: wm1.task_counter,
                                    },
                                    fadv,
                                    w2,
                                )
                    },
                    Action::ListenFor { head, args } => {
                        &&& fs2 == rest
                        &&& exists|wm1: Workspace|
                            #[trigger] log_step(w1, wm1, seq![line]) && exists|wm2: Workspace|
                                #[trigger] guid_step(wm1, wm2) && exists|wm3: Workspace|
                                    #[trigger] same_but_cache(wm2, wm3) && exists|
                                        sig: Signal,
                                        wtg: Waiting,
                                    |
                                        {
                                            &&& #[trigger] listen_effect(wm3, f.me, sig, wtg, w2)
                                            &&& signal_denotes(
                                                w1,
                                                f.me,
                                                locals,
                                                head@,
                                                args@,
                                                sig@,
                                            )
                                            &&& wtg.guid == wm1.task_counter
                                            &&& *wtg.fiber == fadv
                                        }
                    },
                    Action::Transmit { head, args } => {
                        &&& fs2 == rest.push(fadv)
                        &&& exists|wm1: Workspace|
                            #[trigger] log_step(w1, wm1, seq![line]) && exists|wm2: Workspace|
                                #[trigger] same_but_cache(wm1, wm2) && exists|
                                    sig: crate::action::AbsSignal,
                                |
                                    #[trigger] transmit_world(wm2, sig, w2) && signal_denotes(
                                        w1,
                                        f.me,
                                        locals,
                                        head@,
                                        args@,
                                        sig,
                                    )
                    },
                    Action::Die => {
                        &&& fs2 == rest.push(fadv)
                        &&& exists|wm: Workspace|
                            #[trigger] log_step(w1, wm, seq![line]) && die_effect(wm, f.me, w2)
                    },
                    Action::WriteLocal { name, value } => {
                        &&& exists|wm: Workspace|
                            #[trigger] log_step(w1, wm, seq![line]) && same_but_cache(wm, w2)
                        &&& exists|v: Value|
                            #![trigger crate::action::value_view(v)]
                            {
                                &&& eval_spec(w1, f.me, locals, *value) == Ok::<AbsValue, AbsErr>(
                                    crate::action::value_view(v),
                                )
                                &&& exists|g: Fiber|
                                    #[trigger] locals_written(fadv, name, v, g) && fs2
                                        == rest.push(g)
                            }
                    },
                    Action::DefGlobalMethod { name, body } => {
                        &&& fs2 == rest.push(fadv)
                        &&& exists|wm: Workspace|
                            #[trigger] log_step(w1, wm, seq![line])
                                && w2 == (Workspace { methods: w2.methods, ..wm })
                                && w2.methods@ == assoc_put(wm.methods@, name, body)
                    },
                    Action::Call { name, args } => {
                        match assoc_find(w1.methods@, name@) {
                            Some(m) => {
                                &&& m.params@.len() == args@.len()
                                &&& exists|wm: Workspace|
                                    #[trigger] log_step(w1, wm, seq![line]) && same_but_cache(
                                        wm,
                                        w2,
                                    )
                                &&& exists|vals: Seq<Value>|
                                    #[trigger] args_eval_to(w1, f.me, locals, args@, vals)
                                        && exists|g: Fiber|
                                        #[trigger] frame_pushed(fadv, m, vals, g) && fs2
                                            == rest.push(g)
                            },
                            None => false,
                        }
                    },
                    Action::Return => {
                        &&& log_step(w1, w2, seq![line])
                        &&& exists|g: Fiber|
                            #[trigger] frame_popped(fadv, g) && fs2 == rest.push(g)
                    },
                }
        }
    })
}

/// The next fetched action fails: exactly the named lookup or arity
/// error is raised, after the action line was logged (and after any
/// position caching or guid draw the action performed first).
pub open spec fn step_err(w1: Workspace, fs1: Seq<Fiber>, w2: Workspace, e: Error) -> bool {
    &&& fs1.len() > 0
    &&& !fiber_done(fs1.last())
    &&& ({
        let f = fs1.last();
        let fr = f.stack@.last();
        let a = fr.script@[fr.pc as int];
        let locals = fr.locals@;
        let line = crate::pretty_print::line_chars(w1.now, a);
        match a {
            Action::Trace { expr } => {
                &&& eval_spec(w1, f.me, locals, *expr) == Err::<AbsValue, AbsErr>(e@)
                &&& exists|wm: Workspace|
                    #[trigger] log_step(w1, wm, seq![line]) && same_but_cache(wm, w2)
            },
            Action::WriteLocal { name, value } => {
                &&& eval_spec(w1, f.me, locals, *value) == Err::<AbsValue, AbsErr>(e@)
                &&& exists|wm: Workspace|
                    #[trigger] log_step(w1, wm, seq![line]) && same_but_cache(wm, w2)
            },
            Action::AsActor { name, script } => {
                &&& assoc_find(w1.globals@, name@) is None
                &&& e@ == (AbsErr::NoSuchGlobal { name: name@ })
                &&& log_step(w1, w2, seq![line])
            },
            Action::SetAccel { value } => {
                &&& e@ == (AbsErr::CouldNotWrite { component: "Trajectory"@ })
                &&& exists|wm: Workspace|
                    #[trigger] log_step(w1, wm, seq![line]) && set_accel_missing(wm, f.me, w2)
            },
            Action::ListenFor { head, args } => {
                &&& args_eval_err(w1, f.me, locals, args@, e)
                &&& exists|wm1: Workspace|
                    #[trigger] log_step(w1, wm1, seq![line]) && exists|wm2: Workspace|
                        #[trigger] guid_step(wm1, wm2) && same_but_cache(wm2, w2)
            },
            Action::Transmit { head, args } => {
                &&& args_eval_err(w1, f.me, locals, args@, e)
                &&& exists|wm: Workspace|
                    #[trigger] log_step(w1, wm, seq![line]) && same_but_cache(wm, w2)
            },
            Action::Call { name, args } => {
                match assoc_find(w1.methods@, name@) {
                    None => {
                        &&& e@ == (AbsErr::NoSuchMethod { name: name@ })
                        &&& log_step(w1, w2, seq![line])
                    },
                    Some(m) => {
                        ||| ({
                            &&& m.params@.len() != args@.len()
                            &&& e@ == (AbsErr::ArgListMismatch {
                                name: name@,
                                wanted: m.params@.len() as int,
                                got: args@.len() as int,
                            })
                            &&& log_step(w1, w2, seq![line])
                        })
                        ||| ({
                            &&& m.params@.len() == args@.len()
                            &&& args_eval_err(w1, f.me, locals, args@, e)
                            &&& exists|wm: Workspace|
                                #[trigger] log_step(w1, wm, seq![line]) && same_but_cache(wm, w2)
                        })
                    },
                }
            },
            _ => false,
        }
    })
}

/// The configuration `(w2, fs2)` is reachable from `(w1, fs1)` in
/// exactly `n` dispatch steps.
pub open spec fn reaches(
    w1: Workspace,
    fs1: Seq<Fiber>,
    w2: Workspace,
    fs2: Seq<Fiber>,
    n: nat,
) -> bool
    decreases n,
{
    if n == 0 {
        w2 == w1 && fs2 == fs1
    } else {
        exists|wm: Workspace, fsm: Seq<Fiber>|
            #[trigger] step_ok(wm, fsm, w2, fs2) && reaches(w1, fs1, wm, fsm, (n - 1) as nat)
    }
}

/// Worlds that agree on evaluation inputs evaluate every expression of a
/// list alike.
pub proof fn lemma_eval_spec_agrees_all(
    w1: Workspace,
    w2: Workspace,
    me: ActorHandle,
    locals: Seq<(String, Value)>,
    es: Seq<Expr>,
)
    requires
        eval_inputs_agree(w1, w2),
    ensures
        forall|i: int|
            0 <= i < es.len() ==> eval_spec(w1, me, locals, #[trigger] es[i]) == eval_spec(
                w2,
                me,
                locals,
                es[i],
            ),
{
    assert forall|i: int|
        0 <= i < es.len() implies eval_spec(w1, me, locals, #[trigger] es[i]) == eval_spec(
        w2,
        me,
        locals,
        es[i],
    ) by {
        lemma_eval_spec_agrees(w1, w2, me, locals, &es[i]);
    }
}

/// The interpreter's step budget.  Formally finite so that every run
/// provably ends; far beyond anything a terminating script can use.
pub const STEP_LIMIT: u64 = u64::MAX;

/// The world after a `Halt` ran: stopped, exactly the rendered `halt`
/// line appended to the log, otherwise untouched.
pub open spec fn halt_step(w1: Workspace, w2: Workspace) -> bool {
    &&& w2 == (Workspace { has_halted: true, log: w2.log, ..w1 })
    &&& w2.log@.len() == w1.log@.len() + 1
    &&& forall|j: int| 0 <= j < w1.log@.len() ==> #[trigger] w2.log@[j] == w1.log@[j]
    &&& w2.log@[w1.log@.len() as int]@ == crate::pretty_print::line_chars(w1.now, Action::Halt)
}

/// Copy a locals table (the values share their spines, so the copy binds
/// the same values).
fn clone_locals(v: &Vec<(String, Value)>) -> (r: Vec<(String, Value)>)
    ensures
        r@ == v@,
{
    let mut r: Vec<(String, Value)> = Vec::new();
    let n = v.len();
    let mut i: usize = 0;
    while i < n
        invariant
            0 <= i <= n,
            n == v@.len(),
            r@.len() == i,
            forall|j: int| 0 <= j < i ==> r@[j] == v@[j],
        decreases n - i,
    {
        r.push((v[i].0.clone(), v[i].1.clone()));
        i = i + 1;
    }
    proof {
        assert(r@ =~= v@);
    }
    r
}

impl Workspace {
    /// Run a fiber — and every fiber it nests through `AsActor` — until
    /// each has completed, suspended, failed, or halted the world.  The
    /// result and the final world are exactly what the dispatch-step
    /// relation says: on success some number of [`step_ok`] steps empties
    /// the fiber stack; on failure the steps lead to a configuration
    /// whose next action raises the returned error ([`step_err`]), save
    /// for the astronomically remote step-budget stop.  The clock never
    /// moves during a run; a run can only add actors and draw guids.
    #[verifier::loop_isolation(false)]
    #[verifier::rlimit(100)]
    fn run(&mut self, fiber: Fiber) -> (r: Result<(), Error>)
        requires
            old(self).wf(),
            fiber_wf(fiber, old(self).actors@.len() as int),
        ensures
            final(self).wf(),
            final(self).now == old(self).now,
            final(self).supervisor == old(self).supervisor,
            final(self).task_counter >= old(self).task_counter,
            final(self).actors@.len() >= old(self).actors@.len(),
            log_extends(old(self).log@, final(self).log@),
            r is Ok ==> exists|n: nat|
                #[trigger] reaches(
                    *old(self),
                    seq![fiber],
                    *final(self),
                    Seq::<Fiber>::empty(),
                    n,
                ),
            r matches Err(e) ==> {
                ||| (e is StepLimit && exists|n: nat, fsm: Seq<Fiber>|
                    #[trigger] reaches(*old(self), seq![fiber], *final(self), fsm, n))
                ||| exists|n: nat, wm: Workspace, fsm: Seq<Fiber>|
                    #[trigger] reaches(*old(self), seq![fiber], wm, fsm, n) && step_err(
                        wm,
                        fsm,
                        *final(self),
                        e,
                    )
            },
            (fiber.stack@.len() == 1 && fiber.stack@[0].pc >= fiber.stack@[0].script@.len()) ==> (
            *final(self) == *old(self) && r is Ok),
            (fiber.stack@.len() == 1 && fiber.stack@[0].pc == 0 && fiber.stack@[0].script@
                == seq![Action::Halt]) ==> (r is Ok && halt_step(*old(self), *final(self))),
    {
        let ghost empty_start = fiber.stack@.len() == 1 && fiber.stack@[0].pc
            >= fiber.stack@[0].script@.len();
        let ghost halt_start = fiber.stack@.len() == 1 && fiber.stack@[0].pc == 0
            && fiber.stack@[0].script@ == seq![Action::Halt];
        let ghost fiber0 = fiber;
        let mut fibers: Vec<Fiber> = Vec::new();
        fibers.push(fiber);
        let mut fuel: u64 = STEP_LIMIT;
        proof {
            assert(fibers@ =~= seq![fiber0]);
            assert(reaches(*old(self), seq![fiber0], *self, fibers@, 0));
        }
        while fibers.len() > 0
            invariant
                self.wf(),
                self.now == old(self).now,
                self.supervisor == old(self).supervisor,
                self.task_counter >= old(self).task_counter,
                self.actors@.len() >= old(self).actors@.len(),
                log_extends(old(self).log@, self.log@),
                forall|i: int|
                    0 <= i < fibers@.len() ==> fiber_wf(
                        #[trigger] fibers@[i],
                        self.actors@.len() as int,
                    ),
                exists|n: nat| #[trigger] reaches(*old(self), seq![fiber0], *self, fibers@, n),
                empty_start ==> (*self == *old(self) && ((fibers@ == seq![fiber0] && fuel
                    == STEP_LIMIT) || fibers@.len() == 0)),
                halt_start ==> {
                    ||| (fibers@ == seq![fiber0] && *self == *old(self) && fuel == STEP_LIMIT)
                    ||| (fibers@.len() == 0 && halt_step(*old(self), *self))
                },
            decreases fuel,
        {
            if fuel == 0 {
                return Err(Error::StepLimit);
            }
            fuel = fuel - 1;
            let ghost w_pre = *self;
            let ghost fs_pre = fibers@;
            let last = fibers.len() - 1;
            let me = fibers[last].me;
            let action_opt = {
                let f = &mut fibers[last];
                f.fetch()
            };
            match action_opt {
                None => {
                    proof {
                        assert(fibers@ =~= fs_pre);
                    }
                    fibers.pop();
                    proof {
                        assert(fibers@ =~= fs_pre.drop_last());
                        assert(step_ok(w_pre, fs_pre, *self, fibers@));
                    }
                },
                Some(action) => {
                    let ghost fadv = fibers@[last as int];
                    proof {
                        assert(!empty_start);
                        let top = fs_pre[last as int];
                        assert(fiber_wf(top, self.actors@.len() as int));
                        assert(crate::task::frame_wf(
                            top.stack@[top.stack@.len() - 1],
                            self.actors@.len() as int,
                        ));
                        assert(crate::action::action_wf(action));
                        assert(fiber_wf(fibers@[last as int], self.actors@.len() as int));
                        assert(advanced(fs_pre.last(), fadv));
                        assert(fadv.stack@.last().locals@ == fs_pre.last().stack@.last().locals@);
                        assert(fibers@ =~= fs_pre.drop_last().push(fadv));
                    }
                    let ghost locals = fs_pre.last().stack@.last().locals@;
                    let line = crate::pretty_print::render_event(self.now, &action);
                    let ghost lchars = line@;
                    self.log.push(line);
                    let ghost wm1 = *self;
                    proof {
                        assert(log_appended(w_pre.log@, wm1.log@, seq![lchars]));
                        assert(log_step(w_pre, wm1, seq![lchars]));
                        assert(eval_inputs_agree(w_pre, wm1));
                    }
                    match action {
                        Action::Halt => {
                            // the dispatch loop exits when the fiber
                            // executes Halt: nothing after it runs
                            self.has_halted = true;
                            fibers.pop();
                            proof {
                                assert(halt_step(w_pre, *self));
                                assert(fibers@ =~= fs_pre.drop_last());
                                assert(step_ok(w_pre, fs_pre, *self, fibers@));
                            }
                        },
                        Action::Trace { expr } => {
                            let v = match self.eval_expr(&fibers[last], &expr) {
                                Ok(v) => v,
                                Err(e) => {
                                    proof {
                                        lemma_eval_spec_agrees(w_pre, wm1, me, locals, &expr);
                                        assert(step_err(w_pre, fs_pre, *self, e));
                                        let n0 = choose|n: nat|
                                            reaches(*old(self), seq![fiber0], w_pre, fs_pre, n);
                                        assert(reaches(
                                            *old(self),
                                            seq![fiber0],
                                            w_pre,
                                            fs_pre,
                                            n0,
                                        ));
                                    }
                                    return Err(e);
                                },
                            };
                            let ghost wc = *self;
                            let tline = crate::pretty_print::render_trace(&expr, &v);
                            let ghost tchars = tline@;
                            self.log.push(tline);
                            proof {
                                lemma_eval_spec_agrees(w_pre, wm1, me, locals, &expr);
                                assert(log_appended(wc.log@, self.log@, seq![tchars]));
                                assert(log_step(wc, *self, seq![tchars]));
                                assert(step_ok(w_pre, fs_pre, *self, fibers@));
                            }
                        },
                        Action::Spawn { name } => {
                            self.do_spawn(me, &name);
                            proof {
                                let nn = self.actors@.len() as int;
                                assert forall|i: int| 0 <= i < fibers@.len() implies fiber_wf(
                                    #[trigger] fibers@[i],
                                    nn,
                                ) by {
                                    crate::task::lemma_fiber_wf_mono(fibers@[i], nn - 1, nn);
                                }
                                assert(spawn_effect(wm1, me, name, *self));
                                assert(step_ok(w_pre, fs_pre, *self, fibers@));
                            }
                        },
                        Action::AsActor { name, script } => {
                            let h = match assoc_get_handle(&self.globals, &name) {
                                Some(h) => h,
                                None => {
                                    let err = Error::NoSuchGlobal { name };
                                    proof {
                                        assert(step_err(w_pre, fs_pre, *self, err));
                                        let n0 = choose|n: nat|
                                            reaches(*old(self), seq![fiber0], w_pre, fs_pre, n);
                                        assert(reaches(
                                            *old(self),
                                            seq![fiber0],
                                            w_pre,
                                            fs_pre,
                                            n0,
                                        ));
                                    }
                                    return Err(err);
                                },
                            };
                            proof {
                                lemma_assoc_find_member(self.globals@, name@);
                            }
                            let locals_copy = {
                                let frame = match fibers[last].frame() {
                                    Some(f) => f,
                                    None => vstd::pervasive::unreached(),
                                };
                                clone_locals(&frame.locals)
                            };
                            let mut nested = Fiber::new(h, script.clone());
                            let fr = nested.frame_mut();
                            fr.locals = locals_copy;
                            let ghost gnested = nested;
                            fibers.push(nested);
                            proof {
                                assert(fresh_fiber(h, script, locals, gnested));
                                assert(fibers@ =~= fs_pre.drop_last().push(fadv).push(gnested));
                                assert(step_ok(w_pre, fs_pre, *self, fibers@));
                            }
                        },
                        Action::SetAccel { value } => {
                            match self.do_set_accel(me, value) {
                                Ok(_) => {
                                    proof {
                                        assert(set_accel_effect(wm1, me, value, *self));
                                        assert(step_ok(w_pre, fs_pre, *self, fibers@));
                                    }
                                },
                                Err(e) => {
                                    proof {
                                        assert(step_err(w_pre, fs_pre, *self, e));
                                        let n0 = choose|n: nat|
                                            reaches(*old(self), seq![fiber0], w_pre, fs_pre, n);
                                        assert(reaches(
                                            *old(self),
                                            seq![fiber0],
                                            w_pre,
                                            fs_pre,
                                            n0,
                                        ));
                                    }
                                    return Err(e);
                                },
                            }
                        },
                        Action::Wait { interval } => {
                            let guid = self.make_guid();
                            let ghost wm2 = *self;
                            let eta = self.now.plus(interval);
                            let token = SortToken { eta, guid };
                            let parked = match fibers.pop() {
                                Some(f) => f,
                                None => vstd::pervasive::unreached(),
                            };
                            proof {
                                assert(guid_step(wm1, wm2));
                                assert(parked == fadv);
                                assert(token == (SortToken {
                                    eta: Instant {
                                        at: Scalar {
                                            raw: sat64(
                                                w_pre.now.at.raw + interval.length.raw,
                                            ) as i64,
                                        },
                                    },
                                    guid: wm1.task_counter,
                                }));
                            }
                            self.park_task(me, token, parked);
                            proof {
                                assert(fibers@ =~= fs_pre.drop_last());
                                assert(step_ok(w_pre, fs_pre, *self, fibers@));
                            }
                        },
                        Action::ListenFor { head, args } => {
                            let guid = self.make_guid();
                            let ghost wm2 = *self;
                            let body = match self.eval_args(&fibers[last], &args) {
                                Ok(b) => b,
                                Err(e) => {
                                    proof {
                                        assert(guid_step(wm1, wm2));
                                        assert(eval_inputs_agree(w_pre, wm2));
                                        lemma_eval_spec_agrees_all(w_pre, wm2, me, locals, args@);
                                        assert(step_err(w_pre, fs_pre, *self, e));
                                        let n0 = choose|n: nat|
                                            reaches(*old(self), seq![fiber0], w_pre, fs_pre, n);
                                        assert(reaches(
                                            *old(self),
                                            seq![fiber0],
                                            w_pre,
                                            fs_pre,
                                            n0,
                                        ));
                                    }
                                    return Err(e);
                                },
                            };
                            let ghost wm3 = *self;
                            let ghost gbody = body@;
                            let signal = Signal { head, body: Arc::new(body) };
                            let parked = match fibers.pop() {
                                Some(f) => f,
                                None => vstd::pervasive::unreached(),
                            };
                            let waiting = Waiting { guid, fiber: Box::new(parked) };
                            let ghost gsig = signal;
                            let ghost gwtg = waiting;
                            self.park_listener(me, signal, waiting);
                            proof {
                                assert(guid_step(wm1, wm2));
                                assert(eval_inputs_agree(w_pre, wm2));
                                lemma_eval_spec_agrees_all(w_pre, wm2, me, locals, args@);
                                crate::action::lemma_values_view_index(gbody);
                                assert(signal_denotes(w_pre, me, locals, gsig.head@, args@, gsig@));
                                assert(listen_effect(wm3, me, gsig, gwtg, *self));
                                assert(fibers@ =~= fs_pre.drop_last());
                                assert(step_ok(w_pre, fs_pre, *self, fibers@));
                            }
                        },
                        Action::Transmit { head, args } => {
                            let body = match self.eval_args(&fibers[last], &args) {
                                Ok(b) => b,
                                Err(e) => {
                                    proof {
                                        lemma_eval_spec_agrees_all(w_pre, wm1, me, locals, args@);
                                        assert(step_err(w_pre, fs_pre, *self, e));
                                        let n0 = choose|n: nat|
                                            reaches(*old(self), seq![fiber0], w_pre, fs_pre, n);
                                        assert(reaches(
                                            *old(self),
                                            seq![fiber0],
                                            w_pre,
                                            fs_pre,
                                            n0,
                                        ));
                                    }
                                    return Err(e);
                                },
                            };
                            let ghost wm2 = *self;
                            let ghost gbody = body@;
                            let signal = Signal { head, body: Arc::new(body) };
                            let ghost gsig = signal;
                            self.do_transmit(&signal);
                            proof {
                                lemma_eval_spec_agrees_all(w_pre, wm1, me, locals, args@);
                                crate::action::lemma_values_view_index(gbody);
                                assert(signal_denotes(w_pre, me, locals, gsig.head@, args@, gsig@));
                                assert(transmit_world(wm2, gsig@, *self));
                                assert(step_ok(w_pre, fs_pre, *self, fibers@));
                            }
                        },
                        Action::Die => {
                            self.do_die(me);
                            proof {
                                assert(die_effect(wm1, me, *self));
                                assert(step_ok(w_pre, fs_pre, *self, fibers@));
                            }
                        },
                        Action::WriteLocal { name, value } => {
                            let v = match self.eval_expr(&fibers[last], &value) {
                                Ok(v) => v,
                                Err(e) => {
                                    proof {
                                        lemma_eval_spec_agrees(w_pre, wm1, me, locals, &value);
                                        assert(step_err(w_pre, fs_pre, *self, e));
                                        let n0 = choose|n: nat|
                                            reaches(*old(self), seq![fiber0], w_pre, fs_pre, n);
                                        assert(reaches(
                                            *old(self),
                                            seq![fiber0],
                                            w_pre,
                                            fs_pre,
                                            n0,
                                        ));
                                    }
                                    return Err(e);
                                },
                            };
                            let ghost gv = v;
                            let ghost pre_locals = fibers@[last as int].stack@.last().locals@;
                            let f = &mut fibers[last];
                            let fr = f.frame_mut();
                            assoc_set(&mut fr.locals, name, v);
                            proof {
                                let g = fibers@[last as int];
                                lemma_eval_spec_agrees(w_pre, wm1, me, locals, &value);
                                lemma_assoc_shape_is_put(pre_locals, g.stack@.last().locals@, name, gv);
                                assert(locals_written(fadv, name, gv, g));
                                assert(fibers@ =~= fs_pre.drop_last().push(g));
                                let nn = self.actors@.len() as int;
                                assert forall|i: int| 0 <= i < fibers@.len() implies fiber_wf(
                                    #[trigger] fibers@[i],
                                    nn,
                                ) by {}
                                assert(step_ok(w_pre, fs_pre, *self, fibers@));
                            }
                        },
                        Action::DefGlobalMethod { name, body } => {
                            let ghost pre_methods = self.methods@;
                            let ghost gbody = body;
                            assoc_set(&mut self.methods, name, body);
                            proof {
                                lemma_assoc_shape_is_put(pre_methods, self.methods@, name, gbody);
                                assert(step_ok(w_pre, fs_pre, *self, fibers@));
                            }
                        },
                        Action::Call { name, args } => {
                            let method = match assoc_get_method(&self.methods, &name) {
                                Some(m) => m,
                                None => {
                                    let err = Error::NoSuchMethod { name };
                                    proof {
                                        assert(step_err(w_pre, fs_pre, *self, err));
                                        let n0 = choose|n: nat|
                                            reaches(*old(self), seq![fiber0], w_pre, fs_pre, n);
                                        assert(reaches(
                                            *old(self),
                                            seq![fiber0],
                                            w_pre,
                                            fs_pre,
                                            n0,
                                        ));
                                    }
                                    return Err(err);
                                },
                            };
                            proof {
                                lemma_assoc_find_member(self.methods@, name@);
                            }
                            if method.params.len() != args.len() {
                                let err = Error::ArgListMismatch {
                                    name,
                                    wanted: method.params.len(),
                                    got: args.len(),
                                };
                                proof {
                                    assert(step_err(w_pre, fs_pre, *self, err));
                                    let n0 = choose|n: nat|
                                        reaches(*old(self), seq![fiber0], w_pre, fs_pre, n);
                                    assert(reaches(*old(self), seq![fiber0], w_pre, fs_pre, n0));
                                }
                                return Err(err);
                            }
                            let vals = match self.eval_args(&fibers[last], &args) {
                                Ok(b) => b,
                                Err(e) => {
                                    proof {
                                        lemma_eval_spec_agrees_all(w_pre, wm1, me, locals, args@);
                                        assert(step_err(w_pre, fs_pre, *self, e));
                                        let n0 = choose|n: nat|
                                            reaches(*old(self), seq![fiber0], w_pre, fs_pre, n);
                                        assert(reaches(
                                            *old(self),
                                            seq![fiber0],
                                            w_pre,
                                            fs_pre,
                                            n0,
                                        ));
                                    }
                                    return Err(e);
                                },
                            };
                            let ghost gvals = vals@;
                            let mut callee_locals: Vec<(String, Value)> = Vec::new();
                            let m = method.params.len();
                            let mut i: usize = 0;
                            while i < m
                                invariant
                                    0 <= i <= m,
                                    m == method.params@.len() == vals@.len(),
                                    callee_locals@ == bound_params(
                                        method.params@,
                                        vals@,
                                        i as int,
                                    ),
                                    forall|j: int|
                                        0 <= j < vals@.len() ==> crate::action::value_wf(
                                            #[trigger] vals@[j],
                                            self.actors@.len() as int,
                                        ),
                                    forall|j: int|
                                        0 <= j < callee_locals@.len()
                                            ==> crate::action::value_wf(
                                            (#[trigger] callee_locals@[j]).1,
                                            self.actors@.len() as int,
                                        ),
                                decreases m - i,
                            {
                                let ghost prevl = callee_locals@;
                                let kname = method.params[i].clone();
                                let varg = vals[i].clone();
                                let ghost gk = kname;
                                let ghost gvg = varg;
                                assoc_set(&mut callee_locals, kname, varg);
                                proof {
                                    lemma_assoc_shape_is_put(prevl, callee_locals@, gk, gvg);
                                    assert(gk == method.params@[i as int]);
                                    assert(gvg == vals@[i as int]);
                                    assert(callee_locals@ == bound_params(
                                        method.params@,
                                        vals@,
                                        i as int + 1,
                                    ));
                                }
                                i = i + 1;
                            }
                            let f = &mut fibers[last];
                            f.stack.push(
                                StackFrame { pc: 0, script: method.script.clone(), locals: callee_locals },
                            );
                            proof {
                                let g = fibers@[last as int];
                                lemma_eval_spec_agrees_all(w_pre, wm1, me, locals, args@);
                                assert(args_eval_to(w_pre, me, locals, args@, gvals));
                                assert(frame_pushed(fadv, method, gvals, g));
                                assert(fibers@ =~= fs_pre.drop_last().push(g));
                                let nn = self.actors@.len() as int;
                                assert forall|i2: int| 0 <= i2 < fibers@.len() implies fiber_wf(
                                    #[trigger] fibers@[i2],
                                    nn,
                                ) by {}
                                assert(step_ok(w_pre, fs_pre, *self, fibers@));
                            }
                        },
                        Action::Return => {
                            let f = &mut fibers[last];
                            f.stack.pop();
                            proof {
                                let g = fibers@[last as int];
                                assert(frame_popped(fadv, g));
                                assert(fibers@ =~= fs_pre.drop_last().push(g));
                                let nn = self.actors@.len() as int;
                                assert forall|i2: int| 0 <= i2 < fibers@.len() implies fiber_wf(
                                    #[trigger] fibers@[i2],
                                    nn,
                                ) by {}
                                assert(step_ok(w_pre, fs_pre, *self, fibers@));
                            }
                        },
                    }
                },
            }
            proof {
                let n0 = choose|n: nat| reaches(*old(self), seq![fiber0], w_pre, fs_pre, n);
                assert(reaches(*old(self), seq![fiber0], w_pre, fs_pre, n0));
                assert(reaches(*old(self), seq![fiber0], *self, fibers@, (n0 + 1) as nat));
            }
        }
        proof {
            assert(fibers@ =~= Seq::<Fiber>::empty());
        }
        Ok(())
    }
}


/// The second log extends the first: nothing already recorded is ever
/// rewritten or dropped.
pub open spec fn log_extends(l1: Seq<String>, l2: Seq<String>) -> bool {
    &&& l2.len() >= l1.len()
    &&& forall|j: int| 0 <= j < l1.len() ==> #[trigger] l2[j] == l1[j]
}

/// No actor has a task parked.
pub open spec fn no_parked(w: Workspace) -> bool {
    forall|i: int| 0 <= i < w.actors@.len() ==> (#[trigger] w.actors@[i]).agenda.next is None
}

/// What dispatching on an empty agenda does: the synthesized `Halt` runs
/// one second later, the world stops, the position caches are cleared for
/// the new instant, exactly the rendered `halt` line is logged, and
/// nothing else changes.
pub open spec fn synthetic_halt_effect(w1: Workspace, w2: Workspace) -> bool {
    &&& w2.has_halted
    &&& w2.now.at.raw == sat64(w1.now.at.raw + crate::num::SCALE)
    &&& w2.supervisor == w1.supervisor
    &&& w2.globals == w1.globals
    &&& w2.methods == w1.methods
    &&& w2.task_counter == w1.task_counter
    &&& w2.actors@.len() == w1.actors@.len()
    &&& forall|i: int|
        0 <= i < w1.actors@.len() ==> #[trigger] w2.actors@[i] == (Actor {
            position: None,
            ..w1.actors@[i]
        })
    &&& w2.log@.len() == w1.log@.len() + 1
    &&& forall|j: int| 0 <= j < w1.log@.len() ==> #[trigger] w2.log@[j] == w1.log@[j]
    &&& w2.log@[w1.log@.len() as int]@ == crate::pretty_print::line_chars(w2.now, Action::Halt)
}

/// The dispatched task held the least `(eta, guid)` key among everything
/// parked; it was removed from its agenda, the clock advanced to its eta,
/// and every position cache was cleared for the new instant.
pub open spec fn dispatch_prep(w1: Workspace, w2: Workspace, i: int, t: QueuedTask) -> bool {
    &&& 0 <= i < w1.actors@.len()
    &&& w1.actors@[i].agenda.next == Some(t)
    &&& (forall|j: int|
        0 <= j < w1.actors@.len() ==> match (#[trigger] w1.actors@[j]).agenda.next {
            Some(u) => crate::task::token_le(t.token, u.token),
            None => true,
        })
    &&& w2 == (Workspace { actors: w2.actors, now: t.token.eta, ..w1 })
    &&& w2.actors@.len() == w1.actors@.len()
    &&& (forall|j: int|
        0 <= j < w1.actors@.len() && j != i ==> #[trigger] w2.actors@[j] == (Actor {
            position: None,
            ..w1.actors@[j]
        }))
    &&& w2.actors@[i] == (Actor {
        position: None,
        agenda: w2.actors@[i].agenda,
        ..w1.actors@[i]
    })
    &&& w2.actors@[i].agenda.next is None
    &&& w2.actors@[i].agenda.listening == w1.actors@[i].agenda.listening
}

/// One successful turn of the scheduler: either nothing was parked and
/// the synthetic halt ran, or the minimal-key task was dispatched and
/// its fiber ran to completion through the dispatch-step relation.
pub open spec fn update_rel(w1: Workspace, w2: Workspace) -> bool {
    ||| (no_parked(w1) && synthetic_halt_effect(w1, w2))
    ||| exists|wm: Workspace, i: int, t: QueuedTask|
        #[trigger] dispatch_prep(w1, wm, i, t) && exists|n: nat|
            #[trigger] reaches(wm, seq![*t.fiber], w2, Seq::<Fiber>::empty(), n)
}

/// `w2` follows from `w1` by exactly `n` successful scheduler turns.
pub open spec fn sim_reaches(w1: Workspace, w2: Workspace, n: nat) -> bool
    decreases n,
{
    if n == 0 {
        w2 == w1
    } else {
        exists|wm: Workspace| #[trigger] update_rel(wm, w2) && sim_reaches(w1, wm, (n - 1) as nat)
    }
}

impl Workspace {
    /// One scheduling step: take the earliest task (or synthesize a
    /// `Halt` one second out if nothing is parked), advance the clock to
    /// its time — the clock never moves backwards, proven rather than
    /// asserted at run time — clear every position cache for the new
    /// instant, and resume the fiber.  On success the world relates to
    /// the old one exactly by [`update_rel`].
    #[verifier::loop_isolation(false)]
    pub fn update(&mut self) -> (r: Result<(), Error>)
        requires
            old(self).wf(),
        ensures
            final(self).wf(),
            final(self).now.at.raw >= old(self).now.at.raw,
            final(self).supervisor == old(self).supervisor,
            final(self).task_counter >= old(self).task_counter,
            final(self).actors@.len() >= old(self).actors@.len(),
            log_extends(old(self).log@, final(self).log@),
            r is Ok ==> update_rel(*old(self), *final(self)),
            r matches Err(e) ==> (e is StepLimit || exists|wm: Workspace, i: int, t: QueuedTask|
                #[trigger] dispatch_prep(*old(self), wm, i, t) && exists|
                    werr: Workspace,
                    fserr: Seq<Fiber>,
                    n: nat,
                |
                    #[trigger] reaches(wm, seq![*t.fiber], werr, fserr, n) && step_err(
                        werr,
                        fserr,
                        *final(self),
                        e,
                    )),
            no_parked(*old(self)) ==> (r is Ok && synthetic_halt_effect(*old(self), *final(self))),
    {
        let ghost w0 = *old(self);
        let (time, boxed) = self.find_next_task();
        let ghost w1 = *self;
        proof {
            assert(time.at.raw >= self.now.at.raw);
        }
        self.now = time;
        let n = self.actors.len();
        let mut i: usize = 0;
        while i < n
            invariant
                0 <= i <= n,
                n == self.actors@.len(),
                *self == (Workspace { actors: self.actors, now: time, ..w1 }),
                self.now == time,
                forall|j: int|
                    0 <= j < i ==> #[trigger] self.actors@[j] == (Actor {
                        position: None,
                        ..w1.actors@[j]
                    }),
                forall|j: int| i <= j < n ==> #[trigger] self.actors@[j] == w1.actors@[j],
            decreases n - i,
        {
            let a = &mut self.actors[i];
            a.position = None;
            i = i + 1;
        }
        let ghost wm = *self;
        let ghost parked_case = !(forall|j: int|
            0 <= j < w0.actors@.len() ==> (#[trigger] w0.actors@[j]).agenda.next is None);
        proof {
            let w2 = *self;
            let nn = w2.actors@.len() as int;
            assert forall|j: int| 0 <= j < nn implies actor_wf(
                #[trigger] w2.actors@[j],
                w2.now,
                w2.task_counter,
                nn,
            ) by {
                assert(actor_wf(w1.actors@[j], w1.now, w1.task_counter, nn));
                assert(w2.actors@[j] == (Actor { position: None, ..w1.actors@[j] }));
            }
            assert(self.wf());
            assert(fiber_wf(*boxed, self.actors@.len() as int));
        }
        let result = self.run(*boxed);
        proof {
            if parked_case {
                let ti = choose|ti: int|
                    {
                        &&& 0 <= ti < w0.actors@.len()
                        &&& match (#[trigger] w0.actors@[ti]).agenda.next {
                            Some(t) => {
                                &&& t.token.eta == time
                                &&& t.fiber == boxed
                                &&& w1.actors@[ti].agenda.next is None
                                &&& w1.actors@[ti].agenda.listening == w0.actors@[
                                    ti
                                ].agenda.listening
                                &&& w1.actors@[ti] == (Actor {
                                    agenda: w1.actors@[ti].agenda,
                                    ..w0.actors@[ti]
                                })
                                &&& (forall|j: int|
                                    0 <= j < w0.actors@.len() && j != ti ==> w1.actors@[j]
                                        == w0.actors@[j])
                                &&& (forall|j: int|
                                    0 <= j < w0.actors@.len() ==> match (
                                    #[trigger] w0.actors@[j]).agenda.next {
                                        Some(u) => crate::task::token_le(t.token, u.token),
                                        None => true,
                                    })
                            },
                            None => false,
                        }
                    };
                let t = w0.actors@[ti].agenda.next->Some_0;
                assert(dispatch_prep(w0, wm, ti, t));
                assert(*t.fiber == *boxed);
                if result is Ok {
                    assert(update_rel(w0, *self));
                }
            } else {
                assert(no_parked(w0));
                assert(result is Ok);
                assert(halt_step(wm, *self));
                assert(synthetic_halt_effect(w0, *self));
                assert(update_rel(w0, *self));
            }
        }
        result
    }

    /// Drive the world until a `Halt` stops it: on success the final
    /// world follows from the initial one by some number of scheduler
    /// turns ([`sim_reaches`]) and the world has halted.  On an empty
    /// world this runs exactly one synthetic `Halt` one second out.
    #[verifier::loop_isolation(false)]
    pub fn simulate(&mut self) -> (r: Result<(), Error>)
        requires
            old(self).wf(),
        ensures
            final(self).wf(),
            final(self).now.at.raw >= old(self).now.at.raw,
            log_extends(old(self).log@, final(self).log@),
            r is Ok ==> final(self).has_halted && exists|n: nat|
                #[trigger] sim_reaches(*old(self), *final(self), n),
            old(self).has_halted ==> (*final(self) == *old(self) && r is Ok),
            (!old(self).has_halted && no_parked(*old(self))) ==> (r is Ok
                && synthetic_halt_effect(*old(self), *final(self))),
    {
        let ghost scenario = !old(self).has_halted && no_parked(*old(self));
        let mut fuel: u64 = STEP_LIMIT;
        proof {
            assert(sim_reaches(*old(self), *self, 0));
        }
        while !self.has_halted
            invariant
                self.wf(),
                self.now.at.raw >= old(self).now.at.raw,
                log_extends(old(self).log@, self.log@),
                exists|n: nat| #[trigger] sim_reaches(*old(self), *self, n),
                old(self).has_halted ==> *self == *old(self),
                scenario ==> ((*self == *old(self) && fuel == STEP_LIMIT) || (self.has_halted
                    && synthetic_halt_effect(*old(self), *self))),
            decreases fuel,
        {
            if fuel == 0 {
                return Err(Error::StepLimit);
            }
            fuel = fuel - 1;
            let ghost w_pre = *self;
            match self.update() {
                Ok(_) => {
                    proof {
                        let n0 = choose|n: nat| sim_reaches(*old(self), w_pre, n);
                        assert(sim_reaches(*old(self), w_pre, n0));
                        assert(update_rel(w_pre, *self));
                        assert(sim_reaches(*old(self), *self, (n0 + 1) as nat));
                    }
                },
                Err(e) => {
                    return Err(e);
                },
            }
        }
        Ok(())
    }

    /// Run a script under the supervisor at the current instant: the
    /// result and the final world are exactly what the dispatch-step
    /// relation says of a fresh one-frame supervisor fiber for the
    /// script.  An empty script changes nothing; a lone `Halt` stops the
    /// world.
    pub fn perform(&mut self, script: Arc<Vec<Action>>) -> (r: Result<(), Error>)
        requires
            old(self).wf(),
            crate::action::script_wf(script@),
        ensures
            final(self).wf(),
            final(self).now == old(self).now,
            final(self).supervisor == old(self).supervisor,
            final(self).task_counter >= old(self).task_counter,
            final(self).actors@.len() >= old(self).actors@.len(),
            log_extends(old(self).log@, final(self).log@),
            exists|f: Fiber|
                #[trigger] fresh_fiber(
                    old(self).supervisor,
                    script,
                    Seq::<(String, Value)>::empty(),
                    f,
                ) && match r {
                    Ok(_) => exists|n: nat|
                        #[trigger] reaches(
                            *old(self),
                            seq![f],
                            *final(self),
                            Seq::<Fiber>::empty(),
                            n,
                        ),
                    Err(e) => {
                        ||| (e is StepLimit && exists|n: nat, fsm: Seq<Fiber>|
                            #[trigger] reaches(*old(self), seq![f], *final(self), fsm, n))
                        ||| exists|n: nat, wm: Workspace, fsm: Seq<Fiber>|
                            #[trigger] reaches(*old(self), seq![f], wm, fsm, n) && step_err(
                                wm,
                                fsm,
                                *final(self),
                                e,
                            )
                    },
                },
            script@.len() == 0 ==> (*final(self) == *old(self) && r is Ok),
            script@ == seq![Action::Halt] ==> (r is Ok && halt_step(*old(self), *final(self))),
    {
        let ghost gscript = script;
        let fiber = Fiber::new(self.supervisor, script);
        proof {
            assert(fiber_wf(fiber, self.actors@.len() as int));
            assert(fiber.stack@[0].locals@ =~= Seq::<(String, Value)>::empty());
            assert(fresh_fiber(
                self.supervisor,
                gscript,
                Seq::<(String, Value)>::empty(),
                fiber,
            ));
        }
        self.run(fiber)
    }
}

/// How many tasks an agenda holds ready to dispatch.
pub open spec fn pending_count(a: Agenda) -> nat {
    match a.next {
        Some(_) => 1nat,
        None => 0nat,
    }
}

/// At any instant, each actor has at most one queued task: the agenda's
/// task slot is an `Option`, so it cannot hold more.
pub proof fn lemma_at_most_one_task(a: Agenda)
    ensures
        pending_count(a) <= 1,
{
}

/// Two reads of an actor's position at the same instant return the
/// identical value: a read changes at most the position caches, and the
/// position is a function of the trajectories and the clock alone.
pub proof fn lemma_position_idempotent(w1: Workspace, w2: Workspace, i: int)
    requires
        same_but_cache(w1, w2),
    ensures
        spec_position_of(w1, i) == spec_position_of(w2, i),
{
    if 0 <= i < w1.actors@.len() {
        assert(traj_or_default(w2.actors@[i]) == traj_or_default(w1.actors@[i]));
    }
}

/// Guids grow strictly over a world's lifetime: while the counter has
/// not pinned, every guid recorded anywhere in the world is below the
/// counter, and every guid issued later equals the counter at issue.
pub proof fn lemma_guids_strictly_increase(w: Workspace)
    requires
        w.wf(),
        w.task_counter < u64::MAX,
    ensures
        forall|i: int|
            0 <= i < w.actors@.len() ==> match (#[trigger] w.actors@[i]).agenda.next {
                Some(t) => t.token.guid < w.task_counter,
                None => true,
            },
        forall|i: int, k: int|
            0 <= i < w.actors@.len() && 0 <= k < w.actors@[i].agenda.listening@.len() ==> (
            #[trigger] w.actors@[i].agenda.listening@[k]).1.guid < w.task_counter,
{
    let nn = w.actors@.len() as int;
    assert forall|i: int, k: int|
        0 <= i < nn && 0 <= k < w.actors@[i].agenda.listening@.len() implies (
    #[trigger] w.actors@[i].agenda.listening@[k]).1.guid < w.task_counter by {
        assert(actor_wf(w.actors@[i], w.now, w.task_counter, nn));
        assert(listener_wf(w.actors@[i].agenda.listening@[k], w.task_counter, nn));
    }
}

/// Issuing `SetAccel(0)` twice in the same instant, starting at rest,
/// leaves a `Fixed` trajectory whose value is the current position — and
/// already the first issue does.
pub proof fn lemma_set_accel_zero_twice(t0: Trajectory, pos: Position, now: Instant)
    requires
        velocity_spec(t0, now) == Vector::spec_zero(),
    ensures
        ({
            let t1 = set_accel_traj(t0, pos, now, Vector::spec_zero());
            let p1 = sample_spec(t1, now);
            let t2 = set_accel_traj(t1, p1, now, Vector::spec_zero());
            t1 == (Trajectory::Fixed { value: pos }) && p1 == pos && t2 == t1
        }),
{
}

/// A transmit consumes the matching listener exactly once: afterwards no
/// listener for the signal remains on the actor, and the consumed
/// listener's fiber is queued at the given instant under its original
/// guid.
pub proof fn lemma_transmit_consumes_listener(
    a1: Actor,
    a2: Actor,
    sig: crate::action::AbsSignal,
    now: Instant,
    k: int,
)
    requires
        transmit_effect(a1, a2, sig, now),
        forall|x: int, y: int|
            0 <= x < y < a1.agenda.listening@.len() ==> (#[trigger] a1.agenda.listening@[x]).0@
                != (#[trigger] a1.agenda.listening@[y]).0@,
        0 <= k < a1.agenda.listening@.len(),
        a1.agenda.listening@[k].0@ == sig,
    ensures
        forall|x: int|
            0 <= x < a2.agenda.listening@.len() ==> (#[trigger] a2.agenda.listening@[x]).0@ != sig,
        a2.agenda.next == Some(
            QueuedTask {
                token: SortToken { eta: now, guid: a1.agenda.listening@[k].1.guid },
                fiber: a1.agenda.listening@[k].1.fiber,
            },
        ),
{
    let l1 = a1.agenda.listening@;
    let l2 = a2.agenda.listening@;
    if exists|k2: int|
        {
            &&& 0 <= k2 < l1.len()
            &&& (#[trigger] l1[k2]).0@ == sig
            &&& (forall|j: int| 0 <= j < k2 ==> (#[trigger] l1[j]).0@ != sig)
            &&& l2 == l1.remove(k2)
            &&& a2.agenda.next == Some(
                QueuedTask {
                    token: SortToken { eta: now, guid: l1[k2].1.guid },
                    fiber: l1[k2].1.fiber,
                },
            )
        } {
        let k2 = choose|k2: int|
            {
                &&& 0 <= k2 < l1.len()
                &&& (#[trigger] l1[k2]).0@ == sig
                &&& (forall|j: int| 0 <= j < k2 ==> (#[trigger] l1[j]).0@ != sig)
                &&& l2 == l1.remove(k2)
                &&& a2.agenda.next == Some(
                    QueuedTask {
                        token: SortToken { eta: now, guid: l1[k2].1.guid },
                        fiber: l1[k2].1.fiber,
                    },
                )
            };
        assert(k2 == k);
        assert forall|x: int| 0 <= x < l2.len() implies (#[trigger] l2[x]).0@ != sig by {
            let x1 = if x < k {
                x
            } else {
                x + 1
            };
            assert(l2[x] == l1[x1]);
        }
    } else {
        assert(a1.agenda.listening@[k].0@ == sig);
        assert(false);
    }
}

impl Actor {
    /// How many signals this actor is listening for.
    fn listening_len(&self) -> (r: usize)
        ensures
            r == self.agenda.listening@.len(),
    {
        self.agenda.listening.len()
    }
}

/// Compare the `k`-th listener key of actor `i` with `sig`.
fn signal_eq_at(actors: &Vec<Actor>, i: usize, k: usize, sig: &Signal) -> (r: bool)
    requires
        (i as int) < actors@.len(),
        (k as int) < actors@[i as int].agenda.listening@.len(),
    ensures
        r == (actors@[i as int].agenda.listening@[k as int].0@ == sig@),
{
    crate::action::signal_eq(&actors[i].agenda.listening[k].0, sig)
}

/// Worlds that differ only in their position caches agree on everything
/// expression evaluation reads.
pub proof fn lemma_same_but_cache_agrees(w1: Workspace, w2: Workspace)
    requires
        same_but_cache(w1, w2),
    ensures
        eval_inputs_agree(w1, w2),
{
    assert forall|i: int|
        0 <= i < w1.actors@.len() implies traj_or_default(#[trigger] w1.actors@[i])
        == traj_or_default(w2.actors@[i]) by {
        assert(w2.actors@[i] == (Actor { position: w2.actors@[i].position, ..w1.actors@[i] }));
    }
}

/// Only the position caches may differ between the two worlds.
pub open spec fn same_but_cache(w1: Workspace, w2: Workspace) -> bool {
    &&& w2 == (Workspace { actors: w2.actors, ..w1 })
    &&& w2.actors@.len() == w1.actors@.len()
    &&& forall|i: int|
        0 <= i < w1.actors@.len() ==> #[trigger] w2.actors@[i] == (Actor {
            position: w2.actors@[i].position,
            ..w1.actors@[i]
        })
}

impl Workspace {
    /// Evaluate a pure expression under a fiber: the result is exactly
    /// what [`eval_spec`] says, and evaluating touches nothing but the
    /// position caches.
    #[verifier::loop_isolation(false)]
    fn eval_expr(&mut self, fiber: &Fiber, expr: &Expr) -> (r: Result<Value, Error>)
        requires
            old(self).wf(),
            fiber.stack@.len() > 0,
            fiber_wf(*fiber, old(self).actors@.len() as int),
        ensures
            final(self).wf(),
            same_but_cache(*old(self), *final(self)),
            ({
                let goal = eval_spec(
                    *old(self),
                    fiber.me,
                    fiber.stack@.last().locals@,
                    *expr,
                );
                match r {
                    Ok(v) => {
                        &&& goal == Ok::<AbsValue, AbsErr>(crate::action::value_view(v))
                        &&& crate::action::value_wf(v, old(self).actors@.len() as int)
                    },
                    Err(e) => goal == Err::<AbsValue, AbsErr>(e@),
                }
            }),
        decreases *expr,
    {
        let ghost n = old(self).actors@.len() as int;
        let ghost locals = fiber.stack@.last().locals@;
        proof {
            assert(crate::task::frame_wf(
                fiber.stack@[fiber.stack@.len() - 1],
                n,
            ));
        }
        match expr {
            Expr::Myself => Ok(Value::ActorId(fiber.me)),
            Expr::NumConst { value } => Ok(Value::Num(*value)),
            Expr::Var { name } => {
                let frame = match fiber.frame() {
                    Some(f) => f,
                    None => vstd::pervasive::unreached(),
                };
                match assoc_get_value(&frame.locals, name) {
                    Some(v) => {
                        proof {
                            lemma_assoc_find_member(locals, name@);
                        }
                        Ok(v)
                    },
                    None => match assoc_get_handle(&self.globals, name) {
                        Some(h) => {
                            proof {
                                lemma_assoc_find_member(self.globals@, name@);
                            }
                            Ok(Value::ActorId(h))
                        },
                        None => Err(Error::NoSuchGlobal { name: name.clone() }),
                    },
                }
            },
            Expr::Field { subject, field_name } => {
                let sv = match self.eval_expr(fiber, subject) {
                    Ok(v) => v,
                    Err(e) => {
                        return Err(e);
                    },
                };
                proof {
                    lemma_eval_spec_agrees(*old(self), *self, fiber.me, locals, subject);
                }
                match sv {
                    Value::ActorId(h) => {
                        let position_key = "position".to_owned();
                        if *field_name == position_key {
                            let pos = match self.get_position(h) {
                                Ok(p) => p,
                                Err(_) => vstd::pervasive::unreached(),
                            };
                            proof {
                                assert(spec_position_of(*old(self), h.idx as int)
                                    == spec_position_of(*self, h.idx as int));
                            }
                            Ok(position_value(pos))
                        } else {
                            Err(
                                Error::NoSuchField {
                                    name: field_name.clone(),
                                    on_value: Value::ActorId(h),
                                },
                            )
                        }
                    },
                    Value::Struct(fields) => {
                        proof {
                            crate::action::lemma_fields_view_index(fields@);
                        }
                        let ghost av = crate::action::fields_view(fields@);
                        let m = fields.len();
                        let mut k: usize = 0;
                        proof {
                            assert(av.skip(0) =~= av);
                        }
                        while k < m
                            invariant
                                0 <= k <= m,
                                abs_fields_find(av, field_name@) == abs_fields_find(
                                    av.skip(k as int),
                                    field_name@,
                                ),
                            decreases m - k,
                        {
                            proof {
                                assert(av.skip(k as int)[0] == av[k as int]);
                            }
                            if fields[k].0 == *field_name {
                                return Ok(fields[k].1.clone());
                            }
                            proof {
                                assert(av.skip(k as int).drop_first() =~= av.skip(k as int + 1));
                            }
                            k = k + 1;
                        }
                        proof {
                            assert(av.skip(m as int).len() == 0);
                        }
                        Err(
                            Error::NoSuchField {
                                name: field_name.clone(),
                                on_value: Value::Struct(fields),
                            },
                        )
                    },
                    Value::Num(s) => Err(
                        Error::NoSuchField { name: field_name.clone(), on_value: Value::Num(s) },
                    ),
                }
            },
        }
    }

    /// Evaluate a list of argument expressions in order, stopping at the
    /// first failure.
    #[verifier::loop_isolation(false)]
    fn eval_args(&mut self, fiber: &Fiber, args: &Vec<Expr>) -> (r: Result<Vec<Value>, Error>)
        requires
            old(self).wf(),
            fiber.stack@.len() > 0,
            fiber_wf(*fiber, old(self).actors@.len() as int),
        ensures
            final(self).wf(),
            same_but_cache(*old(self), *final(self)),
            ({
                let locals = fiber.stack@.last().locals@;
                match r {
                    Ok(vals) => {
                        &&& vals@.len() == args@.len()
                        &&& forall|i: int|
                            0 <= i < vals@.len() ==> crate::action::value_wf(
                                #[trigger] vals@[i],
                                old(self).actors@.len() as int,
                            )
                        &&& forall|i: int|
                            0 <= i < args@.len() ==> eval_spec(
                                *old(self),
                                fiber.me,
                                locals,
                                #[trigger] args@[i],
                            ) == Ok::<AbsValue, AbsErr>(crate::action::value_view(vals@[i]))
                    },
                    Err(e) => exists|i: int|
                        0 <= i < args@.len() && eval_spec(
                            *old(self),
                            fiber.me,
                            locals,
                            #[trigger] args@[i],
                        ) == Err::<AbsValue, AbsErr>(e@),
                }
            }),
    {
        let ghost locals = fiber.stack@.last().locals@;
        let mut vals: Vec<Value> = Vec::new();
        let n = args.len();
        let mut i: usize = 0;
        while i < n
            invariant
                0 <= i <= n,
                self.wf(),
                same_but_cache(*old(self), *self),
                fiber_wf(*fiber, self.actors@.len() as int),
                vals@.len() == i,
                forall|j: int|
                    0 <= j < i ==> crate::action::value_wf(
                        #[trigger] vals@[j],
                        self.actors@.len() as int,
                    ),
                forall|j: int|
                    0 <= j < i ==> eval_spec(*old(self), fiber.me, locals, #[trigger] args@[j])
                        == Ok::<AbsValue, AbsErr>(crate::action::value_view(vals@[j])),
            decreases n - i,
        {
            let ghost before = *self;
            let arg = &args[i];
            let v = match self.eval_expr(fiber, arg) {
                Ok(v) => v,
                Err(e) => {
                    proof {
                        lemma_same_but_cache_agrees(*old(self), before);
                        lemma_eval_spec_agrees(*old(self), before, fiber.me, locals, arg);
                    }
                    return Err(e);
                },
            };
            proof {
                lemma_same_but_cache_agrees(*old(self), before);
                lemma_eval_spec_agrees(*old(self), before, fiber.me, locals, arg);
            }
            vals.push(v);
            i = i + 1;
        }
        Ok(vals)
    }
}

/// The abstraction of an actor's position as a record value
/// `{ x = …; y = …; z = …; }` with the fields in name order.
pub open spec fn abs_position(p: Position) -> AbsValue {
    AbsValue::Struct {
        fields: seq![
            ("x"@, AbsValue::Num { raw: p.0.x.raw as int }),
            ("y"@, AbsValue::Num { raw: p.0.y.raw as int }),
            ("z"@, AbsValue::Num { raw: p.0.z.raw as int }),
        ],
    }
}

/// Package a position as the record value `{ x; y; z }`, fields in name
/// order.
pub fn position_value(p: Position) -> (r: Value)
    ensures
        r@ == abs_position(p),
        forall|n: int| crate::action::value_wf(r, n),
        crate::action::value_name_sorted(r),
{
    let mut fields: Vec<(String, Value)> = Vec::new();
    fields.push(("x".to_owned(), Value::Num(p.0.x)));
    fields.push(("y".to_owned(), Value::Num(p.0.y)));
    fields.push(("z".to_owned(), Value::Num(p.0.z)));
    let r = Value::Struct(Arc::new(fields));
    proof {
        crate::action::lemma_fields_view_index(fields@);
        let tf = seq![
            ("x"@, AbsValue::Num { raw: p.0.x.raw as int }),
            ("y"@, AbsValue::Num { raw: p.0.y.raw as int }),
            ("z"@, AbsValue::Num { raw: p.0.z.raw as int }),
        ];
        assert(fields@.len() == 3);
        assert(crate::action::fields_view(fields@).len() == 3);
        assert(fields@[0].0@ == "x"@);
        assert(fields@[0].1 == Value::Num(p.0.x));
        assert(crate::action::value_view(Value::Num(p.0.x)) == AbsValue::Num {
            raw: p.0.x.raw as int,
        });
        assert(fields@[1].0@ == "y"@ && fields@[1].1 == Value::Num(p.0.y));
        assert(fields@[2].0@ == "z"@ && fields@[2].1 == Value::Num(p.0.z));
        assert(crate::action::fields_view(fields@)[0] == tf[0]);
        assert(crate::action::fields_view(fields@)[1] == tf[1]);
        assert(crate::action::fields_view(fields@)[2] == tf[2]);
        assert(crate::action::fields_view(fields@) =~= tf);
        assert(r@ == abs_position(p));
        reveal_strlit("x");
        reveal_strlit("y");
        reveal_strlit("z");
        assert(("x"@).len() == 1 && ("x"@)[0] == 'x');
        assert(("y"@).len() == 1 && ("y"@)[0] == 'y');
        assert(("z"@).len() == 1 && ("z"@)[0] == 'z');
        assert(('x' as u32) < ('y' as u32));
        assert(('y' as u32) < ('z' as u32));
        assert(crate::action::name_lt("x"@, "y"@));
        assert(crate::action::name_lt("y"@, "z"@));
        assert forall|i: int, j: int| 0 <= i < j < fields@.len() implies crate::action::name_lt(
            (#[trigger] fields@[i]).0@,
            (#[trigger] fields@[j]).0@,
        ) by {}
        assert forall|i: int|
            0 <= i < fields@.len() implies crate::action::value_name_sorted(
            (#[trigger] fields@[i]).1,
        ) by {}
        assert(crate::action::value_name_sorted(r));
        assert forall|n: int| crate::action::value_wf(r, n) by {
            assert forall|i: int| 0 <= i < fields@.len() implies crate::action::value_wf(
                (#[trigger] fields@[i]).1,
                n,
            ) by {
                if i == 0 {
                    assert(crate::action::value_wf(fields@[0].1, n));
                } else if i == 1 {
                    assert(crate::action::value_wf(fields@[1].1, n));
                } else {
                    assert(crate::action::value_wf(fields@[2].1, n));
                }
            }
        }
    }
    r
}

} // verus!
