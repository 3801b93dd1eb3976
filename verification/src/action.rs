//! The action tree a script is made of, and the runtime values it computes.
//!
//! Scripts share subtrees through `Arc`, so cloning an action is cheap and
//! never changes its meaning.  Runtime values form a small domain: an actor
//! handle, a fixed-point number, or a named record of further values.
use vstd::prelude::*;

use std::sync::Arc;

use crate::num::Scalar;
use crate::time::Interval;

verus! {

broadcast use vstd::std_specs::vec::group_vec_axioms, vstd::seq::group_seq_axioms;

/// An opaque, stable handle to an actor: an index into the world's actor
/// table.  Actors are never destroyed, so a handle stays valid for the
/// lifetime of its world.
#[derive(Copy, Clone, PartialEq, Eq, Structural, Debug, Hash)]
pub struct ActorHandle {
    pub idx: usize,
}

/// A 3-vector of scalars: a velocity in c, or an acceleration in c per
/// second.
#[derive(Copy, Clone, PartialEq, Eq, Structural, Debug)]
pub struct Vector {
    pub x: Scalar,
    pub y: Scalar,
    pub z: Scalar,
}

impl Vector {
    /// The zero vector.
    pub open spec fn spec_zero() -> Vector {
        Vector { x: Scalar { raw: 0 }, y: Scalar { raw: 0 }, z: Scalar { raw: 0 } }
    }

    #[verifier::when_used_as_spec(spec_zero)]
    pub fn zero() -> (r: Vector)
        ensures
            r == Vector::spec_zero(),
    {
        Vector { x: Scalar { raw: 0 }, y: Scalar { raw: 0 }, z: Scalar { raw: 0 } }
    }

    /// Whether all three components are zero — exactly when the squared
    /// magnitude is.
    pub fn is_zero(&self) -> (r: bool)
        ensures
            r == (*self == Vector::spec_zero()),
    {
        self.x.raw == 0 && self.y.raw == 0 && self.z.raw == 0
    }
}

/// A runtime value: an actor handle, a number, or a named record.
/// Every record the library builds keeps its fields in strict name
/// order ([`value_name_sorted`]), so the field sequences of equal
/// records are equal and record equality does not depend on insertion
/// order.
#[derive(Debug)]
pub enum Value {
    ActorId(ActorHandle),
    Num(Scalar),
    Struct(Arc<Vec<(String, Value)>>),
}

/// The mathematical shape of a [`Value`]: what contracts speak about.
pub enum AbsValue {
    Actor { idx: int },
    Num { raw: int },
    Struct { fields: Seq<(Seq<char>, AbsValue)> },
}

/// The abstraction of a value.
pub open spec fn value_view(v: Value) -> AbsValue
    decreases v,
{
    match v {
        Value::ActorId(h) => AbsValue::Actor { idx: h.idx as int },
        Value::Num(s) => AbsValue::Num { raw: s.raw as int },
        Value::Struct(fields) => AbsValue::Struct { fields: fields_view(fields@) },
    }
}

/// The abstraction of a record's field list, in order.
pub open spec fn fields_view(s: Seq<(String, Value)>) -> Seq<(Seq<char>, AbsValue)>
    decreases s,
{
    if s.len() == 0 {
        Seq::empty()
    } else {
        fields_view(s.drop_last()).push((s.last().0@, value_view(s.last().1)))
    }
}

/// The abstraction of a plain sequence of values (a signal body).
pub open spec fn values_view(s: Seq<Value>) -> Seq<AbsValue>
    decreases s,
{
    if s.len() == 0 {
        Seq::empty()
    } else {
        values_view(s.drop_last()).push(value_view(s.last()))
    }
}

impl View for Value {
    type V = AbsValue;

    open spec fn view(&self) -> AbsValue {
        value_view(*self)
    }
}

/// `fields_view` maps the field list pointwise.
pub proof fn lemma_fields_view_index(s: Seq<(String, Value)>)
    ensures
        fields_view(s).len() == s.len(),
        forall|i: int|
            0 <= i < s.len() ==> fields_view(s)[i] == ((#[trigger] s[i]).0@, value_view(s[i].1)),
    decreases s.len(),
{
    if s.len() > 0 {
        lemma_fields_view_index(s.drop_last());
        assert forall|i: int|
            0 <= i < s.len() implies fields_view(s)[i] == ((#[trigger] s[i]).0@, value_view(
            s[i].1,
        )) by {
            if i < s.len() - 1 {
                assert(s.drop_last()[i] == s[i]);
            } else {
                assert(s.last() == s[i]);
            }
        }
    }
}

/// `values_view` maps the sequence pointwise.
pub proof fn lemma_values_view_index(s: Seq<Value>)
    ensures
        values_view(s).len() == s.len(),
        forall|i: int| 0 <= i < s.len() ==> values_view(s)[i] == value_view(#[trigger] s[i]),
    decreases s.len(),
{
    if s.len() > 0 {
        lemma_values_view_index(s.drop_last());
        assert forall|i: int|
            0 <= i < s.len() implies values_view(s)[i] == value_view(#[trigger] s[i]) by {
            if i < s.len() - 1 {
                assert(s.drop_last()[i] == s[i]);
            } else {
                assert(s.last() == s[i]);
            }
        }
    }
}

/// Strict lexicographic order on field names, by character code.
pub open spec fn name_lt(a: Seq<char>, b: Seq<char>) -> bool
    decreases a.len(),
{
    if b.len() == 0 {
        false
    } else if a.len() == 0 {
        true
    } else if a[0] != b[0] {
        (a[0] as u32) < (b[0] as u32)
    } else {
        name_lt(a.drop_first(), b.drop_first())
    }
}

/// Every record reachable inside `v` keeps its fields in strictly
/// increasing name order, so records that denote the same name-to-value
/// map are structurally equal.
pub open spec fn value_name_sorted(v: Value) -> bool
    decreases v,
{
    match v {
        Value::Struct(fields) => {
            &&& (forall|i: int, j: int|
                0 <= i < j < fields@.len() ==> name_lt(
                    (#[trigger] fields@[i]).0@,
                    (#[trigger] fields@[j]).0@,
                ))
            &&& (forall|i: int|
                0 <= i < fields@.len() ==> value_name_sorted((#[trigger] fields@[i]).1))
        },
        _ => true,
    }
}

/// Every actor handle reachable inside `v` points below `n`: the condition
/// under which a value can be interpreted against an actor table of length
/// `n`.
pub open spec fn value_wf(v: Value, n: int) -> bool
    decreases v,
{
    match v {
        Value::ActorId(h) => (h.idx as int) < n,
        Value::Num(s) => true,
        Value::Struct(fields) => {
            forall|i: int| 0 <= i < fields@.len() ==> value_wf((#[trigger] fields@[i]).1, n)
        },
    }
}

/// Well-formedness of values survives growing the actor table.
pub proof fn lemma_value_wf_mono(v: Value, n: int, m: int)
    requires
        value_wf(v, n),
        n <= m,
    ensures
        value_wf(v, m),
    decreases v,
{
    match v {
        Value::Struct(fields) => {
            assert forall|i: int| 0 <= i < fields@.len() implies value_wf(
                (#[trigger] fields@[i]).1,
                m,
            ) by {
                lemma_value_wf_mono(fields@[i].1, n, m);
            }
        },
        _ => {},
    }
}

impl Clone for Value {
    /// Cloning shares the record spine, so the copy is the same value.
    fn clone(&self) -> (r: Self)
        ensures
            r == *self,
    {
        match self {
            Value::ActorId(h) => Value::ActorId(*h),
            Value::Num(s) => Value::Num(*s),
            Value::Struct(fields) => Value::Struct(fields.clone()),
        }
    }
}

/// Structural equality of two values: equality of their abstractions.
#[verifier::loop_isolation(false)]
pub fn value_eq(a: &Value, b: &Value) -> (r: bool)
    ensures
        r == (a@ == b@),
    decreases *a,
{
    match (a, b) {
        (Value::ActorId(x), Value::ActorId(y)) => x.idx == y.idx,
        (Value::Num(x), Value::Num(y)) => x.raw == y.raw,
        (Value::Struct(fa), Value::Struct(fb)) => {
            proof {
                lemma_fields_view_index(fa@);
                lemma_fields_view_index(fb@);
            }
            if fa.len() != fb.len() {
                return false;
            }
            let ghost va = fields_view(fa@);
            let ghost vb = fields_view(fb@);
            let n = fa.len();
            let mut i: usize = 0;
            while i < n
                invariant
                    0 <= i <= n,
                    n == fa@.len() == fb@.len(),
                    va == fields_view(fa@),
                    vb == fields_view(fb@),
                    va.len() == n,
                    vb.len() == n,
                    forall|j: int| 0 <= j < i ==> va[j] == vb[j],
                    forall|j: int|
                        0 <= j < n ==> va[j] == ((#[trigger] fa@[j]).0@, value_view(fa@[j].1)),
                    forall|j: int|
                        0 <= j < n ==> vb[j] == ((#[trigger] fb@[j]).0@, value_view(fb@[j].1)),
                decreases n - i,
            {
                let pa = &fa[i];
                let pb = &fb[i];
                if !(pa.0 == pb.0) {
                    assert(va[i as int] != vb[i as int]);
                    return false;
                }
                if !value_eq(&pa.1, &pb.1) {
                    assert(va[i as int] != vb[i as int]);
                    return false;
                }
                assert(va[i as int] == vb[i as int]);
                i = i + 1;
            }
            proof {
                assert(va =~= vb);
            }
            true
        },
        _ => {
            assert(a@ != b@);
            false
        },
    }
}

/// A signal: a head name with a tuple of values; matched structurally.
#[derive(Debug)]
pub struct Signal {
    pub head: String,
    pub body: Arc<Vec<Value>>,
}

/// The mathematical shape of a [`Signal`].
pub struct AbsSignal {
    pub head: Seq<char>,
    pub body: Seq<AbsValue>,
}

impl View for Signal {
    type V = AbsSignal;

    open spec fn view(&self) -> AbsSignal {
        AbsSignal { head: self.head@, body: values_view(self.body@) }
    }
}

impl Clone for Signal {
    /// Cloning shares the body, so the copy is the same signal.
    fn clone(&self) -> (r: Self)
        ensures
            r == *self,
    {
        Signal { head: self.head.clone(), body: self.body.clone() }
    }
}

/// Structural equality of two signals: equality of their abstractions.
#[verifier::loop_isolation(false)]
pub fn signal_eq(a: &Signal, b: &Signal) -> (r: bool)
    ensures
        r == (a@ == b@),
{
    proof {
        lemma_values_view_index(a.body@);
        lemma_values_view_index(b.body@);
    }
    if !(a.head == b.head) {
        return false;
    }
    if a.body.len() != b.body.len() {
        return false;
    }
    let ghost va = values_view(a.body@);
    let ghost vb = values_view(b.body@);
    let n = a.body.len();
    let mut i: usize = 0;
    while i < n
        invariant
            0 <= i <= n,
            n == a.body@.len() == b.body@.len(),
            va == values_view(a.body@),
            vb == values_view(b.body@),
            va.len() == n,
            vb.len() == n,
            forall|j: int| 0 <= j < i ==> va[j] == vb[j],
            forall|j: int| 0 <= j < n ==> va[j] == value_view(#[trigger] a.body@[j]),
            forall|j: int| 0 <= j < n ==> vb[j] == value_view(#[trigger] b.body@[j]),
        decreases n - i,
    {
        if !value_eq(&a.body[i], &b.body[i]) {
            assert(va[i as int] != vb[i as int]);
            return false;
        }
        assert(va[i as int] == vb[i as int]);
        i = i + 1;
    }
    proof {
        assert(va =~= vb);
    }
    true
}

/// A pure expression, evaluated against a fiber's locals and the world.
#[derive(Debug)]
pub enum Expr {
    /// The actor the current fiber runs on.
    Myself,
    /// A field of a record, or the `position` of an actor.
    Field { subject: Arc<Expr>, field_name: String },
    /// A numeric literal.
    NumConst { value: Scalar },
    /// A local binding, or failing that a global actor name.
    Var { name: String },
}

impl Clone for Expr {
    /// Cloning shares subtrees, so the copy is the same expression.
    fn clone(&self) -> (r: Self)
        ensures
            r == *self,
    {
        match self {
            Expr::Myself => Expr::Myself,
            Expr::Field { subject, field_name } => Expr::Field {
                subject: subject.clone(),
                field_name: field_name.clone(),
            },
            Expr::NumConst { value } => Expr::NumConst { value: *value },
            Expr::Var { name } => Expr::Var { name: name.clone() },
        }
    }
}

/// A method: parameter names and a body, registered in the world's method
/// table and invoked by `Action::Call`.
#[derive(Debug)]
pub struct Method {
    pub params: Vec<String>,
    pub script: Arc<Vec<Action>>,
}

impl Method {
    /// Build a method from its parameter names and body.
    pub fn new(params: Vec<String>, script: Arc<Vec<Action>>) -> (r: Method)
        ensures
            r.params == params,
            r.script == script,
    {
        Method { params, script }
    }
}

/// One instruction of the virtual machine.  See the interpreter in the
/// crate root for the semantics of each variant.
#[derive(Debug)]
pub enum Action {
    /// Stop the world after the current action.
    Halt,
    /// Evaluate an expression and record `expr = value` in the trace.
    Trace { expr: Arc<Expr> },
    /// Create a fresh actor at the spawner's current position.
    Spawn { name: String },
    /// Park the current fiber until `now + interval`.
    Wait { interval: Interval },
    /// Park the current fiber until a matching signal is transmitted.
    ListenFor { head: String, args: Arc<Vec<Expr>> },
    /// Run a nested script on the named actor, in the same instant.
    AsActor { name: String, script: Arc<Vec<Action>> },
    /// Give the current actor a new trajectory with this acceleration.
    SetAccel { value: Vector },
    /// Wake every listener whose recorded signal matches.
    Transmit { head: String, args: Arc<Vec<Expr>> },
    /// Mark the current actor dead; it stays queryable.
    Die,
    /// Bind a value in the top frame's locals.
    WriteLocal { name: String, value: Arc<Expr> },
    /// Register a method in the world's method table.
    DefGlobalMethod { name: String, body: Arc<Method> },
    /// Push a frame running the named method.
    Call { name: String, args: Arc<Vec<Expr>> },
    /// Pop the top frame.
    Return,
}

impl Clone for Action {
    /// Cloning shares subtrees, so the copy is the same action.
    fn clone(&self) -> (r: Self)
        ensures
            r == *self,
    {
        match self {
            Action::Halt => Action::Halt,
            Action::Trace { expr } => Action::Trace { expr: expr.clone() },
            Action::Spawn { name } => Action::Spawn { name: name.clone() },
            Action::Wait { interval } => Action::Wait { interval: *interval },
            Action::ListenFor { head, args } => Action::ListenFor {
                head: head.clone(),
                args: args.clone(),
            },
            Action::AsActor { name, script } => Action::AsActor {
                name: name.clone(),
                script: script.clone(),
            },
            Action::SetAccel { value } => Action::SetAccel { value: *value },
            Action::Transmit { head, args } => Action::Transmit {
                head: head.clone(),
                args: args.clone(),
            },
            Action::Die => Action::Die,
            Action::WriteLocal { name, value } => Action::WriteLocal {
                name: name.clone(),
                value: value.clone(),
            },
            Action::DefGlobalMethod { name, body } => Action::DefGlobalMethod {
                name: name.clone(),
                body: body.clone(),
            },
            Action::Call { name, args } => Action::Call { name: name.clone(), args: args.clone() },
            Action::Return => Action::Return,
        }
    }
}

/// A well-formed action never asks to wait for a negative interval, not
/// even in a nested script or a method body.  The scheduler treats time
/// running backwards as fatal, so the interpreter only accepts well-formed
/// scripts.
pub open spec fn action_wf(a: Action) -> bool
    decreases a,
{
    match a {
        Action::Wait { interval } => interval.length.raw >= 0,
        Action::AsActor { name, script } => {
            forall|i: int| 0 <= i < script@.len() ==> action_wf(#[trigger] script@[i])
        },
        Action::DefGlobalMethod { name, body } => {
            forall|i: int| 0 <= i < body.script@.len() ==> action_wf(#[trigger] body.script@[i])
        },
        _ => true,
    }
}

/// Every action of the script is well-formed.
pub open spec fn script_wf(s: Seq<Action>) -> bool {
    forall|i: int| 0 <= i < s.len() ==> action_wf(#[trigger] s[i])
}

/// Runtime check that a script is well-formed, for callers that receive
/// scripts from outside.
pub fn script_is_wf(script: &Vec<Action>) -> (r: bool)
    ensures
        r == script_wf(script@),
{
    let n = script.len();
    let mut i: usize = 0;
    let mut ok = true;
    while i < n
        invariant
            0 <= i <= n,
            n == script@.len(),
            ok == forall|j: int| 0 <= j < i ==> action_wf(#[trigger] script@[j]),
        decreases n - i,
    {
        if !action_is_wf(&script[i]) {
            ok = false;
        }
        i = i + 1;
    }
    ok
}

/// Runtime check that one action is well-formed.
pub fn action_is_wf(a: &Action) -> (r: bool)
    ensures
        r == action_wf(*a),
    decreases *a,
{
    match a {
        Action::Wait { interval } => interval.raw() >= 0,
        Action::AsActor { name, script } => nested_is_wf(script),
        Action::DefGlobalMethod { name, body } => nested_is_wf(&body.script),
        _ => true,
    }
}

/// Runtime check over a shared nested script.
fn nested_is_wf(script: &Arc<Vec<Action>>) -> (r: bool)
    ensures
        r == forall|i: int| 0 <= i < script@.len() ==> action_wf(#[trigger] script@[i]),
    decreases *script,
{
    let n = script.len();
    let mut i: usize = 0;
    let mut ok = true;
    while i < n
        invariant
            0 <= i <= n,
            n == script@.len(),
            ok == forall|j: int| 0 <= j < i ==> action_wf(#[trigger] script@[j]),
        decreases n - i,
    {
        if !action_is_wf(&script[i]) {
            ok = false;
        }
        i = i + 1;
    }
    ok
}

} // verus!
