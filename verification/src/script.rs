//! Scripts as handed to the interpreter, and the unit vocabulary the
//! scripting layer writes time and acceleration constants in.
use vstd::prelude::*;

use std::sync::Arc;

use crate::action::Action;
use crate::action::Expr;
use crate::action::Vector;
use crate::num::SCALE;
use crate::num::Scalar;
use crate::num::s_mul;
use crate::time::Interval;

verus! {

/// A top-level script: the action list a fiber will run.
#[derive(Clone, Debug)]
pub struct Script {
    pub body: Arc<Vec<Action>>,
}

impl Script {
    /// Wrap an action list as a script.
    pub fn new(body: Arc<Vec<Action>>) -> (r: Self)
        ensures
            r.body == body,
    {
        Script { body }
    }

    /// The action list, shared.
    pub fn into_inner(&self) -> (r: Arc<Vec<Action>>)
        ensures
            r == self.body,
    {
        self.body.clone()
    }
}

/// A time quantity as the scripting layer writes it: a number of units.
#[derive(Copy, Clone, Debug)]
pub enum TimeExpr {
    Constant { number: Scalar, unit: TimeUnit },
}

/// Units of time, in seconds.  A year is 365.2425 days.
#[derive(Copy, Clone, Debug)]
pub enum TimeUnit {
    Sec,
    Min,
    Hour,
    Day,
    Week,
    Year,
}

/// Units of length.  Positions are measured in light-seconds.
#[derive(Copy, Clone, Debug)]
pub enum LenUnit {
    LightSec,
}

/// Units of velocity.  Velocities are measured in c.
#[derive(Copy, Clone, Debug)]
pub enum VelocityUnit {
    Cee,
}

/// Units of acceleration, in c per second.
#[derive(Copy, Clone, Debug)]
pub enum AccelUnit {
    CeePerSec,
    Gee,
}

impl TimeUnit {
    /// The unit's length in whole seconds.
    pub open spec fn spec_secs(self) -> int {
        match self {
            TimeUnit::Sec => 1,
            TimeUnit::Min => 60,
            TimeUnit::Hour => 3600,
            TimeUnit::Day => 86400,
            TimeUnit::Week => 604800,
            TimeUnit::Year => 31_556_952,
        }
    }

    /// The unit's length in whole seconds.
    pub fn secs(self) -> (r: u32)
        ensures
            r as int == self.spec_secs(),
    {
        match self {
            TimeUnit::Sec => 1,
            TimeUnit::Min => 60,
            TimeUnit::Hour => 3600,
            TimeUnit::Day => 86400,
            TimeUnit::Week => 604800,
            TimeUnit::Year => 31_556_952,
        }
    }

    /// The unit's length as a scalar number of seconds.
    pub open spec fn spec_factor(self) -> Scalar {
        Scalar { raw: (self.spec_secs() * SCALE) as i64 }
    }

    /// The unit's length as a scalar number of seconds.
    pub fn factor(self) -> (r: Scalar)
        ensures
            r == self.spec_factor(),
    {
        Scalar { raw: (self.secs() as i64) * SCALE }
    }
}

impl AccelUnit {
    /// The unit's size in c per second.  A gee is 9.81 m/s² divided by
    /// the speed of light; the nearest representable scalar is used.
    pub open spec fn spec_factor(self) -> Scalar {
        match self {
            AccelUnit::CeePerSec => Scalar { raw: SCALE },
            AccelUnit::Gee => Scalar { raw: 33 },
        }
    }

    /// The unit's size in c per second.
    pub fn factor(self) -> (r: Scalar)
        ensures
            r == self.spec_factor(),
    {
        match self {
            AccelUnit::CeePerSec => Scalar { raw: SCALE },
            AccelUnit::Gee => Scalar { raw: 33 },
        }
    }
}

impl TimeExpr {
    /// The interval this expression denotes: the number times the unit.
    pub open spec fn spec_interval(self) -> Interval {
        match self {
            TimeExpr::Constant { number, unit } => Interval {
                length: s_mul(number, unit.spec_factor()),
            },
        }
    }
}

impl From<TimeExpr> for Interval {
    /// The interval a time expression denotes.
    fn from(src: TimeExpr) -> (r: Interval)
        ensures
            r == src.spec_interval(),
    {
        match src {
            TimeExpr::Constant { number, unit } => Interval {
                length: number.mul_fx(unit.factor()),
            },
        }
    }
}

impl vstd::std_specs::convert::FromSpecImpl<TimeExpr> for Interval {
    open spec fn obeys_from_spec() -> bool {
        true
    }

    open spec fn from_spec(src: TimeExpr) -> Interval {
        src.spec_interval()
    }
}

impl Default for Script {
    /// A small demonstration script: spawn Mars, accelerate it away and
    /// back over an hour, trace a local and a field along the way, and
    /// announce the arrival; the spawning script listens for it and then
    /// halts.  (The second trace reads the field `x` directly on an
    /// actor value, which the evaluator rejects with `NoSuchField`; the
    /// demonstration deliberately shows an error surfacing mid-run.)
    fn default() -> (r: Self)
        ensures
            r.body@.len() == 5,
            r.body@[0] matches Action::Spawn { name } && name@ == "Mars"@,
            r.body@[1] matches Action::WriteLocal { name, value } && name@ == "foo"@ && (*value
                matches Expr::NumConst { value: v } && v.raw == 2_000_000_000),
            r.body@[2] matches Action::AsActor { name, script } && name@ == "Mars"@ && ({
                &&& script@.len() == 7
                &&& (script@[0] matches Action::SetAccel { value } && value == (Vector {
                    x: Scalar { raw: 10_000 },
                    y: Scalar { raw: 0 },
                    z: Scalar { raw: 0 },
                }))
                &&& (script@[1] matches Action::Wait { interval } && interval.length.raw
                    == 1_800_000_000_000)
                &&& (script@[2] matches Action::Trace { expr } && (*expr matches Expr::Var {
                    name: v,
                } && v@ == "foo"@))
                &&& (script@[3] matches Action::SetAccel { value } && value == (Vector {
                    x: Scalar { raw: (-10_000) as i64 },
                    y: Scalar { raw: 0 },
                    z: Scalar { raw: 0 },
                }))
                &&& (script@[4] matches Action::Wait { interval } && interval.length.raw
                    == 1_800_000_000_000)
                &&& (script@[5] matches Action::Trace { expr } && (*expr matches Expr::Field {
                    subject,
                    field_name,
                } && *subject is Myself && field_name@ == "x"@))
                &&& (script@[6] matches Action::Transmit { head, args } && head@ == "arrived"@
                    && args@.len() == 1 && (args@[0] matches Expr::Var { name: v } && v@
                    == "Mars"@))
            }),
            r.body@[3] matches Action::ListenFor { head, args } && head@ == "arrived"@
                && args@.len() == 1 && (args@[0] matches Expr::Var { name: v } && v@ == "Mars"@),
            r.body@[4] is Halt,
    {
        let half_hour = TimeExpr::Constant {
            number: Scalar { raw: 500_000_000 },
            unit: TimeUnit::Hour,
        };
        let mut inner: Vec<Action> = Vec::new();
        inner.push(
            Action::SetAccel {
                value: crate::action::Vector {
                    x: Scalar { raw: 10_000 },
                    y: Scalar { raw: 0 },
                    z: Scalar { raw: 0 },
                },
            },
        );
        inner.push(Action::Wait { interval: Interval::from(half_hour) });
        inner.push(
            Action::Trace { expr: Arc::new(crate::action::Expr::Var { name: "foo".to_owned() }) },
        );
        inner.push(
            Action::SetAccel {
                value: crate::action::Vector {
                    x: Scalar { raw: -10_000 },
                    y: Scalar { raw: 0 },
                    z: Scalar { raw: 0 },
                },
            },
        );
        inner.push(Action::Wait { interval: Interval::from(half_hour) });
        inner.push(
            Action::Trace {
                expr: Arc::new(
                    crate::action::Expr::Field {
                        subject: Arc::new(crate::action::Expr::Myself),
                        field_name: "x".to_owned(),
                    },
                ),
            },
        );
        let mut transmit_args: Vec<crate::action::Expr> = Vec::new();
        transmit_args.push(crate::action::Expr::Var { name: "Mars".to_owned() });
        inner.push(
            Action::Transmit { head: "arrived".to_owned(), args: Arc::new(transmit_args) },
        );
        let mut listen_args: Vec<crate::action::Expr> = Vec::new();
        listen_args.push(crate::action::Expr::Var { name: "Mars".to_owned() });
        let mut body: Vec<Action> = Vec::new();
        body.push(Action::Spawn { name: "Mars".to_owned() });
        body.push(
            Action::WriteLocal {
                name: "foo".to_owned(),
                value: Arc::new(
                    crate::action::Expr::NumConst { value: Scalar { raw: 2_000_000_000 } },
                ),
            },
        );
        body.push(Action::AsActor { name: "Mars".to_owned(), script: Arc::new(inner) });
        body.push(Action::ListenFor { head: "arrived".to_owned(), args: Arc::new(listen_args) });
        body.push(Action::Halt);
        Script { body: Arc::new(body) }
    }
}

} // verus!
