use std::sync::Arc;

use histrion::Workspace;
use histrion::Error;
use histrion::position_value;
use histrion::Position;
use histrion::action::{value_eq, Action, Expr, Method, Signal, Value, Vector};
use histrion::action::script_is_wf;
use histrion::num::Scalar;
use histrion::pretty_print::{fmt_actor_name, render_action, render_value};
use histrion::script::{AccelUnit, LenUnit, Script, TimeExpr, TimeUnit, VelocityUnit};
use histrion::time::{Instant, Interval};

const SEC: i64 = 1_000_000_000;

#[test]
fn scalar_arithmetic_is_exact() {
    let a = Scalar::from_raw(2_500_000_000); // 2.5
    let b = Scalar::of_int(4);
    assert_eq!(a.mul_fx(b).raw, 10 * SEC);
    assert_eq!(a.add_sat(b).raw, 6_500_000_000);
    assert_eq!(b.sub_sat(a).raw, 1_500_000_000);
    assert_eq!(Scalar::from_raw(-3).half().raw, -1); // truncates toward zero
    assert_eq!(Scalar::from_raw(1).mul_fx(Scalar::from_raw(1)).raw, 0);
}

#[test]
fn scalar_arithmetic_saturates() {
    let top = Scalar::from_raw(i64::MAX);
    assert_eq!(top.add_sat(Scalar::of_int(1)).raw, i64::MAX);
    let bottom = Scalar::from_raw(i64::MIN);
    assert_eq!(bottom.sub_sat(Scalar::of_int(1)).raw, i64::MIN);
    assert_eq!(top.mul_fx(top).raw, i64::MAX);
}

#[test]
fn time_units() {
    assert_eq!(TimeUnit::Sec.secs(), 1);
    assert_eq!(TimeUnit::Min.secs(), 60);
    assert_eq!(TimeUnit::Hour.secs(), 3600);
    assert_eq!(TimeUnit::Day.secs(), 86400);
    assert_eq!(TimeUnit::Week.secs(), 604800);
    assert_eq!(TimeUnit::Year.secs(), 31_556_952);
    assert_eq!(AccelUnit::CeePerSec.factor().raw, SEC);
    assert_eq!(AccelUnit::Gee.factor().raw, 33);
    // half an hour is exactly 1800 seconds
    let half_hour = TimeExpr::Constant {
        number: Scalar::from_raw(500_000_000),
        unit: TimeUnit::Hour,
    };
    assert_eq!(Interval::from(half_hour).raw(), 1800 * SEC);
}

#[test]
fn instants_and_intervals() {
    let t0 = Instant::origin();
    let t1 = t0.plus(Interval::from_secs(90));
    assert_eq!(t1.raw(), 90 * SEC);
    assert_eq!(t0.delta(t1).raw(), 90 * SEC);
    assert_eq!(t1.delta(t0).raw(), -90 * SEC);
    assert_eq!(Interval::one().raw(), SEC);
    assert_eq!(Instant::default().raw(), 0);
}

#[test]
fn value_equality_is_structural() {
    let p = position_value(Position(Vector {
        x: Scalar::of_int(1),
        y: Scalar::from_raw(2_500_000_000),
        z: Scalar::from_raw(0),
    }));
    let q = position_value(Position(Vector {
        x: Scalar::of_int(1),
        y: Scalar::from_raw(2_500_000_000),
        z: Scalar::from_raw(0),
    }));
    let r = position_value(Position(Vector {
        x: Scalar::of_int(1),
        y: Scalar::from_raw(2_500_000_001),
        z: Scalar::from_raw(0),
    }));
    assert!(value_eq(&p, &q));
    assert!(!value_eq(&p, &r));
    assert!(!value_eq(&p, &Value::Num(Scalar::of_int(1))));
    let s1 = Signal { head: "ping".to_owned(), body: Arc::new(vec![p]) };
    let s2 = Signal { head: "ping".to_owned(), body: Arc::new(vec![q]) };
    assert!(histrion::action::signal_eq(&s1, &s2));
}

#[test]
fn rendering() {
    assert_eq!(fmt_actor_name("Mars"), "Mars");
    assert_eq!(fmt_actor_name("Jolly Roger"), "[Jolly Roger]");
    let v = position_value(Position(Vector {
        x: Scalar::of_int(1),
        y: Scalar::from_raw(2_500_000_000),
        z: Scalar::from_raw(-500_000),
    }));
    assert_eq!(render_value(&v), "{ x = 1; y = 2.5; z = -0.0005; }");
    assert_eq!(render_value(&Value::ActorId(histrion::action::ActorHandle { idx: 3 })), "Entity(3)");
    assert_eq!(render_action(&Action::Halt), "halt");
    assert_eq!(
        render_action(&Action::Wait { interval: Interval::from_secs(3600) }),
        "wait 3600sec"
    );
    assert_eq!(
        render_action(&Action::Spawn { name: "Jolly Roger".to_owned() }),
        "spawn [Jolly Roger]"
    );
}

#[test]
fn pretty_print_scripts() {
    let script = Script::new(Arc::new(vec![Action::Halt]));
    assert_eq!(script.pretty_print(), "halt\n\n");
    let nested = Script::new(Arc::new(vec![Action::AsActor {
        name: "Mars".to_owned(),
        script: Arc::new(vec![Action::Halt]),
    }]));
    assert_eq!(nested.pretty_print(), "as Mars do\n    halt\ndone\n\n");
}

#[test]
fn default_script_shape() {
    let script = Script::default();
    assert_eq!(script.into_inner().len(), 5);
}

#[test]
fn script_wf_rejects_negative_waits() {
    let good = vec![Action::Wait { interval: Interval::from_secs(5) }];
    assert!(script_is_wf(&good));
    let bad = vec![Action::AsActor {
        name: "Mars".to_owned(),
        script: Arc::new(vec![Action::Wait { interval: Interval::from_raw(-1) }]),
    }];
    assert!(!script_is_wf(&bad));
}

#[test]
fn error_no_such_global() {
    let mut w = Workspace::new();
    let r = w.perform(Arc::new(vec![Action::AsActor {
        name: "Nobody".to_owned(),
        script: Arc::new(vec![]),
    }]));
    assert!(matches!(r, Err(Error::NoSuchGlobal { name }) if name == "Nobody"));

    let mut w2 = Workspace::new();
    let r2 = w2.perform(Arc::new(vec![Action::Trace {
        expr: Arc::new(Expr::Var { name: "nope".to_owned() }),
    }]));
    assert!(matches!(r2, Err(Error::NoSuchGlobal { name }) if name == "nope"));
}

#[test]
fn error_no_such_field() {
    let mut w = Workspace::new();
    let r = w.perform(Arc::new(vec![Action::Trace {
        expr: Arc::new(Expr::Field {
            subject: Arc::new(Expr::Myself),
            field_name: "x".to_owned(),
        }),
    }]));
    assert!(matches!(r, Err(Error::NoSuchField { name, .. }) if name == "x"));
}

#[test]
fn error_no_such_method_and_arity() {
    let mut w = Workspace::new();
    let r = w.perform(Arc::new(vec![Action::Call {
        name: "m".to_owned(),
        args: Arc::new(vec![]),
    }]));
    assert!(matches!(r, Err(Error::NoSuchMethod { name }) if name == "m"));

    let mut w2 = Workspace::new();
    let def = Action::DefGlobalMethod {
        name: "m".to_owned(),
        body: Arc::new(Method::new(vec!["x".to_owned()], Arc::new(vec![Action::Return]))),
    };
    let call = Action::Call { name: "m".to_owned(), args: Arc::new(vec![]) };
    let r2 = w2.perform(Arc::new(vec![def, call]));
    assert!(matches!(
        r2,
        Err(Error::ArgListMismatch { name, wanted: 1, got: 0 }) if name == "m"
    ));
}

#[test]
fn error_could_not_write() {
    // the supervisor was never given a trajectory, so accelerating it
    // cannot write one back
    let mut w = Workspace::new();
    let r = w.perform(Arc::new(vec![Action::SetAccel {
        value: Vector { x: Scalar::of_int(1), y: Scalar::from_raw(0), z: Scalar::from_raw(0) },
    }]));
    assert!(matches!(r, Err(Error::CouldNotWrite { component: "Trajectory" })));
}

#[test]
fn die_marks_dead_but_keeps_actor() {
    let mut w = Workspace::new();
    w.perform(Arc::new(vec![
        Action::Spawn { name: "Moth".to_owned() },
        Action::AsActor { name: "Moth".to_owned(), script: Arc::new(vec![Action::Die]) },
        Action::Halt,
    ]))
    .unwrap();
    let mut found = false;
    for (n, h) in w.globals.iter() {
        if n == "Moth" {
            found = true;
            assert!(matches!(w.actors[h.idx].liveness, Some(histrion::Liveness::Dead)));
            assert!(w.actors[h.idx].trajectory.is_some());
        }
    }
    assert!(found);
}

#[test]
fn write_local_shadows_global() {
    // a local binding wins over a global of the same name
    let mut w = Workspace::new();
    w.perform(Arc::new(vec![
        Action::WriteLocal {
            name: "Everything".to_owned(),
            value: Arc::new(Expr::NumConst { value: Scalar::of_int(9) }),
        },
        Action::Trace { expr: Arc::new(Expr::Var { name: "Everything".to_owned() }) },
        Action::Halt,
    ]))
    .unwrap();
    assert!(w.log.iter().any(|l| l == "\t> Everything = 9"));
}

#[test]
fn decimal_rendering_edges() {
    assert_eq!(render_value(&Value::Num(Scalar::from_raw(1))), "0.000000001");
    assert_eq!(render_value(&Value::Num(Scalar::from_raw(SEC))), "1");
    assert_eq!(render_value(&Value::Num(Scalar::from_raw(-2_000_000_001))), "-2.000000001");
    assert_eq!(render_value(&Value::Num(Scalar::from_raw(100_000_000))), "0.1");
    assert_eq!(render_value(&Value::Num(Scalar::from_raw(0))), "0");
}

#[test]
fn measurement_vocabulary() {
    // positions are in light-seconds, velocities in c
    assert!(matches!(LenUnit::LightSec, LenUnit::LightSec));
    assert!(matches!(VelocityUnit::Cee, VelocityUnit::Cee));
}

#[test]
fn year_interval() {
    let year = TimeExpr::Constant { number: Scalar::of_int(1), unit: TimeUnit::Year };
    assert_eq!(Interval::from(year).raw(), 31_556_952 * SEC);
}
