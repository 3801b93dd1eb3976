use std::sync::Arc;

use histrion::Workspace;
use histrion::Trajectory;
use histrion::action::{Action, ActorHandle, Expr, Method, Vector};
use histrion::num::Scalar;
use histrion::script::{TimeExpr, TimeUnit};
use histrion::time::Interval;

const SEC: i64 = 1_000_000_000;

fn lookup(w: &Workspace, name: &str) -> ActorHandle {
    for (n, h) in w.globals.iter() {
        if n == name {
            return *h;
        }
    }
    panic!("no global named {}", name);
}

fn var(name: &str) -> Expr {
    Expr::Var { name: name.to_owned() }
}

fn field(subject: Expr, name: &str) -> Expr {
    Expr::Field { subject: Arc::new(subject), field_name: name.to_owned() }
}

fn num(raw: i64) -> Expr {
    Expr::NumConst { value: Scalar::from_raw(raw) }
}

fn accel(x_raw: i64) -> Vector {
    Vector { x: Scalar::from_raw(x_raw), y: Scalar::from_raw(0), z: Scalar::from_raw(0) }
}

fn wait_secs(secs: i32) -> Action {
    Action::Wait { interval: Interval::from_secs(secs) }
}

#[test]
fn spawn_wait_halt() {
    // Spawn Mars; Mars waits an hour then transmits; the supervisor
    // listens for the arrival and halts.
    let script = vec![
        Action::Spawn { name: "Mars".to_owned() },
        Action::AsActor {
            name: "Mars".to_owned(),
            script: Arc::new(vec![
                Action::Wait {
                    interval: Interval::from(TimeExpr::Constant {
                        number: Scalar::of_int(1),
                        unit: TimeUnit::Hour,
                    }),
                },
                Action::Transmit { head: "arrived".to_owned(), args: Arc::new(vec![]) },
            ]),
        },
        Action::ListenFor { head: "arrived".to_owned(), args: Arc::new(vec![]) },
        Action::Halt,
    ];
    let mut w = Workspace::new();
    w.perform(Arc::new(script)).unwrap();
    w.simulate().unwrap();
    assert!(w.has_halted());
    assert_eq!(w.now.raw(), 3600 * SEC);
    // Mars never accelerated: its trajectory is still fixed at the origin
    let mars = lookup(&w, "Mars");
    match w.actors[mars.idx].trajectory {
        Some(Trajectory::Fixed { value }) => {
            assert_eq!(value.0.x.raw, 0);
            assert_eq!(value.0.y.raw, 0);
            assert_eq!(value.0.z.raw, 0);
        },
        other => panic!("unexpected trajectory {:?}", other),
    }
}

#[test]
fn linear_motion() {
    // Accelerate Mars away and then back; the traced positions follow
    // the kinematic formula exactly.
    let self_x = field(field(Expr::Myself, "position"), "x");
    let script = vec![
        Action::Spawn { name: "Mars".to_owned() },
        Action::AsActor {
            name: "Mars".to_owned(),
            script: Arc::new(vec![
                Action::SetAccel { value: accel(10_000) },  // 1e-5 c/s
                wait_secs(1800),
                Action::Trace { expr: Arc::new(self_x.clone()) },
                Action::SetAccel { value: accel(-10_000) },
                wait_secs(1800),
                Action::Trace { expr: Arc::new(self_x) },
            ]),
        },
    ];
    let mut w = Workspace::new();
    w.perform(Arc::new(script)).unwrap();
    w.simulate().unwrap();
    assert!(w.has_halted());
    // x(1800) = 0.5 * 1e-5 * 1800^2 = 16.2 light-seconds
    assert!(w.log.iter().any(|l| l == "\t> self.position.x = 16.2"));
    // x(3600) = 16.2 + 0.018 * 1800 - 0.5 * 1e-5 * 1800^2 = 32.4
    assert!(w.log.iter().any(|l| l == "\t> self.position.x = 32.4"));
    // nothing left to do afterwards: a synthetic halt one second later
    assert_eq!(w.now.raw(), 3601 * SEC);
}

#[test]
fn rendezvous_ordering() {
    // Two listeners for the same signal wake in the order they began
    // listening, within the same instant.
    let script = vec![
        Action::Spawn { name: "Ann".to_owned() },
        Action::Spawn { name: "Ben".to_owned() },
        Action::AsActor {
            name: "Ann".to_owned(),
            script: Arc::new(vec![
                Action::ListenFor { head: "ping".to_owned(), args: Arc::new(vec![]) },
                Action::Trace { expr: Arc::new(num(SEC)) },
            ]),
        },
        Action::AsActor {
            name: "Ben".to_owned(),
            script: Arc::new(vec![
                Action::ListenFor { head: "ping".to_owned(), args: Arc::new(vec![]) },
                Action::Trace { expr: Arc::new(num(2 * SEC)) },
            ]),
        },
        Action::Transmit { head: "ping".to_owned(), args: Arc::new(vec![]) },
    ];
    let mut w = Workspace::new();
    w.perform(Arc::new(script)).unwrap();
    w.simulate().unwrap();
    let first = w.log.iter().position(|l| l == "\t> 1 = 1").expect("first wake missing");
    let second = w.log.iter().position(|l| l == "\t> 2 = 2").expect("second wake missing");
    assert!(first < second);
    // both woke at the transmit instant; the synthetic halt came a second later
    assert_eq!(w.now.raw(), SEC);
}

#[test]
fn method_call() {
    // Define m(x) { trace x }, call it with 7, and continue afterwards
    // in the calling frame.
    let body = Method::new(
        vec!["x".to_owned()],
        Arc::new(vec![
            Action::Trace { expr: Arc::new(var("x")) },
            Action::Return,
        ]),
    );
    let script = vec![
        Action::DefGlobalMethod { name: "m".to_owned(), body: Arc::new(body) },
        Action::Call { name: "m".to_owned(), args: Arc::new(vec![num(7 * SEC)]) },
        Action::Trace { expr: Arc::new(num(5 * SEC)) },
        Action::Halt,
    ];
    let mut w = Workspace::new();
    w.perform(Arc::new(script)).unwrap();
    assert!(w.has_halted());
    let inside = w.log.iter().position(|l| l == "\t> x = 7").expect("call trace missing");
    let after = w.log.iter().position(|l| l == "\t> 5 = 5").expect("resume trace missing");
    assert!(inside < after);
}

#[test]
fn field_access() {
    // A non-zero acceleration for ten seconds; the traced field value is
    // the analytic position: 0.5 * 1e-5 * 100 = 0.0005 light-seconds.
    let mars_x = field(field(var("Mars"), "position"), "x");
    let script = vec![
        Action::Spawn { name: "Mars".to_owned() },
        Action::AsActor {
            name: "Mars".to_owned(),
            script: Arc::new(vec![
                Action::SetAccel { value: accel(10_000) },
                wait_secs(10),
                Action::Trace { expr: Arc::new(mars_x) },
            ]),
        },
    ];
    let mut w = Workspace::new();
    w.perform(Arc::new(script)).unwrap();
    w.simulate().unwrap();
    assert!(w.log.iter().any(|l| l == "\t> Mars.position.x = 0.0005"));
}

#[test]
fn empty_agenda_halt() {
    // Simulating an empty world executes exactly one synthetic halt at
    // one second.
    let mut w = Workspace::new();
    w.simulate().unwrap();
    assert!(w.has_halted());
    assert_eq!(w.now.raw(), SEC);
    assert_eq!(w.log.len(), 1);
    assert_eq!(w.log[0], "1       : halt");
}

#[test]
fn empty_script_like_synthetic_halt() {
    // Running an empty script first changes nothing: the outcome is the
    // same synthetic halt.
    let mut w1 = Workspace::new();
    w1.perform(Arc::new(vec![])).unwrap();
    w1.simulate().unwrap();
    let mut w2 = Workspace::new();
    w2.simulate().unwrap();
    assert_eq!(w1.now.raw(), w2.now.raw());
    assert_eq!(w1.has_halted(), w2.has_halted());
    assert_eq!(w1.log, w2.log);
}

#[test]
fn set_accel_zero_twice_is_fixed() {
    // SetAccel(0) twice on an actor at rest collapses to a Fixed
    // trajectory at the current position.
    let script = vec![
        Action::Spawn { name: "Rock".to_owned() },
        Action::AsActor {
            name: "Rock".to_owned(),
            script: Arc::new(vec![
                Action::SetAccel { value: accel(0) },
                Action::SetAccel { value: accel(0) },
            ]),
        },
        Action::Halt,
    ];
    let mut w = Workspace::new();
    w.perform(Arc::new(script)).unwrap();
    let rock = lookup(&w, "Rock");
    match w.actors[rock.idx].trajectory {
        Some(Trajectory::Fixed { value }) => {
            assert_eq!(value.0.x.raw, 0);
        },
        other => panic!("unexpected trajectory {:?}", other),
    }
}

#[test]
fn transmit_consumes_listener() {
    // After the transmit, the listener table no longer holds the entry,
    // and transmitting again wakes nobody.
    let script = vec![
        Action::Spawn { name: "Ann".to_owned() },
        Action::AsActor {
            name: "Ann".to_owned(),
            script: Arc::new(vec![
                Action::ListenFor { head: "ping".to_owned(), args: Arc::new(vec![]) },
                Action::Trace { expr: Arc::new(num(SEC)) },
            ]),
        },
        Action::Transmit { head: "ping".to_owned(), args: Arc::new(vec![]) },
    ];
    let mut w = Workspace::new();
    w.perform(Arc::new(script)).unwrap();
    let ann = lookup(&w, "Ann");
    assert_eq!(w.actors[ann.idx].agenda.listening.len(), 0);
    assert!(w.actors[ann.idx].agenda.next.is_some());
    w.simulate().unwrap();
    // woken exactly once
    assert_eq!(w.log.iter().filter(|l| *l == "\t> 1 = 1").count(), 1);
}

#[test]
fn guids_increase_across_waits() {
    // Each wait draws a fresh guid; the counter grows by one per parked
    // task.
    let script = vec![
        Action::Spawn { name: "Ann".to_owned() },
        Action::AsActor {
            name: "Ann".to_owned(),
            script: Arc::new(vec![wait_secs(1)]),
        },
        Action::ListenFor { head: "x".to_owned(), args: Arc::new(vec![]) },
    ];
    let mut w = Workspace::new();
    assert_eq!(w.task_counter, 0);
    w.perform(Arc::new(script)).unwrap();
    assert_eq!(w.task_counter, 2);
    let ann = lookup(&w, "Ann");
    match &w.actors[ann.idx].agenda.next {
        Some(t) => assert_eq!(t.token.guid, 0),
        None => panic!("Ann should be parked"),
    }
    let sup = lookup(&w, "Everything");
    assert_eq!(w.actors[sup.idx].agenda.listening.len(), 1);
    assert_eq!(w.actors[sup.idx].agenda.listening[0].1.guid, 1);
}

#[test]
fn update_on_empty_world_synthesizes_halt() {
    let mut w = Workspace::new();
    w.update().unwrap();
    assert!(w.has_halted());
    assert_eq!(w.now.raw(), SEC);
}

#[test]
fn halt_script_stops_the_world() {
    let mut w = Workspace::new();
    w.perform(Arc::new(vec![Action::Halt])).unwrap();
    assert!(w.has_halted());
    assert_eq!(w.now.raw(), 0);
    assert_eq!(w.log.len(), 1);
    assert_eq!(w.log[0], "0       : halt");
}

#[test]
fn nested_suspension_does_not_pause_outer() {
    // A Wait inside AsActor parks only the nested fiber; the outer script
    // continues in the same instant and halts before the wait ever fires.
    let script = vec![
        Action::Spawn { name: "Io".to_owned() },
        Action::AsActor {
            name: "Io".to_owned(),
            script: Arc::new(vec![wait_secs(5), Action::Trace { expr: Arc::new(num(2 * SEC)) }]),
        },
        Action::Trace { expr: Arc::new(num(SEC)) },
        Action::Halt,
    ];
    let mut w = Workspace::new();
    w.perform(Arc::new(script)).unwrap();
    assert!(w.has_halted());
    assert_eq!(w.now.raw(), 0);
    assert!(w.log.iter().any(|l| l == "\t> 1 = 1"));
    assert!(!w.log.iter().any(|l| l == "\t> 2 = 2"));
    // the world halts without dispatching the parked fiber
    w.simulate().unwrap();
    assert!(!w.log.iter().any(|l| l == "\t> 2 = 2"));
}

#[test]
fn second_listener_for_same_signal_overwrites() {
    // Listening again for the same signal on the same actor replaces the
    // earlier listener; only the later fiber wakes.
    let script = vec![
        Action::Spawn { name: "Io".to_owned() },
        Action::AsActor {
            name: "Io".to_owned(),
            script: Arc::new(vec![
                Action::ListenFor { head: "ping".to_owned(), args: Arc::new(vec![]) },
                Action::Trace { expr: Arc::new(num(SEC)) },
            ]),
        },
        Action::AsActor {
            name: "Io".to_owned(),
            script: Arc::new(vec![
                Action::ListenFor { head: "ping".to_owned(), args: Arc::new(vec![]) },
                Action::Trace { expr: Arc::new(num(2 * SEC)) },
            ]),
        },
        Action::Transmit { head: "ping".to_owned(), args: Arc::new(vec![]) },
    ];
    let mut w = Workspace::new();
    w.perform(Arc::new(script)).unwrap();
    let io = lookup(&w, "Io");
    assert_eq!(w.actors[io.idx].agenda.listening.len(), 0);
    w.simulate().unwrap();
    assert!(!w.log.iter().any(|l| l == "\t> 1 = 1"));
    assert!(w.log.iter().any(|l| l == "\t> 2 = 2"));
}

#[test]
fn fulfilled_listener_replaces_pending_wait() {
    // When a transmit wakes a listener whose actor already has a queued
    // task, the fulfilled task replaces it: last writer wins.
    let script = vec![
        Action::Spawn { name: "Io".to_owned() },
        Action::AsActor {
            name: "Io".to_owned(),
            script: Arc::new(vec![wait_secs(100), Action::Trace { expr: Arc::new(num(SEC)) }]),
        },
        Action::AsActor {
            name: "Io".to_owned(),
            script: Arc::new(vec![
                Action::ListenFor { head: "ping".to_owned(), args: Arc::new(vec![]) },
                Action::Trace { expr: Arc::new(num(2 * SEC)) },
            ]),
        },
        Action::Transmit { head: "ping".to_owned(), args: Arc::new(vec![]) },
    ];
    let mut w = Workspace::new();
    w.perform(Arc::new(script)).unwrap();
    w.simulate().unwrap();
    assert!(!w.log.iter().any(|l| l == "\t> 1 = 1"));
    assert!(w.log.iter().any(|l| l == "\t> 2 = 2"));
    // the replaced wait never fires, so the world halted at one second
    assert_eq!(w.now.raw(), SEC);
}

#[test]
fn long_instants_print_unpadded() {
    let script = vec![wait_secs(12_345_678), Action::Halt];
    let mut w = Workspace::new();
    w.perform(Arc::new(script)).unwrap();
    w.simulate().unwrap();
    assert_eq!(w.now.raw(), 12_345_678 * SEC);
    assert_eq!(w.log.last().unwrap(), "12345678: halt");
}

#[test]
fn halt_stops_the_fiber() {
    // The dispatch loop exits when the fiber executes Halt: actions
    // after it in the same fiber never run.
    let script = vec![
        Action::Halt,
        Action::Trace { expr: Arc::new(num(SEC)) },
    ];
    let mut w = Workspace::new();
    w.perform(Arc::new(script)).unwrap();
    assert!(w.has_halted());
    assert_eq!(w.log.len(), 1);
    assert_eq!(w.log[0], "0       : halt");
    assert!(!w.log.iter().any(|l| l == "\t> 1 = 1"));
}
