use std::sync::Arc;

use histrion::Workspace;
use histrion::action::Action;
use histrion::script::{TimeExpr, TimeUnit};
use histrion::num::Scalar;
use histrion::time::Interval;

#[test]
fn example_script() {
    let script = vec![
        Action::Spawn { name: "Mars".to_owned() },
        Action::AsActor {
            name: "Mars".to_owned(),
            script: Arc::new(vec![
                Action::Wait {
                    interval: Interval::from(TimeExpr::Constant {
                        number: Scalar::of_int(1),
                        unit: TimeUnit::Hour,
                    }),
                },
                Action::Transmit { head: "arrived".to_owned(), args: Arc::new(vec![]) },
            ]),
        },
        Action::ListenFor { head: "arrived".to_owned(), args: Arc::new(vec![]) },
        Action::Halt,
    ];

    let mut workspace = Workspace::new();
    workspace.perform(Arc::new(script)).unwrap();
    workspace.simulate().unwrap();

    assert!(workspace.has_halted());
    // the rendezvous happened exactly one hour in
    assert_eq!(workspace.now.raw(), 3600 * 1_000_000_000);
}
