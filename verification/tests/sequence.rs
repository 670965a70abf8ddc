use knockprobe::opts::{Opts, Target};
use knockprobe::schedule::{schedule, Sequencer};

#[test]
fn disabled_global_sleep_changes_nothing() {
    let actions = vec![
        Target::Tcp { port: 80 },
        Target::Udp { port: 53 },
        Target::Sleep { secs: 2 },
        Target::Tcp { port: 443 },
        Target::Tcp { port: 8080 },
    ];
    assert_eq!(schedule(&actions, 0), actions);
}

#[test]
fn global_sleep_runs_between_two_probes() {
    let actions = vec![Target::Tcp { port: 80 }, Target::Tcp { port: 443 }];
    assert_eq!(
        schedule(&actions, 5),
        vec![
            Target::Tcp { port: 80 },
            Target::Sleep { secs: 5 },
            Target::Tcp { port: 443 },
        ]
    );
}

#[test]
fn explicit_sleep_suppresses_global_sleep() {
    let actions = vec![
        Target::Tcp { port: 80 },
        Target::Sleep { secs: 2 },
        Target::Tcp { port: 443 },
    ];
    assert_eq!(schedule(&actions, 5), actions);
}

#[test]
fn no_global_sleep_before_first_action() {
    let actions = vec![Target::Sleep { secs: 1 }, Target::Tcp { port: 80 }];
    assert_eq!(schedule(&actions, 5), actions);
}

#[test]
fn probe_kinds_both_count_as_probes() {
    let actions = vec![Target::Udp { port: 53 }, Target::Tcp { port: 80 }];
    assert_eq!(
        schedule(&actions, 3),
        vec![
            Target::Udp { port: 53 },
            Target::Sleep { secs: 3 },
            Target::Tcp { port: 80 },
        ]
    );
}

#[test]
fn longer_mixed_run() {
    let actions = vec![
        Target::Tcp { port: 80 },
        Target::Tcp { port: 443 },
        Target::Sleep { secs: 1 },
        Target::Udp { port: 53 },
        Target::Udp { port: 123 },
    ];
    assert_eq!(
        schedule(&actions, 4),
        vec![
            Target::Tcp { port: 80 },
            Target::Sleep { secs: 4 },
            Target::Tcp { port: 443 },
            Target::Sleep { secs: 1 },
            Target::Udp { port: 53 },
            Target::Sleep { secs: 4 },
            Target::Udp { port: 123 },
        ]
    );
}

#[test]
fn empty_action_list_gives_empty_schedule() {
    let actions: Vec<Target> = vec![];
    assert_eq!(schedule(&actions, 5), vec![]);
    assert_eq!(schedule(&actions, 0), vec![]);
}

#[test]
fn sequencer_inserts_only_between_probes() {
    let mut s = Sequencer::new(5);
    // First action: never preceded by a global sleep.
    assert!(!s.advance(&Target::Tcp { port: 80 }));
    // Probe right after a probe: sleep inserted.
    assert!(s.advance(&Target::Tcp { port: 443 }));
    // Explicit sleep: never preceded by a global sleep.
    assert!(!s.advance(&Target::Sleep { secs: 2 }));
    // Probe right after an explicit sleep: suppressed.
    assert!(!s.advance(&Target::Udp { port: 53 }));
    // Probe after a probe again.
    assert!(s.advance(&Target::Udp { port: 123 }));
}

#[test]
fn sequencer_disabled_never_inserts() {
    let mut s = Sequencer::new(0);
    assert!(!s.advance(&Target::Tcp { port: 80 }));
    assert!(!s.advance(&Target::Tcp { port: 443 }));
    assert!(!s.advance(&Target::Sleep { secs: 2 }));
    assert!(!s.advance(&Target::Tcp { port: 22 }));
}

#[test]
fn is_sleep_is_true_for_probes_only() {
    // Despite its name, is_sleep answers "is this a probe?".
    assert!(Target::Tcp { port: 80 }.is_sleep());
    assert!(Target::Udp { port: 53 }.is_sleep());
    assert!(!Target::Sleep { secs: 1 }.is_sleep());
}

#[test]
fn opts_holds_a_run_configuration() {
    let opts = Opts {
        global_sleep: 5,
        dst: "192.0.2.1".to_string(),
        targets: vec![Target::Tcp { port: 80 }, Target::Tcp { port: 443 }],
    };
    assert_eq!(opts.targets.len(), 2);
    assert_eq!(
        schedule(&opts.targets, opts.global_sleep),
        vec![
            Target::Tcp { port: 80 },
            Target::Sleep { secs: 5 },
            Target::Tcp { port: 443 },
        ]
    );
}
