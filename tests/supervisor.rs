use ollama_bridge::supervisor::{Supervisor, SupervisorAction};

fn run(max_attempts: u32, probes: &[bool]) -> Vec<SupervisorAction> {
    let mut s = Supervisor::new(max_attempts);
    let mut out = Vec::new();
    for &up in probes {
        if s.is_done() {
            break;
        }
        out.push(s.on_probe(up));
    }
    out
}

#[test]
fn reachable_daemon_is_never_spawned() {
    let actions = run(20, &[true, false, false]);
    assert_eq!(actions, vec![SupervisorAction::Finish(true)]);
    let spawns = actions.iter().filter(|a| **a == SupervisorAction::SpawnThenProbe).count();
    assert_eq!(spawns, 0);
}

#[test]
fn unreachable_daemon_gives_up_after_configured_attempts() {
    let actions = run(20, &[false; 40]);
    assert_eq!(actions.len(), 21);
    assert_eq!(actions[0], SupervisorAction::SpawnThenProbe);
    let waits = actions.iter().filter(|a| **a == SupervisorAction::WaitThenProbe).count();
    assert_eq!(waits, 19);
    assert_eq!(actions[20], SupervisorAction::Finish(false));
}

#[test]
fn daemon_that_comes_up_ends_supervision() {
    let actions = run(5, &[false, false, false, true, false]);
    assert_eq!(
        actions,
        vec![
            SupervisorAction::SpawnThenProbe,
            SupervisorAction::WaitThenProbe,
            SupervisorAction::WaitThenProbe,
            SupervisorAction::Finish(true),
        ]
    );
}

#[test]
fn single_attempt_and_zero_attempts() {
    assert_eq!(
        run(1, &[false, false, false]),
        vec![SupervisorAction::SpawnThenProbe, SupervisorAction::Finish(false)]
    );
    assert_eq!(run(0, &[false, false]), vec![SupervisorAction::Finish(false)]);
}
