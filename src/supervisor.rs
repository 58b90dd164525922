//! Start-up supervision of the daemon: probe it, start it once if it is not
//! up, then probe again on a fixed schedule until it answers or the attempts
//! run out. The caller performs each action and reports each probe.
use vstd::prelude::*;

verus! {

/// What the caller does next.
#[derive(PartialEq, Eq, Structural, Clone, Copy, Debug)]
pub enum SupervisorAction {
    /// Start the daemon in the background, then probe again at once.
    SpawnThenProbe,
    /// Wait one interval, then probe again.
    WaitThenProbe,
    /// Stop: the daemon is ready (`true`) or did not come up (`false`).
    Finish(bool),
}

/// What a supervisor holds, as plain values.
pub struct SupervisorView {
    /// Probes allowed after the daemon was started.
    pub max_attempts: nat,
    /// Probes made since the daemon was started.
    pub attempts: nat,
    pub spawned: bool,
    pub done: bool,
}

impl SupervisorView {
    /// The counters stay within the allowed attempts.
    pub open spec fn wf(self) -> bool {
        &&& self.attempts <= self.max_attempts
        &&& self.spawned && !self.done ==> self.attempts < self.max_attempts
        &&& !self.spawned ==> self.attempts == 0
    }
}

/// The state before the first probe.
pub open spec fn supervisor_init(max_attempts: nat) -> SupervisorView {
    SupervisorView { max_attempts, attempts: 0, spawned: false, done: false }
}

/// One decision: the state and the action that follow a probe whose result
/// is `up`.
pub open spec fn supervise_step(st: SupervisorView, up: bool) -> (SupervisorView, SupervisorAction) {
    if up {
        (SupervisorView { done: true, ..st }, SupervisorAction::Finish(true))
    } else if !st.spawned {
        if st.max_attempts == 0 {
            (SupervisorView { done: true, ..st }, SupervisorAction::Finish(false))
        } else {
            (SupervisorView { spawned: true, ..st }, SupervisorAction::SpawnThenProbe)
        }
    } else if st.attempts + 1 >= st.max_attempts {
        (
            SupervisorView { attempts: st.attempts + 1, done: true, ..st },
            SupervisorAction::Finish(false),
        )
    } else {
        (SupervisorView { attempts: st.attempts + 1, ..st }, SupervisorAction::WaitThenProbe)
    }
}

/// The actions taken over a series of probe results, up to the first
/// `Finish`.
pub open spec fn supervise_run(st: SupervisorView, probes: Seq<bool>) -> Seq<SupervisorAction>
    decreases probes.len(),
{
    if probes.len() == 0 || st.done {
        seq![]
    } else {
        let (next, action) = supervise_step(st, probes[0]);
        seq![action] + supervise_run(next, probes.drop_first())
    }
}

/// Idempotence: when the first probe finds the daemon up, supervision ends
/// at once with `true`, and never starts the daemon.
pub proof fn lemma_ready_daemon_not_spawned(max_attempts: nat, probes: Seq<bool>)
    requires
        probes.len() > 0,
        probes[0],
    ensures
        supervise_run(supervisor_init(max_attempts), probes) == seq![SupervisorAction::Finish(true)],
        forall|i: int|
            0 <= i < supervise_run(supervisor_init(max_attempts), probes).len() ==> !(
            #[trigger] supervise_run(supervisor_init(max_attempts), probes)[i] is SpawnThenProbe),
{
    let st = supervisor_init(max_attempts);
    let next = supervise_step(st, true).0;
    assert(supervise_run(next, probes.drop_first()) == Seq::<SupervisorAction>::empty());
    assert(supervise_run(st, probes) =~= seq![SupervisorAction::Finish(true)]);
}

proof fn lemma_retries_exhaust(st: SupervisorView, probes: Seq<bool>)
    requires
        st.wf(),
        st.spawned,
        !st.done,
        probes.len() >= st.max_attempts - st.attempts,
        forall|i: int| 0 <= i < probes.len() ==> !#[trigger] probes[i],
    ensures
        supervise_run(st, probes).len() == st.max_attempts - st.attempts,
        supervise_run(st, probes).last() == SupervisorAction::Finish(false),
        forall|i: int|
            0 <= i < supervise_run(st, probes).len() - 1 ==> #[trigger] supervise_run(st, probes)[i]
                == SupervisorAction::WaitThenProbe,
    decreases st.max_attempts - st.attempts,
{
    let (next, action) = supervise_step(st, probes[0]);
    let rest = probes.drop_first();
    let run = supervise_run(st, probes);
    if st.attempts + 1 >= st.max_attempts {
        assert(supervise_run(next, rest) == Seq::<SupervisorAction>::empty());
        assert(run =~= seq![SupervisorAction::Finish(false)]);
    } else {
        lemma_retries_exhaust(next, rest);
        let tail = supervise_run(next, rest);
        assert(run == seq![SupervisorAction::WaitThenProbe] + tail);
        assert forall|i: int| 0 <= i < run.len() - 1 implies #[trigger] run[i]
            == SupervisorAction::WaitThenProbe by {
            if i > 0 {
                assert(run[i] == tail[i - 1]);
            }
        }
    }
}

/// Bounded retry: when no probe ever succeeds, supervision starts the
/// daemon once, waits between the configured number of attempts, and ends
/// with `false` after exactly that many probes past the first.
pub proof fn lemma_never_ready_gives_up(max_attempts: nat, probes: Seq<bool>)
    requires
        probes.len() > max_attempts,
        forall|i: int| 0 <= i < probes.len() ==> !#[trigger] probes[i],
    ensures
        supervise_run(supervisor_init(max_attempts), probes).len() == max_attempts + 1,
        supervise_run(supervisor_init(max_attempts), probes)[max_attempts as int]
            == SupervisorAction::Finish(false),
        max_attempts > 0 ==> supervise_run(supervisor_init(max_attempts), probes)[0]
            == SupervisorAction::SpawnThenProbe,
        forall|i: int|
            0 < i < max_attempts ==> #[trigger] supervise_run(supervisor_init(max_attempts), probes)[i]
                == SupervisorAction::WaitThenProbe,
{
    let st = supervisor_init(max_attempts);
    let (next, action) = supervise_step(st, false);
    let rest = probes.drop_first();
    let run = supervise_run(st, probes);
    if max_attempts == 0 {
        assert(supervise_run(next, rest) == Seq::<SupervisorAction>::empty());
        assert(run =~= seq![SupervisorAction::Finish(false)]);
    } else {
        lemma_retries_exhaust(next, rest);
        let tail = supervise_run(next, rest);
        assert(run == seq![SupervisorAction::SpawnThenProbe] + tail);
        assert(run[max_attempts as int] == tail[max_attempts - 1]);
        assert forall|i: int| 0 < i < max_attempts implies #[trigger] run[i]
            == SupervisorAction::WaitThenProbe by {
            assert(run[i] == tail[i - 1]);
        }
    }
}

/// Supervision of one start-up of the daemon.
pub struct Supervisor {
    max_attempts: u32,
    attempts: u32,
    spawned: bool,
    done: bool,
}

impl View for Supervisor {
    type V = SupervisorView;

    closed spec fn view(&self) -> SupervisorView {
        SupervisorView {
            max_attempts: self.max_attempts as nat,
            attempts: self.attempts as nat,
            spawned: self.spawned,
            done: self.done,
        }
    }
}

impl Supervisor {
    /// Supervision that allows `max_attempts` probes once the daemon has been
    /// started.
    pub fn new(max_attempts: u32) -> (s: Supervisor)
        ensures
            s@ == supervisor_init(max_attempts as nat),
            s@.wf(),
    {
        Supervisor { max_attempts, attempts: 0, spawned: false, done: false }
    }

    /// Takes the result of the latest probe and returns what to do next.
    pub fn on_probe(&mut self, up: bool) -> (r: SupervisorAction)
        requires
            old(self)@.wf(),
            !old(self)@.done,
        ensures
            (final(self)@, r) == supervise_step(old(self)@, up),
            final(self)@.wf(),
    {
        if up {
            self.done = true;
            SupervisorAction::Finish(true)
        } else if !self.spawned {
            if self.max_attempts == 0 {
                self.done = true;
                SupervisorAction::Finish(false)
            } else {
                self.spawned = true;
                SupervisorAction::SpawnThenProbe
            }
        } else {
            self.attempts = self.attempts + 1;
            if self.attempts >= self.max_attempts {
                self.done = true;
                SupervisorAction::Finish(false)
            } else {
                SupervisorAction::WaitThenProbe
            }
        }
    }

    /// Whether supervision has ended.
    pub fn is_done(&self) -> (r: bool)
        ensures
            r == self@.done,
    {
        self.done
    }
}

} // verus!
