//! Decisions of the model-pull driver: which progress notices to send while
//! the pull command reports on its error stream, and the single terminal
//! notice once it is over. The caller runs the process and forwards lines.
use vstd::prelude::*;
use crate::progress::{last_percent, parse_percent, percent_label, percent_text};

verus! {

/// The progress value a line raises, unless it repeats the last one sent.
pub open spec fn notice_for(last: Option<nat>, line: Seq<char>) -> Option<nat> {
    match last_percent(line) {
        Some(v) => if last == Some(v) {
            None
        } else {
            Some(v)
        },
        None => None,
    }
}

/// The last progress value sent, once `line` has been handled.
pub open spec fn next_last(last: Option<nat>, line: Seq<char>) -> Option<nat> {
    match last_percent(line) {
        Some(v) => Some(v),
        None => last,
    }
}

/// The progress values sent over a run of lines, starting after `last`.
pub open spec fn progress_notices(last: Option<nat>, lines: Seq<Seq<char>>) -> Seq<nat>
    decreases lines.len(),
{
    if lines.len() == 0 {
        seq![]
    } else {
        let head = match notice_for(last, lines[0]) {
            Some(v) => seq![v],
            None => seq![],
        };
        head + progress_notices(next_last(last, lines[0]), lines.drop_first())
    }
}

/// The percentages that a run of lines reports, one per line that has one.
pub open spec fn found_percents(lines: Seq<Seq<char>>) -> Seq<nat>
    decreases lines.len(),
{
    if lines.len() == 0 {
        seq![]
    } else {
        let head = match last_percent(lines[0]) {
            Some(v) => seq![v],
            None => seq![],
        };
        head + found_percents(lines.drop_first())
    }
}

/// How many times the value changes along `vals`, counting from `last`.
pub open spec fn value_changes(last: Option<nat>, vals: Seq<nat>) -> nat
    decreases vals.len(),
{
    if vals.len() == 0 {
        0
    } else {
        (if last == Some(vals[0]) {
            0nat
        } else {
            1nat
        }) + value_changes(Some(vals[0]), vals.drop_first())
    }
}

pub open spec fn install_failed_text() -> Seq<char> {
    seq!['F', 'a', 'i', 'l', 'e', 'd', ' ', 't', 'o', ' ', 'i', 'n', 's', 't', 'a', 'l', 'l', ' ', 'm', 'o', 'd', 'e', 'l']
}

proof fn lemma_notices_from(last: Option<nat>, lines: Seq<Seq<char>>)
    ensures
        progress_notices(last, lines).len() == value_changes(last, found_percents(lines)),
        progress_notices(last, lines).len() > 0 ==> Some(progress_notices(last, lines)[0]) != last,
        forall|i: int|
            0 <= i < progress_notices(last, lines).len() - 1 ==> progress_notices(last, lines)[i]
                != #[trigger] progress_notices(last, lines)[i + 1],
    decreases lines.len(),
{
    if lines.len() > 0 {
        let rest = lines.drop_first();
        let nl = next_last(last, lines[0]);
        lemma_notices_from(nl, rest);
        let tail = progress_notices(nl, rest);
        let all = progress_notices(last, lines);
        match last_percent(lines[0]) {
            Some(v) => {
                assert((seq![v] + found_percents(rest)).drop_first() == found_percents(rest));
                if last == Some(v) {
                    assert(all == tail);
                } else {
                    assert(all == seq![v] + tail);
                    assert forall|i: int| 0 <= i < all.len() - 1 implies all[i]
                        != #[trigger] all[i + 1] by {
                        assert(all[i + 1] == tail[i]);
                        if i > 0 {
                            assert(all[i] == tail[i - 1]);
                            let k = i - 1;
                            assert(tail[k] != tail[k + 1]);
                        } else {
                            assert(nl == Some(v));
                        }
                    }
                }
            },
            None => {
                assert(found_percents(lines) == found_percents(rest));
                assert(all == tail);
            },
        }
    }
}

/// Progress de-duplication: over any run of lines, exactly one progress
/// notice is sent per change of the reported percentage, and no notice
/// repeats the one sent just before it.
pub proof fn lemma_progress_deduplicated(lines: Seq<Seq<char>>)
    ensures
        progress_notices(None, lines).len() == value_changes(None, found_percents(lines)),
        forall|i: int|
            0 <= i < progress_notices(None, lines).len() - 1 ==> progress_notices(None, lines)[i]
                != #[trigger] progress_notices(None, lines)[i + 1],
{
    lemma_notices_from(None, lines);
}

/// What a pull tracker holds, as plain values.
pub struct PullView {
    pub model: Seq<char>,
    pub last: Option<nat>,
    pub finished: bool,
}

/// State of one model pull, from the start of the command to its end.
pub struct PullTracker {
    model: String,
    last_percent: Option<u8>,
    finished: bool,
}

impl View for PullTracker {
    type V = PullView;

    closed spec fn view(&self) -> PullView {
        PullView {
            model: self.model@,
            last: match self.last_percent {
                Some(v) => Some(v as nat),
                None => None,
            },
            finished: self.finished,
        }
    }
}

impl PullTracker {
    /// Starts tracking the pull of `model`; nothing has been sent yet.
    pub fn new(model: String) -> (t: PullTracker)
        ensures
            t@ == (PullView { model: model@, last: None, finished: false }),
    {
        PullTracker { model, last_percent: None, finished: false }
    }

    /// Handles one line of progress text; returns the progress notice to
    /// send, if the line reports a percentage other than the last one sent.
    pub fn on_line(&mut self, line: &str) -> (r: Option<String>)
        requires
            !old(self)@.finished,
        ensures
            final(self)@ == (PullView { last: next_last(old(self)@.last, line@), ..old(self)@ }),
            r is None <==> notice_for(old(self)@.last, line@) is None,
            r matches Some(t) ==> notice_for(old(self)@.last, line@) matches Some(v) && t@
                == percent_text(v),
    {
        match parse_percent(line) {
            Some(v) => {
                let repeated = match self.last_percent {
                    Some(p) => p == v,
                    None => false,
                };
                self.last_percent = Some(v);
                if repeated {
                    None
                } else {
                    Some(percent_label(v))
                }
            },
            None => None,
        }
    }

    /// Ends the pull once the command has exited; returns the payload of the
    /// terminal notice: the model's name on success, a fixed message otherwise.
    pub fn on_exit(&mut self, success: bool) -> (r: String)
        requires
            !old(self)@.finished,
        ensures
            final(self)@ == (PullView { finished: true, ..old(self)@ }),
            success ==> r@ == old(self)@.model,
            !success ==> r@ == install_failed_text(),
    {
        self.finished = true;
        if success {
            self.model.clone()
        } else {
            proof {
                reveal_strlit("Failed to install model");
            }
            String::from_str("Failed to install model")
        }
    }

    /// Ends the pull when the command could not be started or observed;
    /// returns the payload of the terminal notice, which is `reason`.
    pub fn on_start_failure(&mut self, reason: String) -> (r: String)
        requires
            !old(self)@.finished,
        ensures
            final(self)@ == (PullView { finished: true, ..old(self)@ }),
            r@ == reason@,
    {
        self.finished = true;
        reason
    }

    /// Whether the terminal notice has been produced.
    pub fn is_finished(&self) -> (r: bool)
        ensures
            r == self@.finished,
    {
        self.finished
    }
}

} // verus!
