//! Relay of a streamed generation response to the user interface: each
//! chunk goes out as text, a broken stream ends in one error, and every
//! stream ends in exactly one `Done`, always the last notice.
use vstd::prelude::*;
use vstd::utf8::{decode_utf8, valid_utf8};

verus! {

/// Relies on `String::from_utf8`: it succeeds exactly on valid UTF-8, and
/// then holds the characters that the bytes encode.
#[verifier::external_body]
fn decode_text(bytes: Vec<u8>) -> (r: Option<String>)
    ensures
        r is Some <==> valid_utf8(bytes@),
        r matches Some(t) ==> t@ == decode_utf8(bytes@),
{
    String::from_utf8(bytes).ok()
}

/// A notice sent to the user interface.
pub enum StreamNotice {
    Chunk(String),
    Error(String),
    Done,
}

/// A notice, with its text as characters.
pub enum NoticeView {
    Chunk(Seq<char>),
    Error(Seq<char>),
    Done,
}

impl View for StreamNotice {
    type V = NoticeView;

    open spec fn view(&self) -> NoticeView {
        match self {
            StreamNotice::Chunk(t) => NoticeView::Chunk(t@),
            StreamNotice::Error(m) => NoticeView::Error(m@),
            StreamNotice::Done => NoticeView::Done,
        }
    }
}

/// What the response stream delivers, one item at a time.
pub enum StreamEvent {
    Bytes(Seq<u8>),
    Failed(Seq<char>),
}

pub open spec fn invalid_text_message() -> Seq<char> {
    seq!['c', 'h', 'u', 'n', 'k', ' ', 'i', 's', ' ', 'n', 'o', 't', ' ', 'U', 'T', 'F', '-', '8']
}

/// One relay decision: whether the relay closes, and the notices sent.
pub open spec fn relay_step(ev: StreamEvent) -> (bool, Seq<NoticeView>) {
    match ev {
        StreamEvent::Bytes(b) => if valid_utf8(b) {
            (false, seq![NoticeView::Chunk(decode_utf8(b))])
        } else {
            (true, seq![NoticeView::Error(invalid_text_message()), NoticeView::Done])
        },
        StreamEvent::Failed(m) => (true, seq![NoticeView::Error(m), NoticeView::Done]),
    }
}

/// Every notice sent for a stream that delivers `events` and then ends.
pub open spec fn relay_run(events: Seq<StreamEvent>) -> Seq<NoticeView>
    decreases events.len(),
{
    if events.len() == 0 {
        seq![NoticeView::Done]
    } else {
        let (closes, notices) = relay_step(events[0]);
        if closes {
            notices
        } else {
            notices + relay_run(events.drop_first())
        }
    }
}

/// Terminal notice: whatever the stream delivers, including nothing or an
/// immediate failure, exactly one `Done` is sent and it is the last notice;
/// an error, if any, is the one notice just before it.
pub proof fn lemma_single_terminal_notice(events: Seq<StreamEvent>)
    ensures
        relay_run(events).len() > 0,
        relay_run(events).last() is Done,
        forall|i: int|
            0 <= i < relay_run(events).len() - 1 ==> !(#[trigger] relay_run(events)[i] is Done),
        forall|i: int|
            0 <= i < relay_run(events).len() - 2 ==> !(#[trigger] relay_run(events)[i] is Error),
    decreases events.len(),
{
    if events.len() > 0 {
        let (closes, notices) = relay_step(events[0]);
        if !closes {
            let rest = events.drop_first();
            lemma_single_terminal_notice(rest);
            let tail = relay_run(rest);
            let all = relay_run(events);
            assert(all == notices + tail);
            assert(notices.len() == 1 && notices[0] is Chunk);
            assert forall|i: int| 0 <= i < all.len() - 1 implies !(#[trigger] all[i] is Done) by {
                if i > 0 {
                    assert(all[i] == tail[i - 1]);
                }
            }
            assert forall|i: int| 0 <= i < all.len() - 2 implies !(#[trigger] all[i] is Error) by {
                if i > 0 {
                    assert(all[i] == tail[i - 1]);
                }
            }
        }
    }
}

/// Relay of one streamed response.
pub struct StreamRelay {
    closed: bool,
}

impl StreamRelay {
    pub closed spec fn is_closed(&self) -> bool {
        self.closed
    }

    /// Opens a relay for a response with HTTP status `status`: only a
    /// success status (2xx) is relayed.
    pub fn open(status: u16) -> (r: Option<StreamRelay>)
        ensures
            r is Some <==> 200 <= status < 300,
            r matches Some(relay) ==> !relay.is_closed(),
    {
        if 200 <= status && status < 300 {
            Some(StreamRelay { closed: false })
        } else {
            None
        }
    }

    /// Handles one chunk of the response; text goes out as a chunk, bytes
    /// that are not UTF-8 end the stream with an error.
    pub fn on_bytes(&mut self, bytes: Vec<u8>) -> (r: Vec<StreamNotice>)
        requires
            !old(self).is_closed(),
        ensures
            final(self).is_closed() == relay_step(StreamEvent::Bytes(bytes@)).0,
            r@.len() == relay_step(StreamEvent::Bytes(bytes@)).1.len(),
            forall|i: int|
                0 <= i < r@.len() ==> (#[trigger] r@[i])@ == relay_step(
                    StreamEvent::Bytes(bytes@),
                ).1[i],
    {
        let mut out: Vec<StreamNotice> = Vec::new();
        match decode_text(bytes) {
            Some(t) => {
                out.push(StreamNotice::Chunk(t));
            },
            None => {
                proof {
                    reveal_strlit("chunk is not UTF-8");
                }
                let msg = String::from_str("chunk is not UTF-8");
                assert(msg@ =~= invalid_text_message());
                out.push(StreamNotice::Error(msg));
                out.push(StreamNotice::Done);
                self.closed = true;
                assert(out@[0]@ == NoticeView::Error(invalid_text_message()));
            },
        }
        out
    }

    /// Handles a transport failure reported as `message`: the stream ends.
    pub fn on_failure(&mut self, message: String) -> (r: Vec<StreamNotice>)
        requires
            !old(self).is_closed(),
        ensures
            final(self).is_closed(),
            r@.len() == relay_step(StreamEvent::Failed(message@)).1.len(),
            forall|i: int|
                0 <= i < r@.len() ==> (#[trigger] r@[i])@ == relay_step(
                    StreamEvent::Failed(message@),
                ).1[i],
    {
        self.closed = true;
        let mut out: Vec<StreamNotice> = Vec::new();
        out.push(StreamNotice::Error(message));
        out.push(StreamNotice::Done);
        out
    }

    /// Handles the normal end of the stream.
    pub fn on_end(&mut self) -> (r: Vec<StreamNotice>)
        requires
            !old(self).is_closed(),
        ensures
            final(self).is_closed(),
            r@.len() == 1,
            r@[0]@ == NoticeView::Done,
    {
        self.closed = true;
        let mut out: Vec<StreamNotice> = Vec::new();
        out.push(StreamNotice::Done);
        out
    }

    /// Whether the terminal notice has been produced.
    pub fn is_finished(&self) -> (r: bool)
        ensures
            r == self.is_closed(),
    {
        self.closed
    }
}

} // verus!
