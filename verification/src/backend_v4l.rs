//! The camera as its user sees it: frames come from a capture thread through a
//! channel that holds only the newest message.

use crossbeam_channel::Receiver;
use vstd::prelude::*;

use crate::backend::{CaptureBackend, CapturedFrame};
use crate::capture_error::{
    CaptureError, FRAME_RECV_TIMEOUT_MS, FRESH_FRAME_RECV_TIMEOUT_SECS, INIT_TIMEOUT_SECS,
};
use crate::capture_health::{
    disconnected_reason, disconnected_reason_text, is_device_disconnected_error, says_disconnected,
};
use crate::channel::{
    is_sole_use, look, looks, wait, ChannelUse, Inbox, Outbox, Polled, SendOutcome, Waited,
};
use crate::negotiation::{is_jittered_wait, jittered_wait_ms, EBUSY_JITTER_MAX_MS};
use crate::text::lowercase;

verus! {

/// How often a channel is looked into at most before its use is given up:
/// more often than any machine will.
pub const MAX_CHANNEL_LOOKS: u64 = u64::MAX;

/// The longest wait for the capture thread to end.
pub const CAPTURE_SHUTDOWN_TIMEOUT_MS: u64 = 3000;

/// What the capture thread reports.
#[derive(Debug, Clone)]
pub enum CaptureMessage {
    Frame(CapturedFrame),
    /// The camera is gone, with the reason.
    Disconnected(String),
}

// ---------------------------------------------------------------------------
// The sending side
// ---------------------------------------------------------------------------
/// How far replacing the pending message has come.
#[derive(Debug)]
pub enum ReplaceStep {
    /// The message is in the channel.
    Done,
    /// The old message was in the way and has been taken out; try again.
    Again(CaptureMessage),
    /// Nobody receives any more.
    Closed,
}

/// What follows an attempt to send.
pub fn after_send(outcome: SendOutcome<CaptureMessage>) -> (r: ReplaceStep)
    ensures
        r == (match outcome {
            SendOutcome::Sent => ReplaceStep::Done,
            SendOutcome::Full(message) => ReplaceStep::Again(message),
            SendOutcome::Closed => ReplaceStep::Closed,
        }),
{
    match outcome {
        SendOutcome::Sent => ReplaceStep::Done,
        SendOutcome::Full(message) => ReplaceStep::Again(message),
        SendOutcome::Closed => ReplaceStep::Closed,
    }
}

/// The attempts to send a message, and what was taken out of the channel after
/// those that found it full: attempts follow each other while it is full, until
/// one ends otherwise or the looks are used up.
pub open spec fn is_replacement(
    outcomes: Seq<SendOutcome<CaptureMessage>>,
    dropped: Seq<Polled<CaptureMessage>>,
) -> bool {
    &&& 0 < outcomes.len() <= MAX_CHANNEL_LOOKS
    &&& forall|i: int| 0 <= i < outcomes.len() - 1 ==> (#[trigger] outcomes[i]) is Full
    &&& if outcomes.last() is Full {
        outcomes.len() == MAX_CHANNEL_LOOKS && dropped.len() == outcomes.len()
    } else {
        dropped.len() == outcomes.len() - 1
    }
}

/// The uses of the channel that a replacement consists of: an attempt to send,
/// a look, and so on.
pub open spec fn replacing(
    message: CaptureMessage,
    outcomes: Seq<SendOutcome<CaptureMessage>>,
    dropped: Seq<Polled<CaptureMessage>>,
) -> Seq<ChannelUse<CaptureMessage>> {
    Seq::new(
        outcomes.len() + dropped.len(),
        |i: int|
            if i % 2 == 0 {
                ChannelUse::Send { message, outcome: outcomes[i / 2] }
            } else {
                ChannelUse::Look(dropped[i / 2])
            },
    )
}

/// Replaces the message that waits in a channel for one message, and never
/// blocks: while the channel is full, the old message is taken out. The result
/// tells whether the message went in; it did not where nobody receives any
/// more, which only the other threads decide.
pub fn replace_pending_message(
    outbox: &mut Outbox<CaptureMessage>,
    message: CaptureMessage,
) -> (r: bool)
    ensures
        exists|
            outcomes: Seq<SendOutcome<CaptureMessage>>,
            dropped: Seq<Polled<CaptureMessage>>,
        |
            #![trigger replacing(message, outcomes, dropped)]
            {
                &&& is_replacement(outcomes, dropped)
                &&& final(outbox).used_since(*old(outbox), replacing(message, outcomes, dropped))
                &&& r == (outcomes.last() is Sent)
            },
{
    let mut pending: CaptureMessage = message;
    let mut tries: u64 = MAX_CHANNEL_LOOKS;
    let ghost mut outcomes: Seq<SendOutcome<CaptureMessage>> = Seq::empty();
    let ghost mut dropped: Seq<Polled<CaptureMessage>> = Seq::empty();
    assert(old(outbox)@ + replacing(message, outcomes, dropped) =~= old(outbox)@);
    while tries > 0
        invariant
            pending == message,
            outcomes.len() == MAX_CHANNEL_LOOKS - tries,
            dropped.len() == outcomes.len(),
            forall|i: int| 0 <= i < outcomes.len() ==> (#[trigger] outcomes[i]) is Full,
            outbox.used_since(*old(outbox), replacing(message, outcomes, dropped)),
        decreases tries,
    {
        let ghost done: Seq<ChannelUse<CaptureMessage>> = replacing(message, outcomes, dropped);
        let outcome: SendOutcome<CaptureMessage> = outbox.try_send(pending);
        proof {
            let sent: Seq<ChannelUse<CaptureMessage>> = seq![
                ChannelUse::Send { message, outcome },
            ];
            outcomes = outcomes.push(outcome);
            assert(replacing(message, outcomes, dropped) =~= done + sent);
            assert(old(outbox)@ + done + sent =~= old(outbox)@ + (done + sent));
            done = replacing(message, outcomes, dropped);
        }
        match after_send(outcome) {
            ReplaceStep::Done => {
                return true;
            },
            ReplaceStep::Again(returned) => {
                pending = returned;
                let found: Polled<CaptureMessage> = outbox.try_recv();
                proof {
                    dropped = dropped.push(found);
                    assert(replacing(message, outcomes, dropped) =~= done + look(found));
                    assert(old(outbox)@ + done + look(found) =~= old(outbox)@ + (done + look(
                        found,
                    )));
                }
            },
            ReplaceStep::Closed => {
                return false;
            },
        }
        tries = tries - 1;
    }
    false
}

/// In a channel for one message that no other thread uses, the message takes
/// the place of whatever was there: it is sent, and is all that the channel then
/// holds.
pub proof fn law_message_takes_the_place(
    message: CaptureMessage,
    outcomes: Seq<SendOutcome<CaptureMessage>>,
    dropped: Seq<Polled<CaptureMessage>>,
    queues: Seq<Seq<CaptureMessage>>,
)
    requires
        is_replacement(outcomes, dropped),
        is_sole_use(1, queues, replacing(message, outcomes, dropped)),
    ensures
        outcomes.last() is Sent,
        queues.last() == seq![message],
        outcomes.len() <= 2,
{
    let uses = replacing(message, outcomes, dropped);
    assert(uses[0] == ChannelUse::Send { message, outcome: outcomes[0] });
    assert(queues[0].len() <= 1);
    if queues[0].len() == 0 {
        assert(queues[1] == queues[0].push(message));
        assert(queues[1] =~= seq![message]);
    } else {
        assert(outcomes[0] is Full);
        assert(queues[1] == queues[0]);
        assert(uses[1] == ChannelUse::<CaptureMessage>::Look(dropped[0]));
        assert(queues[2] =~= Seq::empty());
        assert(uses[2] == ChannelUse::Send { message, outcome: outcomes[1] });
        assert(queues[3] =~= seq![message]);
    }
}

/// The message that a failure of the stream, other than a timeout, calls for:
/// one that says the device is gone ends the capture, any other is only worth
/// a warning.
pub fn after_stream_failure(message: &str) -> (r: Option<CaptureMessage>)
    ensures
        match r {
            Some(CaptureMessage::Disconnected(reason)) => {
                &&& says_disconnected(message@, lowercase(message@))
                &&& reason@ == disconnected_reason_text()
            },
            Some(CaptureMessage::Frame(_)) => false,
            None => !says_disconnected(message@, lowercase(message@)),
        },
{
    if is_device_disconnected_error(message) {
        Some(CaptureMessage::Disconnected(disconnected_reason()))
    } else {
        None
    }
}

// ---------------------------------------------------------------------------
// The receiving side
// ---------------------------------------------------------------------------
/// How far emptying the channel has come.
#[derive(Debug)]
pub enum DrainStep {
    /// Look again; this is the newest frame so far.
    Again(Option<CapturedFrame>),
    /// The channel is empty; this is the newest frame, if any came.
    Drained(Option<CapturedFrame>),
    Failed(CaptureError),
}

/// What follows a look into the channel, when `newest` is the newest frame so
/// far.
pub open spec fn drain_step(newest: Option<CapturedFrame>, polled: Polled<CaptureMessage>) -> DrainStep {
    match polled {
        Polled::Message(CaptureMessage::Frame(frame)) => DrainStep::Again(Some(frame)),
        Polled::Message(CaptureMessage::Disconnected(reason)) => DrainStep::Failed(
            CaptureError::Disconnected(reason),
        ),
        Polled::Empty => DrainStep::Drained(newest),
        Polled::Closed => DrainStep::Failed(CaptureError::ThreadExited),
    }
}

/// What follows a look into the channel.
pub fn after_poll(newest: Option<CapturedFrame>, polled: Polled<CaptureMessage>) -> (r: DrainStep)
    ensures
        r == drain_step(newest, polled),
{
    match polled {
        Polled::Message(CaptureMessage::Frame(frame)) => DrainStep::Again(Some(frame)),
        Polled::Message(CaptureMessage::Disconnected(reason)) => DrainStep::Failed(
            CaptureError::Disconnected(reason),
        ),
        Polled::Empty => DrainStep::Drained(newest),
        Polled::Closed => DrainStep::Failed(CaptureError::ThreadExited),
    }
}

/// How emptying the channel ends when looks into it find `polled` from the
/// `i`-th on; nothing if the looks given do not suffice.
pub open spec fn drain_end(
    newest: Option<CapturedFrame>,
    polled: Seq<Polled<CaptureMessage>>,
    i: int,
) -> Option<DrainStep>
    decreases polled.len() - i,
{
    if i < 0 || i >= polled.len() {
        None
    } else {
        match drain_step(newest, polled[i]) {
            DrainStep::Again(frame) => drain_end(frame, polled, i + 1),
            end => Some(end),
        }
    }
}

/// Emptying the channel yields the newest frame: after `n` frames and then
/// nothing, the last of them; with no frame, nothing.
pub proof fn law_newest_frame_wins(polled: Seq<Polled<CaptureMessage>>, frames: Seq<CapturedFrame>)
    requires
        polled.len() == frames.len() + 1,
        forall|i: int|
            0 <= i < frames.len() ==> #[trigger] polled[i] == Polled::Message(
                CaptureMessage::Frame(frames[i]),
            ),
        polled.last() is Empty,
    ensures
        drain_end(None, polled, 0) == Some(
            DrainStep::Drained(
                if frames.len() == 0 {
                    None
                } else {
                    Some(frames.last())
                },
            ),
        ),
{
    lemma_drain_from(None, polled, frames, 0);
}

proof fn lemma_drain_from(
    newest: Option<CapturedFrame>,
    polled: Seq<Polled<CaptureMessage>>,
    frames: Seq<CapturedFrame>,
    i: int,
)
    requires
        polled.len() == frames.len() + 1,
        0 <= i <= frames.len(),
        forall|j: int|
            0 <= j < frames.len() ==> #[trigger] polled[j] == Polled::Message(
                CaptureMessage::Frame(frames[j]),
            ),
        polled.last() is Empty,
    ensures
        drain_end(newest, polled, i) == Some(
            DrainStep::Drained(
                if i == frames.len() {
                    newest
                } else {
                    Some(frames.last())
                },
            ),
        ),
    decreases frames.len() - i,
{
    if i < frames.len() {
        assert(polled[i] matches Polled::Message(m) && m == CaptureMessage::Frame(frames[i]));
        lemma_drain_from(Some(frames[i]), polled, frames, i + 1);
    } else {
        assert(polled[i] == polled.last());
    }
}

/// A report that the device is gone, or a channel without a sender, ends in an
/// error even if frames came before it.
pub proof fn law_disconnection_is_not_hidden(
    newest: Option<CapturedFrame>,
    polled: Seq<Polled<CaptureMessage>>,
    i: int,
    at: int,
)
    requires
        0 <= i <= at < polled.len(),
        forall|j: int|
            i <= j < at ==> (#[trigger] polled[j] matches Polled::Message(m) && m is Frame),
        polled[at] is Closed || (polled[at] matches Polled::Message(m) && m is Disconnected),
    ensures
        drain_end(newest, polled, i) is Some,
        drain_end(newest, polled, i)->0 is Failed,
    decreases at - i,
{
    if i < at {
        assert(polled[i] matches Polled::Message(m) && m is Frame);
        law_disconnection_is_not_hidden(drain_step(newest, polled[i])->Again_0, polled, i + 1, at);
    }
}

/// What waiting is for, which decides how its end is reported.
#[derive(Debug, Clone, Copy, PartialEq, Eq, Structural)]
pub enum WaitKind {
    /// The first frame after capturing began.
    FirstFrame,
    /// A frame that was not there before.
    FreshFrame,
}

/// What is returned and kept after waiting: a frame that came is returned and
/// kept, anything else is an error and leaves the frame that was kept before.
pub open spec fn follows_wait(
    waited: Waited<CaptureMessage>,
    kind: WaitKind,
    kept_before: Option<CapturedFrame>,
    r: Result<CapturedFrame, CaptureError>,
    kept: Option<CapturedFrame>,
) -> bool {
    match waited {
        Waited::Message(CaptureMessage::Frame(frame)) => {
            &&& r == Ok::<CapturedFrame, CaptureError>(frame)
            &&& kept is Some
            &&& kept->0.same_as(frame)
        },
        Waited::Message(CaptureMessage::Disconnected(reason)) => {
            &&& r == Err::<CapturedFrame, CaptureError>(CaptureError::Disconnected(reason))
            &&& kept == kept_before
        },
        Waited::TimedOut => {
            &&& r == Err::<CapturedFrame, CaptureError>(
                match kind {
                    WaitKind::FirstFrame => CaptureError::FrameTimeout,
                    WaitKind::FreshFrame => CaptureError::FreshFrameTimeout,
                },
            )
            &&& kept == kept_before
        },
        Waited::Closed => {
            &&& r == Err::<CapturedFrame, CaptureError>(CaptureError::ThreadExited)
            &&& kept == kept_before
        },
    }
}

/// A frame that waiting yields is the one that came out of the channel
/// meanwhile, never the one kept before; and without one that came, waiting
/// ends in an error even if a frame is kept.
pub proof fn law_waiting_yields_only_what_came(
    waited: Waited<CaptureMessage>,
    kind: WaitKind,
    kept_before: Option<CapturedFrame>,
    r: Result<CapturedFrame, CaptureError>,
    kept: Option<CapturedFrame>,
)
    requires
        follows_wait(waited, kind, kept_before, r, kept),
    ensures
        match r {
            Ok(frame) => waited == Waited::Message(CaptureMessage::Frame(frame)),
            Err(_) => !(waited matches Waited::Message(m) && m is Frame) && kept == kept_before,
        },
{
}

/// How looks into the channel end: the last of them finds no frame, so that no
/// other follows, or they are used up.
pub open spec fn looks_end(polled: Seq<Polled<CaptureMessage>>) -> DrainStep {
    match drain_end(None, polled, 0) {
        Some(end) => end,
        None => DrainStep::Drained(newest_of(polled)),
    }
}

/// The frame that the last look found.
pub open spec fn newest_of(polled: Seq<Polled<CaptureMessage>>) -> Option<CapturedFrame> {
    if polled.len() == 0 {
        None
    } else {
        match polled.last() {
            Polled::Message(CaptureMessage::Frame(frame)) => Some(frame),
            _ => None,
        }
    }
}

/// Each look but the last found a frame, and so did the last if the looks are
/// used up.
pub open spec fn are_looks(polled: Seq<Polled<CaptureMessage>>) -> bool {
    &&& 0 < polled.len() <= MAX_CHANNEL_LOOKS
    &&& forall|i: int| 0 <= i < polled.len() - 1 ==> is_frame(#[trigger] polled[i])
    &&& is_frame(polled.last()) ==> polled.len() == MAX_CHANNEL_LOOKS
}

/// The look found a frame.
pub open spec fn is_frame(polled: Polled<CaptureMessage>) -> bool {
    polled matches Polled::Message(m) && m is Frame
}

/// What is returned and kept after looks into the channel: an error that they
/// end in; else the newest frame that they found, which is kept; else the frame
/// that was kept before. Nothing is said where none of these is there.
pub open spec fn follows_looks(
    polled: Seq<Polled<CaptureMessage>>,
    kept_before: Option<CapturedFrame>,
    r: Result<CapturedFrame, CaptureError>,
    kept: Option<CapturedFrame>,
) -> bool {
    match looks_end(polled) {
        DrainStep::Failed(e) => {
            &&& r == Err::<CapturedFrame, CaptureError>(e)
            &&& kept == kept_before
        },
        DrainStep::Drained(Some(frame)) => {
            &&& r == Ok::<CapturedFrame, CaptureError>(frame)
            &&& kept is Some
            &&& kept->0.same_as(frame)
        },
        DrainStep::Drained(None) => kept_before is Some ==> {
            &&& r is Ok
            &&& r->Ok_0.same_as(kept_before->0)
            &&& kept == kept_before
        },
        DrainStep::Again(_) => false,
    }
}

/// The looks found nothing and no frame was kept, so that one is waited for.
pub open spec fn must_wait(
    polled: Seq<Polled<CaptureMessage>>,
    kept_before: Option<CapturedFrame>,
) -> bool {
    looks_end(polled) matches DrainStep::Drained(newest) && newest is None && kept_before is None
}

/// If looks find frames and then nothing, the newest frame is returned and
/// kept, whatever was kept before; if they find nothing at all, the frame that
/// was kept comes back with its time, and stays kept.
pub proof fn law_newest_frame_is_returned(
    polled: Seq<Polled<CaptureMessage>>,
    frames: Seq<CapturedFrame>,
    kept_before: Option<CapturedFrame>,
    r: Result<CapturedFrame, CaptureError>,
    kept: Option<CapturedFrame>,
)
    requires
        polled.len() == frames.len() + 1,
        forall|i: int|
            0 <= i < frames.len() ==> #[trigger] polled[i] == Polled::Message(
                CaptureMessage::Frame(frames[i]),
            ),
        polled.last() is Empty,
        follows_looks(polled, kept_before, r, kept),
    ensures
        frames.len() > 0 ==> {
            &&& r == Ok::<CapturedFrame, CaptureError>(frames.last())
            &&& kept is Some
            &&& kept->0.capture_timestamp_ns == frames.last().capture_timestamp_ns
        },
        frames.len() == 0 && kept_before is Some ==> {
            &&& r is Ok
            &&& r->Ok_0.capture_timestamp_ns == kept_before->0.capture_timestamp_ns
            &&& kept == kept_before
        },
        must_wait(polled, kept_before) <==> frames.len() == 0 && kept_before is None,
{
    law_newest_frame_wins(polled, frames);
}

/// If looks find that the device is gone, behind whatever frames, capturing
/// ends in that error even if a frame is kept.
pub proof fn law_disconnection_ends_capturing(
    polled: Seq<Polled<CaptureMessage>>,
    reason: String,
    kept_before: Option<CapturedFrame>,
    r: Result<CapturedFrame, CaptureError>,
    kept: Option<CapturedFrame>,
)
    requires
        are_looks(polled),
        polled.last() == Polled::Message(CaptureMessage::Disconnected(reason)),
        follows_looks(polled, kept_before, r, kept),
    ensures
        r == Err::<CapturedFrame, CaptureError>(CaptureError::Disconnected(reason)),
        kept == kept_before,
{
    lemma_looks_from(None, polled, 0);
}

/// Where all looks before the last found frames, the last decides.
proof fn lemma_looks_from(
    newest: Option<CapturedFrame>,
    polled: Seq<Polled<CaptureMessage>>,
    i: int,
)
    requires
        0 <= i < polled.len(),
        forall|j: int| i <= j < polled.len() - 1 ==> is_frame(#[trigger] polled[j]),
    ensures
        drain_end(newest, polled, i) == (match drain_step(
            if i == polled.len() - 1 {
                newest
            } else {
                newest_of(polled.drop_last())
            },
            polled.last(),
        ) {
            DrainStep::Again(_) => None::<DrainStep>,
            end => Some(end),
        }),
    decreases polled.len() - i,
{
    if i < polled.len() - 1 {
        assert(is_frame(polled[i]));
        lemma_looks_from(drain_step(newest, polled[i])->Again_0, polled, i + 1);
        assert(polled.drop_last().last() == polled[polled.len() - 2]);
    } else {
        reveal_with_fuel(drain_end, 2);
    }
}

/// The uses of the channel that a capture consists of: looks, and a wait if
/// there is one.
pub open spec fn capturing(
    polled: Seq<Polled<CaptureMessage>>,
    waited: Option<Waited<CaptureMessage>>,
) -> Seq<ChannelUse<CaptureMessage>> {
    match waited {
        Some(end) => looks(polled) + wait(FRAME_RECV_TIMEOUT_MS, end),
        None => looks(polled),
    }
}

/// What is returned and kept after looks into the channel and, if they leave
/// nothing to return, a wait for the first frame.
pub open spec fn is_capture(
    polled: Seq<Polled<CaptureMessage>>,
    waited: Option<Waited<CaptureMessage>>,
    kept_before: Option<CapturedFrame>,
    r: Result<CapturedFrame, CaptureError>,
    kept: Option<CapturedFrame>,
) -> bool {
    &&& are_looks(polled)
    &&& follows_looks(polled, kept_before, r, kept)
    &&& waited is Some <==> must_wait(polled, kept_before)
    &&& waited matches Some(end) ==> follows_wait(end, WaitKind::FirstFrame, None, r, kept)
}

/// Looks into a channel that no other thread uses find its messages in their
/// order.
proof fn lemma_looks_find_the_queue(
    capacity: nat,
    queues: Seq<Seq<CaptureMessage>>,
    polled: Seq<Polled<CaptureMessage>>,
    waited: Option<Waited<CaptureMessage>>,
    i: int,
)
    requires
        is_sole_use(capacity, queues, capturing(polled, waited)),
        0 <= i <= polled.len(),
        i <= queues[0].len(),
    ensures
        queues[i] == queues[0].skip(i),
        forall|j: int| 0 <= j < i ==> #[trigger] polled[j] == Polled::Message(queues[0][j]),
    decreases i,
{
    if i == 0 {
        assert(queues[0].skip(0) =~= queues[0]);
    } else {
        lemma_looks_find_the_queue(capacity, queues, polled, waited, i - 1);
        assert(capturing(polled, waited)[i - 1] == ChannelUse::Look(polled[i - 1]));
        assert(queues[i] == queues[i - 1].skip(1));
        assert(queues[0].skip(i - 1).skip(1) =~= queues[0].skip(i));
    }
}

/// What a capture returns where the channel holds `queues[0]` and no other
/// thread uses it. A report that the device is gone is the result, even if a
/// frame is kept; else the last frame in the channel; else the frame kept
/// before, without waiting; else, after half a second, an error.
pub proof fn law_capture_follows_the_queue(
    capacity: nat,
    queues: Seq<Seq<CaptureMessage>>,
    polled: Seq<Polled<CaptureMessage>>,
    waited: Option<Waited<CaptureMessage>>,
    kept_before: Option<CapturedFrame>,
    r: Result<CapturedFrame, CaptureError>,
    kept: Option<CapturedFrame>,
)
    requires
        is_capture(polled, waited, kept_before, r, kept),
        is_sole_use(capacity, queues, capturing(polled, waited)),
        queues[0].len() < 0xffff_ffff_ffff_ffff,
    ensures
        ({
            let queue = queues[0];
            let only_frames = forall|j: int| 0 <= j < queue.len() ==> (#[trigger] queue[j]) is Frame;
            &&& !only_frames ==> exists|k: int|
                #![trigger queue[k]]
                {
                    &&& 0 <= k < queue.len()
                    &&& queue[k] is Disconnected
                    &&& forall|j: int| 0 <= j < k ==> (#[trigger] queue[j]) is Frame
                    &&& r == Err::<CapturedFrame, CaptureError>(
                        CaptureError::Disconnected(queue[k]->Disconnected_0),
                    )
                    &&& kept == kept_before
                    &&& waited is None
                }
            &&& only_frames && queue.len() > 0 ==> {
                &&& r == Ok::<CapturedFrame, CaptureError>(queue.last()->Frame_0)
                &&& kept is Some
                &&& kept->0.same_as(queue.last()->Frame_0)
                &&& queues.last().len() == 0
                &&& waited is None
            }
            &&& queue.len() == 0 && kept_before is Some ==> {
                &&& r is Ok
                &&& r->Ok_0.same_as(kept_before->0)
                &&& kept == kept_before
                &&& waited is None
            }
            &&& queue.len() == 0 && kept_before is None ==> {
                &&& r == Err::<CapturedFrame, CaptureError>(CaptureError::FrameTimeout)
                &&& kept is None
                &&& waited == Some(Waited::<CaptureMessage>::TimedOut)
            }
        }),
{
    let queue = queues[0];
    let uses = capturing(polled, waited);
    if polled.len() > queue.len() {
        let n = queue.len() as int;
        lemma_looks_find_the_queue(capacity, queues, polled, waited, n);
        assert(uses[n] == ChannelUse::Look(polled[n]));
        assert(queues[n].len() == 0);
        assert(polled[n] is Empty);
        assert(polled.len() == n + 1);
        assert forall|j: int| 0 <= j < n implies (#[trigger] queue[j]) is Frame by {
            assert(is_frame(polled[j]));
        }
        let frames = Seq::new(queue.len(), |j: int| queue[j]->Frame_0);
        law_newest_frame_is_returned(polled, frames, kept_before, r, kept);
        law_newest_frame_wins(polled, frames);
        if waited is Some {
            assert(uses[n + 1] == ChannelUse::Wait {
                timeout_ms: FRAME_RECV_TIMEOUT_MS,
                waited: waited->0,
            });
            assert(queues[n + 1] == queues[n]);
        }
    } else {
        let k = polled.len() - 1;
        lemma_looks_find_the_queue(capacity, queues, polled, waited, polled.len() as int);
        assert(polled.last() == Polled::Message(queue[k]));
        assert(!is_frame(polled.last()));
        law_disconnection_ends_capturing(
            polled,
            queue[k]->Disconnected_0,
            kept_before,
            r,
            kept,
        );
        lemma_looks_from(None, polled, 0);
        assert forall|j: int| 0 <= j < k implies (#[trigger] queue[j]) is Frame by {
            assert(is_frame(polled[j]));
        }
        assert(queue[k] is Disconnected);
    }
}

/// What waiting for a fresh frame returns where the channel holds `queue` and no
/// other thread uses it: what the first message in the channel says, or else an
/// error, whatever frame was kept before.
pub proof fn law_fresh_frame_is_the_next(
    capacity: nat,
    queues: Seq<Seq<CaptureMessage>>,
    timeout_ms: u64,
    waited: Waited<CaptureMessage>,
    kept_before: Option<CapturedFrame>,
    r: Result<CapturedFrame, CaptureError>,
    kept: Option<CapturedFrame>,
)
    requires
        follows_wait(waited, WaitKind::FreshFrame, kept_before, r, kept),
        is_sole_use(capacity, queues, wait(timeout_ms, waited)),
    ensures
        ({
            let queue = queues[0];
            if queue.len() == 0 {
                r == Err::<CapturedFrame, CaptureError>(CaptureError::FreshFrameTimeout)
            } else {
                &&& queues.last() == queue.skip(1)
                &&& r == (match queue[0] {
                    CaptureMessage::Frame(frame) => Ok::<CapturedFrame, CaptureError>(frame),
                    CaptureMessage::Disconnected(reason) => Err(CaptureError::Disconnected(reason)),
                })
            }
        }),
{
    assert(queues[1] == queues.last());
}

/// How waiting ends: a frame that came is returned, and kept with all that can be
/// seen of it; a report that the device is gone, a wait that was too long, and
/// the end of the capture thread are errors of their own, and leave the frame that
/// was kept before.
pub proof fn law_ends_of_waiting(
    waited: Waited<CaptureMessage>,
    kind: WaitKind,
    kept_before: Option<CapturedFrame>,
    r: Result<CapturedFrame, CaptureError>,
    kept: Option<CapturedFrame>,
)
    requires
        follows_wait(waited, kind, kept_before, r, kept),
    ensures
        match waited {
            Waited::Message(CaptureMessage::Frame(frame)) => {
                &&& r == Ok::<CapturedFrame, CaptureError>(frame)
                &&& kept matches Some(k) && k.capture_timestamp_ns == frame.capture_timestamp_ns
                    && k.contents() == frame.contents()
            },
            Waited::Message(CaptureMessage::Disconnected(reason)) => r matches Err(
                CaptureError::Disconnected(text),
            ) && text == reason && kept == kept_before,
            Waited::TimedOut => {
                &&& kind == WaitKind::FirstFrame ==> r == Err::<CapturedFrame, CaptureError>(
                    CaptureError::FrameTimeout,
                )
                &&& kind == WaitKind::FreshFrame ==> r == Err::<CapturedFrame, CaptureError>(
                    CaptureError::FreshFrameTimeout,
                )
                &&& kept == kept_before
            },
            Waited::Closed => r == Err::<CapturedFrame, CaptureError>(CaptureError::ThreadExited)
                && kept == kept_before,
        },
{
}

/// How looks end: at the end of the capture thread in an error, even if frames
/// were found; at an empty channel with the frame that was found last; and if
/// none was, with the one kept before, or in a wait of half a second.
pub proof fn law_ends_of_looks(
    polled: Seq<Polled<CaptureMessage>>,
    waited: Option<Waited<CaptureMessage>>,
    kept_before: Option<CapturedFrame>,
    r: Result<CapturedFrame, CaptureError>,
    kept: Option<CapturedFrame>,
)
    requires
        is_capture(polled, waited, kept_before, r, kept),
    ensures
        polled.last() is Closed ==> {
            &&& r == Err::<CapturedFrame, CaptureError>(CaptureError::ThreadExited)
            &&& kept == kept_before
            &&& waited is None
        },
        polled.last() is Empty && polled.len() > 1 ==> {
            &&& r matches Ok(frame) && polled[polled.len() - 2] == Polled::Message(
                CaptureMessage::Frame(frame),
            )
            &&& waited is None
        },
        polled.last() is Empty && polled.len() == 1 ==> {
            &&& waited is None <==> kept_before is Some
            &&& kept_before matches Some(frame) ==> (r matches Ok(f) && f.capture_timestamp_ns
                == frame.capture_timestamp_ns && f.contents() == frame.contents() && kept
                == kept_before)
        },
        waited matches Some(end) ==> capturing(polled, waited) == seq![
            ChannelUse::Look(Polled::Empty),
            ChannelUse::Wait { timeout_ms: 500, waited: end },
        ],
{
    lemma_looks_from(None, polled, 0);
    if polled.last() is Empty && polled.len() > 1 {
        assert(polled.drop_last().last() == polled[polled.len() - 2]);
        assert(is_frame(polled[polled.len() - 2]));
    }
    if waited is Some {
        assert(looks_end(polled) matches DrainStep::Drained(newest) && newest is None);
        if polled.len() > 1 {
            assert(polled.drop_last().last() == polled[polled.len() - 2]);
            assert(is_frame(polled[polled.len() - 2]));
        }
        assert(polled.len() == 1);
        assert(polled.last() is Empty);
        assert(capturing(polled, waited) =~= seq![
            ChannelUse::Look(Polled::Empty),
            ChannelUse::Wait { timeout_ms: 500, waited: waited->0 },
        ]);
    }
}

/// The longest waits: half a second for the first frame, five seconds for a fresh
/// one, twenty for the device to be opened and three for the end of the thread.
pub proof fn law_longest_waits<T>(waited: Waited<T>)
    ensures
        wait(FRAME_RECV_TIMEOUT_MS, waited) == seq![
            ChannelUse::Wait { timeout_ms: 500, waited },
        ],
        wait((FRESH_FRAME_RECV_TIMEOUT_SECS * 1000) as u64, waited) == seq![
            ChannelUse::Wait { timeout_ms: 5000, waited },
        ],
        wait((INIT_TIMEOUT_SECS * 1000) as u64, waited) == seq![
            ChannelUse::Wait { timeout_ms: 20000, waited },
        ],
        wait(CAPTURE_SHUTDOWN_TIMEOUT_MS, waited) == seq![
            ChannelUse::Wait { timeout_ms: 3000, waited },
        ],
{
}

/// This use of the channel brought this frame.
pub open spec fn brings(used: ChannelUse<CaptureMessage>, frame: CapturedFrame) -> bool {
    match used {
        ChannelUse::Look(polled) => polled == Polled::Message(CaptureMessage::Frame(frame)),
        ChannelUse::Wait { waited, .. } => waited == Waited::Message(CaptureMessage::Frame(frame)),
        ChannelUse::Send { .. } => false,
    }
}

/// The newest frames of a running capture.
pub struct V4lBackend {
    pub receiver: Inbox<CaptureMessage>,
    /// The newest frame, returned again when frames are asked for faster than
    /// they come.
    pub last_frame: Option<CapturedFrame>,
}

impl V4lBackend {
    /// The receiving side of a capture that has not delivered a frame yet.
    pub fn new(receiver: Receiver<CaptureMessage>) -> (r: V4lBackend)
        ensures
            r.last_frame is None,
            r.receiver.receiving() == receiver,
            r.receiver@ == Seq::<ChannelUse<CaptureMessage>>::empty(),
    {
        V4lBackend { receiver: Inbox::new(receiver, ()), last_frame: None }
    }

    /// The frame to return once the channel is empty: the newest one, which is
    /// kept, or else the one kept before.
    pub fn newest_or_cached(&mut self, newest: Option<CapturedFrame>) -> (r: Option<CapturedFrame>)
        ensures
            final(self).receiver == old(self).receiver,
            match newest {
                Some(frame) => {
                    &&& r == Some(frame)
                    &&& final(self).last_frame is Some
                    &&& final(self).last_frame->0.same_as(frame)
                },
                None => {
                    &&& final(self).last_frame == old(self).last_frame
                    &&& r is Some <==> old(self).last_frame is Some
                    &&& r is Some ==> r->0.same_as(old(self).last_frame->0)
                },
            },
    {
        match newest {
            Some(frame) => {
                self.last_frame = Some(frame.clone());
                Some(frame)
            },
            None => match &self.last_frame {
                Some(cached) => Some(cached.clone()),
                None => None,
            },
        }
    }

    /// Takes note of what came of waiting: a frame is kept and returned.
    pub fn after_wait(&mut self, waited: Waited<CaptureMessage>, kind: WaitKind) -> (r: Result<
        CapturedFrame,
        CaptureError,
    >)
        ensures
            final(self).receiver == old(self).receiver,
            follows_wait(waited, kind, old(self).last_frame, r, final(self).last_frame),
    {
        match waited {
            Waited::Message(CaptureMessage::Frame(frame)) => {
                self.last_frame = Some(frame.clone());
                Ok(frame)
            },
            Waited::Message(CaptureMessage::Disconnected(reason)) => Err(
                CaptureError::Disconnected(reason),
            ),
            Waited::TimedOut => match kind {
                WaitKind::FirstFrame => Err(CaptureError::FrameTimeout),
                WaitKind::FreshFrame => Err(CaptureError::FreshFrameTimeout),
            },
            Waited::Closed => Err(CaptureError::ThreadExited),
        }
    }
}

impl CaptureBackend for V4lBackend {
    /// The channel was used for more than before, and one of these uses brought
    /// the frame.
    open spec fn came_since(&self, before: &Self, frame: CapturedFrame) -> bool {
        &&& before.receiver@.is_prefix_of(self.receiver@)
        &&& exists|i: int|
            before.receiver@.len() <= i < self.receiver@.len() && brings(
                #[trigger] self.receiver@[i],
                frame,
            )
    }

    /// Empties the channel and returns the newest frame; with nothing new, the
    /// frame kept before; without that, the first to come within half a second.
    /// What the channel holds, the other threads decide.
    fn capture_frame(&mut self) -> (r: Result<CapturedFrame, CaptureError>)
        ensures
            exists|polled: Seq<Polled<CaptureMessage>>, waited: Option<Waited<CaptureMessage>>|
                #![trigger capturing(polled, waited)]
                {
                    &&& is_capture(
                        polled,
                        waited,
                        old(self).last_frame,
                        r,
                        final(self).last_frame,
                    )
                    &&& final(self).receiver.used_since(
                        old(self).receiver,
                        capturing(polled, waited),
                    )
                },
            match r {
                Ok(frame) => {
                    &&& final(self).last_frame is Some
                    &&& final(self).last_frame->0.same_as(frame)
                },
                Err(e) => {
                    &&& final(self).last_frame == old(self).last_frame
                    &&& e is Disconnected || e == CaptureError::ThreadExited || (e
                        == CaptureError::FrameTimeout && old(self).last_frame is None)
                },
            },
    {
        let mut newest: Option<CapturedFrame> = None;
        let mut left: u64 = MAX_CHANNEL_LOOKS;
        let ghost mut polled: Seq<Polled<CaptureMessage>> = Seq::empty();
        assert(old(self).receiver@ + looks(polled) =~= old(self).receiver@);
        while left > 0
            invariant_except_break
                polled.len() == MAX_CHANNEL_LOOKS - left,
                newest == newest_of(polled),
                drain_end(None, polled, 0) is None,
                forall|i: int| 0 <= i < polled.len() ==> is_frame(#[trigger] polled[i]),
            invariant
                self.last_frame == old(self).last_frame,
                self.receiver.used_since(old(self).receiver, looks(polled)),
            ensures
                are_looks(polled),
                looks_end(polled) == DrainStep::Drained(newest),
            decreases left,
        {
            let found: Polled<CaptureMessage> = self.receiver.try_recv();
            let ghost before: Seq<Polled<CaptureMessage>> = polled;
            proof {
                polled = polled.push(found);
                assert(looks(polled) =~= looks(before) + look(found));
                assert(old(self).receiver@ + looks(before) + look(found)
                    =~= old(self).receiver@ + looks(polled));
                assert(polled.drop_last() =~= before);
                lemma_looks_from(None, polled, 0);
            }
            match after_poll(newest, found) {
                DrainStep::Again(frame) => {
                    newest = frame;
                },
                DrainStep::Drained(frame) => {
                    newest = frame;
                    break;
                },
                DrainStep::Failed(e) => {
                    assert(capturing(polled, None) == looks(polled));
                    return Err(e);
                },
            }
            left = left - 1;
        }
        assert(capturing(polled, None) == looks(polled));
        if let Some(frame) = self.newest_or_cached(newest) {
            return Ok(frame);
        }
        let waited: Waited<CaptureMessage> = self.receiver.recv_timeout(FRAME_RECV_TIMEOUT_MS);
        assert(old(self).receiver@ + looks(polled) + wait(FRAME_RECV_TIMEOUT_MS, waited)
            =~= old(self).receiver@ + capturing(polled, Some(waited)));
        self.after_wait(waited, WaitKind::FirstFrame)
    }

    /// Waits up to five seconds for a frame that was not there before, and
    /// never returns the one kept. What comes, the other threads decide.
    fn capture_fresh_frame(&mut self) -> (r: Result<CapturedFrame, CaptureError>)
        ensures
            exists|waited: Waited<CaptureMessage>|
                #![trigger wait((FRESH_FRAME_RECV_TIMEOUT_SECS * 1000) as u64, waited)]
                {
                    &&& follows_wait(
                        waited,
                        WaitKind::FreshFrame,
                        old(self).last_frame,
                        r,
                        final(self).last_frame,
                    )
                    &&& final(self).receiver.used_since(
                        old(self).receiver,
                        wait((FRESH_FRAME_RECV_TIMEOUT_SECS * 1000) as u64, waited),
                    )
                },
            match r {
                Ok(frame) => {
                    &&& final(self).last_frame is Some
                    &&& final(self).last_frame->0.same_as(frame)
                },
                Err(e) => {
                    &&& final(self).last_frame == old(self).last_frame
                    &&& e is Disconnected || e == CaptureError::FreshFrameTimeout || e
                        == CaptureError::ThreadExited
                },
            },
    {
        let waited: Waited<CaptureMessage> = self.receiver.recv_timeout(
            FRESH_FRAME_RECV_TIMEOUT_SECS * 1000,
        );
        proof {
            let n = old(self).receiver@.len() as int;
            assert(self.receiver@[n] == ChannelUse::Wait {
                timeout_ms: (FRESH_FRAME_RECV_TIMEOUT_SECS * 1000) as u64,
                waited,
            });
            assert(old(self).receiver@.is_prefix_of(self.receiver@));
        }
        self.after_wait(waited, WaitKind::FreshFrame)
    }
}

/// Fresh frames come one after the other: what brought a later one followed what
/// brought an earlier one, so that none is returned twice.
pub proof fn law_fresh_frames_follow_each_other(
    start: V4lBackend,
    between: V4lBackend,
    end: V4lBackend,
    first: CapturedFrame,
    second: CapturedFrame,
)
    requires
        between.came_since(&start, first),
        end.came_since(&between, second),
    ensures
        exists|i: int, j: int|
            start.receiver@.len() <= i < j < end.receiver@.len() && brings(
                #[trigger] end.receiver@[i],
                first,
            ) && brings(#[trigger] end.receiver@[j], second),
{
    let i = choose|i: int|
        start.receiver@.len() <= i < between.receiver@.len() && brings(
            #[trigger] between.receiver@[i],
            first,
        );
    let j = choose|j: int|
        between.receiver@.len() <= j < end.receiver@.len() && brings(
            #[trigger] end.receiver@[j],
            second,
        );
    assert(end.receiver@[i] == between.receiver@[i]);
    assert(brings(end.receiver@[i], first) && brings(end.receiver@[j], second));
}

// ---------------------------------------------------------------------------
// Start and end of the capture thread
// ---------------------------------------------------------------------------
/// What follows the start of the capture thread.
#[derive(Debug)]
pub enum InitAction {
    /// The camera is ready.
    Proceed,
    /// Ask the thread to stop, wait for its end and report the error.
    StopAndJoin(CaptureError),
    /// Ask the thread to stop, let another thread wait for its end and report
    /// the error: it may hang in the driver.
    StopAndReap(CaptureError),
    /// Wait for the thread's end and report the error.
    Join(CaptureError),
}

/// What follows from what the capture thread said about opening the device.
pub open spec fn init_action(waited: Waited<Result<(), String>>) -> InitAction {
    match waited {
        Waited::Message(Ok(_)) => InitAction::Proceed,
        Waited::Message(Err(reason)) => InitAction::StopAndJoin(CaptureError::InitFailed(reason)),
        Waited::TimedOut => InitAction::StopAndReap(CaptureError::InitTimeout),
        Waited::Closed => InitAction::Join(CaptureError::InitThreadExited),
    }
}

/// Decides what follows from what the capture thread said about opening the
/// device.
pub fn after_init(waited: Waited<Result<(), String>>) -> (r: InitAction)
    ensures
        r == init_action(waited),
{
    match waited {
        Waited::Message(Ok(_)) => InitAction::Proceed,
        Waited::Message(Err(reason)) => InitAction::StopAndJoin(CaptureError::InitFailed(reason)),
        Waited::TimedOut => InitAction::StopAndReap(CaptureError::InitTimeout),
        Waited::Closed => InitAction::Join(CaptureError::InitThreadExited),
    }
}

/// Waits up to twenty seconds for the capture thread to open the device. What is
/// heard of it, the thread decides.
pub fn await_init(ready: &mut Inbox<Result<(), String>>) -> (r: InitAction)
    ensures
        exists|waited: Waited<Result<(), String>>|
            final(ready).used_since(
                *old(ready),
                #[trigger] wait((INIT_TIMEOUT_SECS * 1000) as u64, waited),
            ) && r == init_action(waited),
{
    let waited: Waited<Result<(), String>> = ready.recv_timeout(INIT_TIMEOUT_SECS * 1000);
    after_init(waited)
}

/// What follows the request to end the capture thread.
#[derive(Debug, Clone, Copy, PartialEq, Eq, Structural)]
pub enum ShutdownAction {
    /// The thread has ended: wait for it.
    Join,
    /// It has not ended in time: let another thread wait for it.
    Reap,
}

/// Decides what follows from what was heard of the end of the capture thread.
pub fn after_shutdown(waited: Waited<()>) -> (r: ShutdownAction)
    ensures
        r == (match waited {
            Waited::TimedOut => ShutdownAction::Reap,
            _ => ShutdownAction::Join,
        }),
{
    match waited {
        Waited::TimedOut => ShutdownAction::Reap,
        _ => ShutdownAction::Join,
    }
}

/// Waits up to three seconds for the end of the capture thread. The answer is
/// that of `after_shutdown` to what was heard, which the thread decides.
pub fn await_shutdown(done: &mut Inbox<()>) -> (r: ShutdownAction)
    ensures
        exists|waited: Waited<()>|
            final(done).used_since(
                *old(done),
                #[trigger] wait(CAPTURE_SHUTDOWN_TIMEOUT_MS, waited),
            ) && r == (match waited {
                Waited::TimedOut => ShutdownAction::Reap,
                _ => ShutdownAction::Join,
            }),
{
    let waited: Waited<()> = done.recv_timeout(CAPTURE_SHUTDOWN_TIMEOUT_MS);
    after_shutdown(waited)
}

/// Whether what was found asks the capture to stop: a signal, or nobody left
/// to give one.
pub fn asks_to_stop(polled: Polled<()>) -> (r: bool)
    ensures
        r == !(polled is Empty),
{
    !matches!(polled, Polled::Empty)
}

/// Whether the capture is asked to stop. The answer is that of `asks_to_stop`
/// to what is found in the channel, which the other threads decide.
pub fn stop_requested(stop: &mut Inbox<()>) -> (r: bool)
    ensures
        exists|polled: Polled<()>|
            final(stop).used_since(*old(stop), #[trigger] look(polled)) && r == !(
            polled is Empty),
{
    let polled: Polled<()> = stop.try_recv();
    asks_to_stop(polled)
}

/// Whether waiting was cut short by a signal, or by nobody being left to give
/// one.
pub fn wait_was_cut_short(waited: Waited<()>) -> (r: bool)
    ensures
        r == !(waited is TimedOut),
{
    !matches!(waited, Waited::TimedOut)
}

/// Waits for `base_ms` and a random time of up to half a second more, so that
/// several processes do not reach for the device at once. The result is that
/// of `wait_was_cut_short` to what was heard meanwhile, which the other threads
/// decide.
pub fn wait_with_ebusy_jitter(base_ms: u64, stop: &mut Inbox<()>) -> (r: bool)
    requires
        base_ms + EBUSY_JITTER_MAX_MS <= u64::MAX,
    ensures
        exists|wait_ms: u64, waited: Waited<()>|
            final(stop).used_since(*old(stop), #[trigger] wait(wait_ms, waited))
                && is_jittered_wait(base_ms, wait_ms) && r == !(waited is TimedOut),
{
    let wait_ms: u64 = jittered_wait_ms(base_ms);
    let waited: Waited<()> = stop.recv_timeout(wait_ms);
    wait_was_cut_short(waited)
}

/// A camera that was opened is used. If opening failed, the thread is told to
/// stop and waited for, and the error says why; a thread that says nothing in
/// time may hang, and is left to another; one that has ended is only waited for.
pub proof fn law_ends_of_opening(waited: Waited<Result<(), String>>, r: InitAction)
    requires
        call_ensures(after_init, (waited,), r),
    ensures
        match waited {
            Waited::Message(Ok(_)) => r is Proceed,
            Waited::Message(Err(reason)) => r matches InitAction::StopAndJoin(
                CaptureError::InitFailed(text),
            ) && text == reason,
            Waited::TimedOut => r == InitAction::StopAndReap(CaptureError::InitTimeout),
            Waited::Closed => r == InitAction::Join(CaptureError::InitThreadExited),
        },
        r == init_action(waited),
{
}

/// Of a thread that is to end, only one that says nothing in time is left to
/// another. A signal to stop, and nobody being left to give one, both count as
/// the request to stop, whether looked or waited for.
pub proof fn law_requests_to_stop(
    waited: Waited<()>,
    polled: Polled<()>,
    shutdown: ShutdownAction,
    cut_short: bool,
    stop: bool,
)
    requires
        call_ensures(after_shutdown, (waited,), shutdown),
        call_ensures(wait_was_cut_short, (waited,), cut_short),
        call_ensures(asks_to_stop, (polled,), stop),
    ensures
        shutdown == ShutdownAction::Reap <==> waited == Waited::<()>::TimedOut,
        cut_short <==> waited is Message || waited is Closed,
        stop <==> polled is Message || polled is Closed,
{
}

/// A message that could not be sent comes back to be sent again only where the
/// channel was full.
pub proof fn law_ends_of_sending(outcome: SendOutcome<CaptureMessage>, r: ReplaceStep)
    requires
        call_ensures(after_send, (outcome,), r),
    ensures
        r is Done <==> outcome is Sent,
        r is Closed <==> outcome is Closed,
        outcome matches SendOutcome::Full(message) ==> (r matches ReplaceStep::Again(again) && again
            == message),
{
}

/// A failure of the stream is reported to the other threads exactly if it says
/// that the device is gone, in the words that end the node.
pub proof fn law_lost_devices_are_reported(message: &str, r: Option<CaptureMessage>)
    requires
        call_ensures(after_stream_failure, (message,), r),
    ensures
        r is Some <==> says_disconnected(message@, lowercase(message@)),
        r matches Some(report) ==> (report matches CaptureMessage::Disconnected(reason) && reason@
            == "摄像头已断开连接 (设备可能已被拔出或 USB 断开)"@),
{
}

/// `await_init` waits twenty seconds, once, and `await_shutdown` three; both decide
/// by what they hear.
pub proof fn law_threads_are_waited_for(opened: InitAction, ended: ShutdownAction)
    ensures
        forall|ready: &mut Inbox<Result<(), String>>| #[trigger]
            call_ensures(await_init, (ready,), opened) ==> exists|
                waited: Waited<Result<(), String>>,
            | #[trigger]
                init_action(waited) == opened && final(ready).used_since(
                    *ready,
                    seq![ChannelUse::Wait { timeout_ms: 20000, waited }],
                ),
        forall|done: &mut Inbox<()>| #[trigger]
            call_ensures(await_shutdown, (done,), ended) ==> exists|waited: Waited<()>|
                final(done).used_since(*done, #[trigger] wait(3000, waited)) && (ended
                    == ShutdownAction::Reap <==> waited is TimedOut),
{
    assert forall|ready: &mut Inbox<Result<(), String>>| #[trigger]
        call_ensures(await_init, (ready,), opened) implies exists|
        waited: Waited<Result<(), String>>,
    | #[trigger]
        init_action(waited) == opened && final(ready).used_since(
            *ready,
            seq![ChannelUse::Wait { timeout_ms: 20000, waited }],
        ) by {
        let waited = choose|waited: Waited<Result<(), String>>|
            final(ready).used_since(
                *ready,
                #[trigger] wait((INIT_TIMEOUT_SECS * 1000) as u64, waited),
            ) && opened == init_action(waited);
        assert(init_action(waited) == opened);
    }
}

/// `stop_requested` looks once, and `wait_with_ebusy_jitter` waits once, for the time
/// given and at most half a second more; both heed a signal and the lack of
/// anybody to give one.
pub proof fn law_stops_are_heeded(stop: bool, base_ms: u64, cut_short: bool)
    ensures
        forall|inbox: &mut Inbox<()>| #[trigger]
            call_ensures(stop_requested, (inbox,), stop) ==> exists|polled: Polled<()>|
                final(inbox).used_since(*inbox, #[trigger] look(polled)) && (stop <==> !(
                polled is Empty)),
        forall|inbox: &mut Inbox<()>| #[trigger]
            call_ensures(wait_with_ebusy_jitter, (base_ms, inbox), cut_short) ==> exists|
                wait_ms: u64,
                waited: Waited<()>,
            |
                final(inbox).used_since(*inbox, #[trigger] wait(wait_ms, waited)) && base_ms
                    <= wait_ms <= base_ms + 500 && (cut_short <==> !(waited is TimedOut)),
{
}

} // verus!
