//! The transport between a connection's frames and the payloads that its user sees.
//!
//! Pings never reach the user: each is answered with a pong that carries the ping's payload. The
//! pongs that still have to go out wait in a queue, and while any waits nothing else is sent.
//!
//! The upstream is asked for frames and handed frames by the caller. A call of the transport is
//! a run of steps: the caller starts it with `Called`, does what the returned action says, and
//! hands back what came of it, until the action is `Return`.
use std::collections::VecDeque;

use vstd::prelude::*;
use vstd::slice::slice_to_vec;
use vstd::utf8::{decode_utf8, encode_utf8, valid_utf8};

use crate::error::WsError;
use crate::wsframe::{frame_bytes, law_frame_round_trip, masked_frame_bytes, parse_frame};
use crate::wsframe::{law_masked_frame_read, FrameModel, FrameType, OpType, WebSocketFrame};

verus! {

/// What the user of a connection sends and receives.
#[derive(Debug, PartialEq, Eq)]
pub enum WsPayload {
    Text(String),
    Binary(Vec<u8>),
}

/// What a payload holds.
#[verifier::ext_equal]
pub enum PayloadModel {
    Text(Seq<char>),
    Binary(Seq<u8>),
}

impl View for WsPayload {
    type V = PayloadModel;

    open spec fn view(&self) -> PayloadModel {
        match self {
            WsPayload::Text(text) => PayloadModel::Text(text@),
            WsPayload::Binary(bytes) => PayloadModel::Binary(bytes@),
        }
    }
}

impl Clone for WsPayload {
    fn clone(&self) -> (copy: WsPayload)
        ensures
            copy@ == self@,
    {
        match self {
            WsPayload::Text(text) => WsPayload::Text(text.clone()),
            WsPayload::Binary(bytes) => WsPayload::Binary(
                slice_to_vec(bytes.as_slice()),
            ),
        }
    }
}

/// A value that is there, or will be later.
#[derive(Debug, PartialEq, Eq)]
pub enum Async<T> {
    Ready(T),
    NotReady,
}

/// Whether something was taken for sending, or is handed back to be tried again.
#[derive(Debug, PartialEq, Eq)]
pub enum AsyncSink<T> {
    Ready,
    NotReady(T),
}

/// Why a read failed: the upstream's own error, or a fault that the transport found.
#[derive(Debug, PartialEq, Eq)]
pub enum PollError<E> {
    Upstream(E),
    Transport(WsError),
}

/// What has just happened in a run of `WsTransport::poll_complete`.
#[derive(Debug, PartialEq, Eq)]
pub enum FlushEvent<E> {
    /// The run begins.
    Called,
    /// The upstream took the frame (`Ready`), did not take it, or failed.
    Answered(Result<Async<()>, E>),
    /// The upstream's own `poll_complete` returned this.
    Completed(Result<Async<()>, E>),
}

/// What is to be done next in a run of `WsTransport::poll_complete`.
pub enum FlushAction<E> {
    /// Hand the frame to the upstream.
    StartSend(WebSocketFrame),
    /// Call the upstream's own `poll_complete`.
    PollComplete,
    /// The run is over, with this result.
    Return(Result<Async<()>, E>),
}

/// `FlushAction` with what the frame holds.
#[verifier::ext_equal]
pub enum FlushStep<E> {
    StartSend(FrameModel),
    PollComplete,
    Return(Result<Async<()>, E>),
}

impl<E> View for FlushAction<E> {
    type V = FlushStep<E>;

    open spec fn view(&self) -> FlushStep<E> {
        match self {
            FlushAction::StartSend(frame) => FlushStep::StartSend(frame@),
            FlushAction::PollComplete => FlushStep::PollComplete,
            FlushAction::Return(result) => FlushStep::Return(*result),
        }
    }
}

/// What has just happened in a run of `WsTransport::poll`.
pub enum PollEvent<E> {
    /// The run begins.
    Called,
    /// The upstream was asked for a frame and gave one, ended, had none yet, or failed.
    Polled(Result<Async<Option<WebSocketFrame>>, E>),
    /// Something happened while pongs were sent.
    Flushing(FlushEvent<E>),
}

/// `PollEvent` with what the frame holds.
#[verifier::ext_equal]
pub enum PollInput<E> {
    Called,
    Frame(FrameModel),
    End,
    NotReady,
    Failed(E),
    Flushing(FlushEvent<E>),
}

impl<E> View for PollEvent<E> {
    type V = PollInput<E>;

    open spec fn view(&self) -> PollInput<E> {
        match self {
            PollEvent::Called => PollInput::Called,
            PollEvent::Polled(Ok(Async::Ready(Some(frame)))) => PollInput::Frame(frame@),
            PollEvent::Polled(Ok(Async::Ready(None))) => PollInput::End,
            PollEvent::Polled(Ok(Async::NotReady)) => PollInput::NotReady,
            PollEvent::Polled(Err(error)) => PollInput::Failed(*error),
            PollEvent::Flushing(event) => PollInput::Flushing(*event),
        }
    }
}

/// What is to be done next in a run of `WsTransport::poll`.
pub enum PollAction<E> {
    /// Ask the upstream for a frame.
    PollUpstream,
    /// Hand the frame to the upstream.
    StartSend(WebSocketFrame),
    /// Call the upstream's own `poll_complete`.
    PollComplete,
    /// The run is over, with this result.
    Return(Result<Async<Option<WsPayload>>, PollError<E>>),
}

/// `PollAction` with what the frame or the payload holds.
#[verifier::ext_equal]
pub enum PollStep<E> {
    PollUpstream,
    StartSend(FrameModel),
    PollComplete,
    Deliver(PayloadModel),
    End,
    NotReady,
    Fail(PollError<E>),
}

impl<E> View for PollAction<E> {
    type V = PollStep<E>;

    open spec fn view(&self) -> PollStep<E> {
        match self {
            PollAction::PollUpstream => PollStep::PollUpstream,
            PollAction::StartSend(frame) => PollStep::StartSend(frame@),
            PollAction::PollComplete => PollStep::PollComplete,
            PollAction::Return(Ok(Async::Ready(Some(payload)))) => PollStep::Deliver(payload@),
            PollAction::Return(Ok(Async::Ready(None))) => PollStep::End,
            PollAction::Return(Ok(Async::NotReady)) => PollStep::NotReady,
            PollAction::Return(Err(error)) => PollStep::Fail(*error),
        }
    }
}

/// How a call of `WsTransport::start_send` goes on.
pub enum SendAction {
    /// The payload is not taken now: it is handed back.
    Return(AsyncSink<WsPayload>),
    /// Hand the frame to the upstream, and its answer and the payload to `finish_send`.
    StartSend(WebSocketFrame, WsPayload),
}

/// The bytes that a payload takes on the wire.
pub open spec fn payload_bytes(payload: PayloadModel) -> Seq<u8> {
    match payload {
        PayloadModel::Text(text) => encode_utf8(text),
        PayloadModel::Binary(bytes) => bytes,
    }
}

/// The frame that carries `payload`.
pub open spec fn data_frame(payload: PayloadModel) -> FrameModel {
    FrameModel {
        fin: true,
        frame_type: FrameType::Data,
        op_type: match payload {
            PayloadModel::Text(_) => OpType::Text,
            PayloadModel::Binary(_) => OpType::Binary,
        },
        payload: payload_bytes(payload),
    }
}

/// The pong that answers a ping with `payload`.
pub open spec fn pong_frame(payload: Seq<u8>) -> FrameModel {
    FrameModel { fin: true, frame_type: FrameType::Control, op_type: OpType::Pong, payload }
}

/// `pending` without the pong at its front.
pub open spec fn without_front(pending: Seq<Seq<u8>>) -> Seq<Seq<u8>> {
    if pending.len() == 0 {
        pending
    } else {
        pending.drop_first()
    }
}

/// How the sending of pongs goes on: with the first that waits, and where none does with the
/// upstream's own work.
pub open spec fn flush_next<E>(pending: Seq<Seq<u8>>) -> FlushStep<E> {
    if pending.len() == 0 {
        FlushStep::PollComplete
    } else {
        FlushStep::StartSend(pong_frame(pending[0]))
    }
}

/// One step of `poll_complete`: the pongs that wait afterwards, and what is to be done. A pong
/// waits until the upstream has taken it. One that the upstream did not take stays in front of
/// those behind it; one on which the upstream failed is given up.
pub open spec fn flush_step<E>(pending: Seq<Seq<u8>>, event: FlushEvent<E>) -> (
    Seq<Seq<u8>>,
    FlushStep<E>,
) {
    match event {
        FlushEvent::Called => (pending, flush_next(pending)),
        FlushEvent::Answered(Ok(Async::Ready(_))) => (
            without_front(pending),
            flush_next(without_front(pending)),
        ),
        FlushEvent::Answered(Ok(Async::NotReady)) => (pending, FlushStep::PollComplete),
        FlushEvent::Answered(Err(error)) => (
            without_front(pending),
            FlushStep::Return(Err(error)),
        ),
        FlushEvent::Completed(result) => (pending, FlushStep::Return(result)),
    }
}

/// What a step of `poll_complete` means for the read that it is part of: of its result only a
/// failure counts.
pub open spec fn flushed<E>(step: FlushStep<E>) -> PollStep<E> {
    match step {
        FlushStep::StartSend(frame) => PollStep::StartSend(frame),
        FlushStep::PollComplete => PollStep::PollComplete,
        FlushStep::Return(Ok(_)) => PollStep::PollUpstream,
        FlushStep::Return(Err(error)) => PollStep::Fail(PollError::Upstream(error)),
    }
}

/// What the user gets for a frame that is no ping.
pub open spec fn delivered<E>(frame: FrameModel) -> PollStep<E> {
    match frame.op_type {
        OpType::Binary => PollStep::Deliver(PayloadModel::Binary(frame.payload)),
        OpType::Text => PollStep::Deliver(PayloadModel::Text(decode_utf8(frame.payload))),
        _ => PollStep::Fail(PollError::Transport(WsError::UnexpectedFrame)),
    }
}

/// One step of `poll`: the pongs that wait afterwards, and what is to be done.
pub open spec fn poll_step<E>(pending: Seq<Seq<u8>>, event: PollInput<E>) -> (
    Seq<Seq<u8>>,
    PollStep<E>,
) {
    match event {
        PollInput::Called => (pending, PollStep::PollUpstream),
        PollInput::Frame(frame) => if frame.op_type == OpType::Ping {
            let queue = pending.push(frame.payload);
            (queue, flushed(flush_next(queue)))
        } else {
            (pending, delivered(frame))
        },
        PollInput::End => (pending, PollStep::End),
        PollInput::NotReady => (pending, PollStep::NotReady),
        PollInput::Failed(error) => (pending, PollStep::Fail(PollError::Upstream(error))),
        PollInput::Flushing(event) => {
            let (left, step) = flush_step(pending, event);
            (left, flushed(step))
        },
    }
}

/// A connection's transport: the upstream that carries its frames, and the pongs that wait.
pub struct WsTransport<T> {
    upstream: T,
    pongs: VecDeque<WsPayload>,
}

impl<T> WsTransport<T> {
    pub closed spec fn spec_upstream(&self) -> T {
        self.upstream
    }

    /// The payloads of the pongs that wait, the first to go out first.
    pub closed spec fn pending(&self) -> Seq<Seq<u8>> {
        self.pongs@.map_values(|pong: WsPayload| payload_bytes(pong@))
    }

    /// Whether all pongs that wait carry bytes, not text.
    pub closed spec fn pongs_are_binary(&self) -> bool {
        forall|i: int| 0 <= i < self.pongs@.len() ==> #[trigger] self.pongs@[i] is Binary
    }

    /// A transport over `upstream` for which no pong waits.
    pub fn new(upstream: T) -> (transport: WsTransport<T>)
        ensures
            transport.spec_upstream() == upstream,
            transport.pending() == Seq::<Seq<u8>>::empty(),
            transport.pongs_are_binary(),
    {
        let transport = WsTransport { upstream, pongs: VecDeque::new() };
        assert(transport.pending() =~= Seq::<Seq<u8>>::empty());
        transport
    }

    /// The upstream, for the caller to do what an action says.
    pub fn upstream_mut(&mut self) -> (upstream: &mut T)
        ensures
            *upstream == old(self).spec_upstream(),
            final(self).spec_upstream() == *final(upstream),
            final(self).pending() == old(self).pending(),
            final(self).pongs_are_binary() == old(self).pongs_are_binary(),
    {
        &mut self.upstream
    }

    /// Offers the first pong that waits to the upstream. It stays in the queue.
    fn offer_pong<E>(&self) -> (action: FlushAction<E>)
        ensures
            action@ == flush_next::<E>(self.pending()),
    {
        if self.pongs.len() == 0 {
            return FlushAction::PollComplete;
        }
        let pong = match &self.pongs[0] {
            WsPayload::Binary(bytes) => WebSocketFrame::new(
                bytes.as_slice(),
                FrameType::Control,
                OpType::Pong,
            ),
            WsPayload::Text(text) => WebSocketFrame::new(
                text.as_str().as_bytes(),
                FrameType::Control,
                OpType::Pong,
            ),
        };
        FlushAction::StartSend(pong)
    }

    /// Takes the first pong that waits out of the queue.
    fn drop_pong(&mut self)
        ensures
            final(self).pending() == without_front(old(self).pending()),
            final(self).spec_upstream() == old(self).spec_upstream(),
            old(self).pongs_are_binary() ==> final(self).pongs_are_binary(),
    {
        let _ = self.pongs.pop_front();
        assert(self.pending() =~= without_front(old(self).pending()));
    }

    /// Sends the pongs that wait, then has the upstream finish its own sending.
    pub fn poll_complete<E>(&mut self, event: FlushEvent<E>) -> (action: FlushAction<E>)
        ensures
            (final(self).pending(), action@) == flush_step(old(self).pending(), event),
            final(self).spec_upstream() == old(self).spec_upstream(),
            old(self).pongs_are_binary() ==> final(self).pongs_are_binary(),
    {
        match event {
            FlushEvent::Called => self.offer_pong(),
            FlushEvent::Answered(Ok(Async::Ready(_))) => {
                self.drop_pong();
                self.offer_pong()
            },
            FlushEvent::Answered(Ok(Async::NotReady)) => FlushAction::PollComplete,
            FlushEvent::Answered(Err(error)) => {
                self.drop_pong();
                FlushAction::Return(Err(error))
            },
            FlushEvent::Completed(result) => FlushAction::Return(result),
        }
    }

    /// Reads the next payload for the user. Pings that come first are answered on the way.
    ///
    /// A text frame has to hold text: its payload is valid UTF-8.
    pub fn poll<E>(&mut self, event: PollEvent<E>) -> (action: PollAction<E>)
        requires
            event@ matches PollInput::Frame(frame) ==> frame.op_type == OpType::Text
                ==> valid_utf8(frame.payload),
        ensures
            (final(self).pending(), action@) == poll_step(old(self).pending(), event@),
            final(self).spec_upstream() == old(self).spec_upstream(),
            old(self).pongs_are_binary() ==> final(self).pongs_are_binary(),
    {
        let flushed = match event {
            PollEvent::Called => {
                return PollAction::PollUpstream;
            },
            PollEvent::Polled(Err(error)) => {
                return PollAction::Return(Err(PollError::Upstream(error)));
            },
            PollEvent::Polled(Ok(Async::NotReady)) => {
                return PollAction::Return(Ok(Async::NotReady));
            },
            PollEvent::Polled(Ok(Async::Ready(None))) => {
                return PollAction::Return(Ok(Async::Ready(None)));
            },
            PollEvent::Polled(Ok(Async::Ready(Some(frame)))) => match frame.op_type() {
                OpType::Ping => {
                    let ghost before = self.pending();
                    self.pongs.push_back(WsPayload::Binary(frame.payload()));
                    assert(self.pending() =~= before.push(frame@.payload));
                    self.poll_complete(FlushEvent::Called)
                },
                OpType::Binary => {
                    let payload = WsPayload::Binary(frame.payload());
                    return PollAction::Return(Ok(Async::Ready(Some(payload))));
                },
                OpType::Text => {
                    let payload = text_payload(frame.payload());
                    return PollAction::Return(Ok(Async::Ready(Some(payload))));
                },
                _ => {
                    return PollAction::Return(Err(PollError::Transport(WsError::UnexpectedFrame)));
                },
            },
            PollEvent::Flushing(event) => self.poll_complete(event),
        };
        match flushed {
            FlushAction::StartSend(frame) => PollAction::StartSend(frame),
            FlushAction::PollComplete => PollAction::PollComplete,
            FlushAction::Return(Ok(_)) => PollAction::PollUpstream,
            FlushAction::Return(Err(error)) => PollAction::Return(
                Err(PollError::Upstream(error)),
            ),
        }
    }

    /// Starts to send `item`. It is only taken where no pong waits.
    pub fn start_send(&self, item: WsPayload) -> (action: SendAction)
        ensures
            if self.pending().len() > 0 {
                action == SendAction::Return(AsyncSink::NotReady(item))
            } else {
                &&& action matches SendAction::StartSend(frame, kept)
                &&& frame@ == data_frame(item@)
                &&& kept == item
                &&& match item {
                    WsPayload::Text(text) => frame@.op_type == OpType::Text && frame@.payload
                        == encode_utf8(text@),
                    WsPayload::Binary(bytes) => frame@.op_type == OpType::Binary && frame@.payload
                        == bytes@,
                }
            },
    {
        if self.pongs.len() > 0 {
            return SendAction::Return(AsyncSink::NotReady(item));
        }
        let frame = match &item {
            WsPayload::Text(text) => WebSocketFrame::new(
                text.as_str().as_bytes(),
                FrameType::Data,
                OpType::Text,
            ),
            WsPayload::Binary(bytes) => WebSocketFrame::new(
                bytes.as_slice(),
                FrameType::Data,
                OpType::Binary,
            ),
        };
        SendAction::StartSend(frame, item)
    }
}

/// Ends a call of `WsTransport::start_send` whose frame was handed to the upstream: `item` comes
/// back where the upstream did not take its frame.
pub fn finish_send<E>(item: WsPayload, answer: Result<Async<()>, E>) -> (result: Result<
    AsyncSink<WsPayload>,
    E,
>)
    ensures
        match answer {
            Ok(Async::Ready(_)) => result == Ok::<AsyncSink<WsPayload>, E>(AsyncSink::Ready),
            Ok(Async::NotReady) => result == Ok::<AsyncSink<WsPayload>, E>(
                AsyncSink::NotReady(item),
            ),
            Err(error) => result == Err::<AsyncSink<WsPayload>, E>(error),
        },
{
    match answer {
        Ok(Async::Ready(_)) => Ok(AsyncSink::Ready),
        Ok(Async::NotReady) => Ok(AsyncSink::NotReady(item)),
        Err(error) => Err(error),
    }
}

/// The text that `bytes` encode.
fn text_payload(bytes: Vec<u8>) -> (payload: WsPayload)
    requires
        valid_utf8(bytes@),
    ensures
        payload@ == PayloadModel::Text(decode_utf8(bytes@)),
{
    let text = String::from_utf8(bytes).unwrap();
    proof {
        vstd::utf8::encode_utf8_decode_utf8(text@);
    }
    WsPayload::Text(text)
}

/// Something that happens to a transport.
pub enum TransportEvent<E> {
    /// A step of `poll`.
    Read(PollInput<E>),
    /// A step of `poll_complete`.
    Flush(FlushEvent<E>),
}

/// The upstream's answer to a frame that it was handed, where `event` brings one.
pub open spec fn answer_of<E>(event: TransportEvent<E>) -> Option<Result<Async<()>, E>> {
    match event {
        TransportEvent::Read(PollInput::Flushing(FlushEvent::Answered(answer))) => Some(answer),
        TransportEvent::Flush(FlushEvent::Answered(answer)) => Some(answer),
        _ => None,
    }
}

/// The pongs that wait after `event`, and the frame that it hands to the upstream.
pub open spec fn transport_step<E>(pending: Seq<Seq<u8>>, event: TransportEvent<E>) -> (
    Seq<Seq<u8>>,
    Option<FrameModel>,
) {
    match event {
        TransportEvent::Read(event) => {
            let (left, step) = poll_step(pending, event);
            match step {
                PollStep::StartSend(frame) => (left, Some(frame)),
                _ => (left, None),
            }
        },
        TransportEvent::Flush(event) => {
            let (left, step) = flush_step(pending, event);
            match step {
                FlushStep::StartSend(frame) => (left, Some(frame)),
                _ => (left, None),
            }
        },
    }
}

/// What has come of a transport.
#[verifier::ext_equal]
pub struct TransportRun {
    /// The payloads of the pongs that wait.
    pub left: Seq<Seq<u8>>,
    /// The frame that the upstream has just been handed, and has not answered yet.
    pub offered: Option<FrameModel>,
    /// The frames that the transport has sent on its own and the upstream has taken.
    pub taken: Seq<FrameModel>,
}

/// What comes of a transport for which `pending` wait, after all of `events`.
pub open spec fn transport_run<E>(
    pending: Seq<Seq<u8>>,
    events: Seq<TransportEvent<E>>,
) -> TransportRun
    decreases events.len(),
{
    if events.len() == 0 {
        TransportRun { left: pending, offered: None, taken: Seq::empty() }
    } else {
        let before = transport_run(pending, events.drop_last());
        let (left, offered) = transport_step(before.left, events.last());
        let taken = match (answer_of(events.last()), before.offered) {
            (Some(Ok(Async::Ready(_))), Some(frame)) => before.taken.push(frame),
            _ => before.taken,
        };
        TransportRun { left, offered, taken }
    }
}

/// Whether the upstream answers only where it has just been handed a frame.
pub open spec fn answers_follow_offers<E>(
    pending: Seq<Seq<u8>>,
    events: Seq<TransportEvent<E>>,
) -> bool
    decreases events.len(),
{
    events.len() == 0 || {
        &&& answers_follow_offers(pending, events.drop_last())
        &&& answer_of(events.last()) is Some ==> transport_run(
            pending,
            events.drop_last(),
        ).offered is Some
    }
}

/// Whether the upstream never fails on a frame that it is handed.
pub open spec fn no_answer_fails<E>(events: Seq<TransportEvent<E>>) -> bool {
    forall|i: int|
        0 <= i < events.len() ==> !(#[trigger] answer_of(events[i]) matches Some(Err(_)))
}

/// The payloads of the pings among `events`.
pub open spec fn pings<E>(events: Seq<TransportEvent<E>>) -> Seq<Seq<u8>>
    decreases events.len(),
{
    if events.len() == 0 {
        Seq::empty()
    } else {
        match events.last() {
            TransportEvent::Read(PollInput::Frame(frame)) if frame.op_type == OpType::Ping => pings(
                events.drop_last(),
            ).push(frame.payload),
            _ => pings(events.drop_last()),
        }
    }
}

/// The pongs with these payloads.
pub open spec fn pong_frames(payloads: Seq<Seq<u8>>) -> Seq<FrameModel> {
    payloads.map_values(|payload: Seq<u8>| pong_frame(payload))
}

/// The only frames that a transport sends on its own are pongs that wait, and it sends the one
/// that has waited longest.
pub proof fn law_oldest_pong_offered<E>(pending: Seq<Seq<u8>>, events: Seq<TransportEvent<E>>)
    ensures
        ({
            let run = transport_run(pending, events);
            run.offered matches Some(frame) ==> run.left.len() > 0 && frame == pong_frame(
                run.left[0],
            )
        }),
{
}

/// Each ping is answered by one pong with its own payload, in the order in which the pings came,
/// and no pong is lost: as long as the upstream does not fail on one, the pongs that it has taken
/// and those that wait are the pongs for what waited before and for the pings that came.
pub proof fn law_pings_answered_in_order<E>(
    pending: Seq<Seq<u8>>,
    events: Seq<TransportEvent<E>>,
)
    requires
        answers_follow_offers(pending, events),
        no_answer_fails(events),
    ensures
        ({
            let run = transport_run(pending, events);
            run.taken + pong_frames(run.left) == pong_frames(pending + pings(events))
        }),
    decreases events.len(),
{
    if events.len() == 0 {
        assert(pending + pings(events) =~= pending);
        assert(Seq::<FrameModel>::empty() + pong_frames(pending) =~= pong_frames(pending));
    } else {
        let first = events.drop_last();
        assert forall|i: int| 0 <= i < first.len() implies !(#[trigger] answer_of(
            first[i],
        ) matches Some(Err(_))) by {
            assert(first[i] == events[i]);
        }
        law_pings_answered_in_order(pending, first);
        law_oldest_pong_offered(pending, first);
        let before = transport_run(pending, first);
        let after = transport_run(pending, events);
        let came = pings(first);
        assert(!(answer_of(events[events.len() - 1]) matches Some(Err(_))));
        match events.last() {
            TransportEvent::Read(PollInput::Frame(frame)) if frame.op_type == OpType::Ping => {
                assert(pending + came.push(frame.payload) =~= (pending + came).push(frame.payload));
                assert(pong_frames(after.left) =~= pong_frames(before.left).push(
                    pong_frame(frame.payload),
                ));
                assert(pong_frames(pending + pings(events)) =~= pong_frames(pending + came).push(
                    pong_frame(frame.payload),
                ));
            },
            _ => {
                if after.left != before.left {
                    assert(seq![pong_frame(before.left[0])] + pong_frames(after.left)
                        =~= pong_frames(before.left));
                }
            },
        }
        assert(after.taken + pong_frames(after.left) =~= pong_frames(pending + pings(events)));
    }
}

/// A pong that the upstream did not take waits on in its place, and the next `poll_complete`
/// offers it again.
pub proof fn law_refused_pong_offered_again<E>(pending: Seq<Seq<u8>>)
    requires
        pending.len() > 0,
    ensures
        flush_step::<E>(pending, FlushEvent::Answered(Ok(Async::NotReady))) == (
            pending,
            FlushStep::<E>::PollComplete,
        ),
        poll_step::<E>(
            pending,
            PollInput::Flushing(FlushEvent::Answered(Ok(Async::NotReady))),
        ) == (pending, PollStep::<E>::PollComplete),
        flush_step::<E>(pending, FlushEvent::Called) == (
            pending,
            FlushStep::<E>::StartSend(pong_frame(pending[0])),
        ),
{
}

/// A run of `poll_complete` from where `step` is to be done, with the upstream's answers to the
/// frames that it is handed: the pongs that wait in the end, the frames that were handed over,
/// and the first step that is not a frame, or for which there is no answer.
pub open spec fn flush_run<E>(
    pending: Seq<Seq<u8>>,
    step: FlushStep<E>,
    answers: Seq<Result<Async<()>, E>>,
) -> (Seq<Seq<u8>>, Seq<FrameModel>, FlushStep<E>)
    decreases answers.len(),
{
    if step is StartSend && answers.len() > 0 {
        let (next, following) = flush_step(pending, FlushEvent::Answered(answers[0]));
        let (left, sent, last) = flush_run(next, following, answers.drop_first());
        (left, seq![step->StartSend_0] + sent, last)
    } else {
        (pending, Seq::empty(), step)
    }
}

/// Where the upstream takes every frame, `poll_complete` sends all pongs that wait, in order, and
/// then has the upstream finish its own sending.
pub proof fn law_flush_sends_all<E>(pending: Seq<Seq<u8>>, answers: Seq<Result<Async<()>, E>>)
    requires
        answers.len() >= pending.len(),
        forall|i: int| 0 <= i < pending.len() ==> #[trigger] answers[i] is Ok && answers[i]->Ok_0
            is Ready,
    ensures
        ({
            let (next, step) = flush_step(pending, FlushEvent::Called);
            flush_run(next, step, answers) == (
                Seq::<Seq<u8>>::empty(),
                pong_frames(pending),
                FlushStep::<E>::PollComplete,
            )
        }),
    decreases pending.len(),
{
    let (next, step) = flush_step::<E>(pending, FlushEvent::Called);
    if pending.len() == 0 {
        assert(pending =~= Seq::<Seq<u8>>::empty());
        assert(pong_frames(pending) =~= Seq::<FrameModel>::empty());
    } else {
        assert(answers[0] is Ok && answers[0]->Ok_0 is Ready);
        assert forall|i: int| 0 <= i < pending.drop_first().len() implies #[trigger]
            answers.drop_first()[i] is Ok && answers.drop_first()[i]->Ok_0 is Ready by {
            assert(answers.drop_first()[i] == answers[i + 1]);
        }
        law_flush_sends_all(pending.drop_first(), answers.drop_first());
        assert(seq![pong_frame(pending[0])] + pong_frames(pending.drop_first()) =~= pong_frames(
            pending,
        ));
    }
}

/// Where the upstream first does not take the `k`-th frame, the `k` pongs before it have gone
/// out. Where it was not ready, that pong and those behind it wait on, and the upstream finishes
/// its own sending. Where it failed, only those behind it wait on, and the run ends with the
/// failure.
pub proof fn law_flush_stops<E>(
    pending: Seq<Seq<u8>>,
    answers: Seq<Result<Async<()>, E>>,
    k: int,
)
    requires
        0 <= k < pending.len(),
        k < answers.len(),
        forall|i: int| 0 <= i < k ==> #[trigger] answers[i] is Ok && answers[i]->Ok_0 is Ready,
        !(answers[k] is Ok && answers[k]->Ok_0 is Ready),
    ensures
        ({
            let (next, step) = flush_step(pending, FlushEvent::Called);
            flush_run(next, step, answers) == (
                match answers[k] {
                    Ok(_) => pending.skip(k),
                    Err(_) => pending.skip(k + 1),
                },
                pong_frames(pending.take(k + 1)),
                match answers[k] {
                    Ok(_) => FlushStep::PollComplete,
                    Err(error) => FlushStep::Return(Err(error)),
                },
            )
        }),
    decreases k,
{
    let rest = pending.drop_first();
    if k == 0 {
        let (next, step) = flush_step(pending, FlushEvent::Answered(answers[0]));
        assert(pending.skip(0) =~= pending);
        assert(pending.skip(1) =~= rest);
        assert(pong_frames(pending.take(1)) =~= seq![pong_frame(pending[0])] + Seq::empty());
        assert(flush_run(next, step, answers.drop_first()) == (
            next,
            Seq::<FrameModel>::empty(),
            step,
        ));
    } else {
        assert(answers[0] is Ok && answers[0]->Ok_0 is Ready);
        assert forall|i: int| 0 <= i < k - 1 implies #[trigger] answers.drop_first()[i] is Ok
            && answers.drop_first()[i]->Ok_0 is Ready by {
            assert(answers.drop_first()[i] == answers[i + 1]);
        }
        law_flush_stops(rest, answers.drop_first(), k - 1);
        assert(rest.skip(k - 1) =~= pending.skip(k));
        assert(rest.skip(k) =~= pending.skip(k + 1));
        assert(seq![pong_frame(pending[0])] + pong_frames(rest.take(k)) =~= pong_frames(
            pending.take(k + 1),
        ));
    }
}

/// A ping that comes while no pong waits is answered at once, and nothing is left waiting as soon
/// as the upstream has taken the answer.
pub proof fn law_idle_ping<E>(frame: FrameModel)
    requires
        frame.op_type == OpType::Ping,
    ensures
        poll_step::<E>(Seq::empty(), PollInput::Frame(frame)) == (
            seq![frame.payload],
            PollStep::<E>::StartSend(pong_frame(frame.payload)),
        ),
        poll_step::<E>(
            seq![frame.payload],
            PollInput::Flushing(FlushEvent::Answered(Ok(Async::Ready(())))),
        ) == (Seq::<Seq<u8>>::empty(), PollStep::<E>::PollComplete),
{
    assert(Seq::<Seq<u8>>::empty().push(frame.payload) =~= seq![frame.payload]);
    assert(seq![frame.payload].drop_first() =~= Seq::<Seq<u8>>::empty());
}

/// A payload that one side sends is the payload that the other side reads: the frame that
/// `start_send` makes of it, written and read again, masked with any key or not, gives the user
/// the same payload, and no pong is sent or dropped on the way.
pub proof fn law_payload_round_trip<E>(
    payload: PayloadModel,
    key: Seq<u8>,
    rest: Seq<u8>,
    pending: Seq<Seq<u8>>,
)
    requires
        payload_bytes(payload).len() <= u64::MAX,
        key.len() == 4,
    ensures
        parse_frame(frame_bytes(data_frame(payload)) + rest) == Some(data_frame(payload)),
        parse_frame(masked_frame_bytes(data_frame(payload), key) + rest) == Some(
            data_frame(payload),
        ),
        data_frame(payload).op_type == OpType::Text ==> valid_utf8(data_frame(payload).payload),
        poll_step::<E>(pending, PollInput::Frame(data_frame(payload))) == (
            pending,
            PollStep::<E>::Deliver(payload),
        ),
{
    law_frame_round_trip(data_frame(payload), rest);
    law_masked_frame_read(data_frame(payload), key, rest);
    match payload {
        PayloadModel::Text(text) => {
            vstd::utf8::encode_utf8_decode_utf8(text);
            vstd::utf8::encode_utf8_valid_utf8(text);
        },
        PayloadModel::Binary(_) => {},
    }
}

/// A payload is sent in one unfragmented data frame that carries its bytes and no others: of a
/// binary payload just these, of a text its UTF-8.
pub proof fn law_payload_framed(bytes: Seq<u8>, text: Seq<char>)
    ensures
        data_frame(PayloadModel::Binary(bytes)) == (FrameModel {
            fin: true,
            frame_type: FrameType::Data,
            op_type: OpType::Binary,
            payload: bytes,
        }),
        data_frame(PayloadModel::Text(text)) == (FrameModel {
            fin: true,
            frame_type: FrameType::Data,
            op_type: OpType::Text,
            payload: encode_utf8(text),
        }),
        payload_bytes(PayloadModel::Binary(bytes)) == bytes,
        payload_bytes(PayloadModel::Text(text)) == encode_utf8(text),
{
}

/// What a read makes of any frame. A binary frame delivers just its payload, a text frame just the
/// text that its payload encodes, and neither touches the pongs that wait. A ping delivers
/// nothing: it puts its payload behind the pongs that wait and has the first of these sent. Every
/// other frame, whatever it carries, fails the read and touches no pong.
pub proof fn law_frame_taken<E>(pending: Seq<Seq<u8>>, frame: FrameModel)
    ensures
        ({
            let (left, step) = poll_step::<E>(pending, PollInput::Frame(frame));
            let queue = pending.push(frame.payload);
            match frame.op_type {
                OpType::Binary => {
                    &&& left == pending
                    &&& step == PollStep::<E>::Deliver(PayloadModel::Binary(frame.payload))
                },
                OpType::Text => valid_utf8(frame.payload) ==> {
                    &&& left == pending
                    &&& step matches PollStep::Deliver(PayloadModel::Text(text))
                    &&& encode_utf8(text) == frame.payload
                },
                OpType::Ping => {
                    &&& left == queue
                    &&& step == PollStep::<E>::StartSend(
                        FrameModel {
                            fin: true,
                            frame_type: FrameType::Control,
                            op_type: OpType::Pong,
                            payload: queue[0],
                        },
                    )
                },
                OpType::Close | OpType::Pong | OpType::Continuation => {
                    &&& left == pending
                    &&& step == PollStep::<E>::Fail(PollError::Transport(WsError::UnexpectedFrame))
                },
            }
        }),
{
    if valid_utf8(frame.payload) {
        vstd::utf8::decode_utf8_encode_utf8(frame.payload);
    }
}

/// Only text and binary frames are ever delivered: where a step of a read delivers something, it
/// is the step in which such a frame came, and its payload is what is delivered.
pub proof fn law_only_data_delivered<E>(pending: Seq<Seq<u8>>, event: PollInput<E>)
    requires
        event matches PollInput::Frame(frame) ==> frame.op_type == OpType::Text ==> valid_utf8(
            frame.payload,
        ),
    ensures
        poll_step(pending, event).1 matches PollStep::Deliver(payload) ==> {
            &&& event matches PollInput::Frame(frame)
            &&& match payload {
                PayloadModel::Text(text) => frame.op_type == OpType::Text && encode_utf8(text)
                    == frame.payload,
                PayloadModel::Binary(bytes) => frame.op_type == OpType::Binary && bytes
                    == frame.payload,
            }
        },
{
    if let PollInput::Frame(frame) = event {
        law_frame_taken::<E>(pending, frame);
    }
}

/// A read asks the upstream first. The upstream's end, its not being ready and its failure are
/// passed on as they are, and none of this touches the pongs that wait.
pub proof fn law_read_passes_on<E>(pending: Seq<Seq<u8>>, error: E)
    ensures
        poll_step::<E>(pending, PollInput::Called) == (pending, PollStep::<E>::PollUpstream),
        poll_step::<E>(pending, PollInput::End) == (pending, PollStep::<E>::End),
        poll_step::<E>(pending, PollInput::NotReady) == (pending, PollStep::<E>::NotReady),
        poll_step::<E>(pending, PollInput::Failed(error)) == (
            pending,
            PollStep::<E>::Fail(PollError::Upstream(error)),
        ),
{
}

/// A flush ends with the result of the upstream's own flush, whatever that is: it is done only
/// where the upstream was done. No pong is touched. In a read such a failure is passed on, and
/// after any other result the upstream is asked for the next frame.
pub proof fn law_flush_result<E>(pending: Seq<Seq<u8>>, result: Result<Async<()>, E>)
    ensures
        flush_step(pending, FlushEvent::Completed(result)) == (
            pending,
            FlushStep::<E>::Return(result),
        ),
        poll_step(pending, PollInput::Flushing(FlushEvent::Completed(result))) == (
            pending,
            match result {
                Ok(_) => PollStep::<E>::PollUpstream,
                Err(error) => PollStep::<E>::Fail(PollError::Upstream(error)),
            },
        ),
{
}

/// A flush that begins with no pong waiting goes straight to the upstream's own flush. One that
/// begins with pongs waiting sends the first of them, in a control frame with just its payload,
/// and keeps them all until the upstream has answered.
pub proof fn law_flush_begins<E>(first: Seq<u8>, others: Seq<Seq<u8>>)
    ensures
        ({
            let none = Seq::<Seq<u8>>::empty();
            let pending = seq![first] + others;
            let pong = FrameModel {
                fin: true,
                frame_type: FrameType::Control,
                op_type: OpType::Pong,
                payload: first,
            };
            &&& flush_step::<E>(none, FlushEvent::Called) == (none, FlushStep::<E>::PollComplete)
            &&& poll_step::<E>(none, PollInput::Flushing(FlushEvent::Called)) == (
                none,
                PollStep::<E>::PollComplete,
            )
            &&& flush_step::<E>(pending, FlushEvent::Called) == (
                pending,
                FlushStep::<E>::StartSend(pong),
            )
            &&& poll_step::<E>(pending, PollInput::Flushing(FlushEvent::Called)) == (
                pending,
                PollStep::<E>::StartSend(pong),
            )
            &&& pong_frame(first) == pong
        }),
{
}

/// What becomes of the pongs when the upstream answers for the first of them. One that was taken
/// leaves the queue and the next one is sent, or the upstream flushes where none is left. One that
/// was refused stays with all others. One that failed leaves the queue and ends the flush, and the
/// read that it is part of, with the failure.
/// An answer while no pong waits leaves none waiting.
pub proof fn law_pong_answered<E>(first: Seq<u8>, others: Seq<Seq<u8>>, error: E)
    ensures
        ({
            let none = Seq::<Seq<u8>>::empty();
            let pending = seq![first] + others;
            let taken = FlushEvent::<E>::Answered(Ok(Async::Ready(())));
            let refused = FlushEvent::<E>::Answered(Ok(Async::NotReady));
            let failed = FlushEvent::<E>::Answered(Err(error));
            let next = FrameModel {
                fin: true,
                frame_type: FrameType::Control,
                op_type: OpType::Pong,
                payload: others[0],
            };
            &&& flush_step(pending, taken) == (
                others,
                if others.len() > 0 {
                    FlushStep::<E>::StartSend(next)
                } else {
                    FlushStep::<E>::PollComplete
                },
            )
            &&& poll_step(pending, PollInput::Flushing(taken)) == (
                others,
                if others.len() > 0 {
                    PollStep::<E>::StartSend(next)
                } else {
                    PollStep::<E>::PollComplete
                },
            )
            &&& flush_step(pending, refused) == (pending, FlushStep::<E>::PollComplete)
            &&& poll_step(pending, PollInput::Flushing(refused)) == (
                pending,
                PollStep::<E>::PollComplete,
            )
            &&& flush_step(none, taken) == (none, FlushStep::<E>::PollComplete)
            &&& flush_step(none, refused) == (none, FlushStep::<E>::PollComplete)
            &&& flush_step(none, failed) == (none, FlushStep::<E>::Return(Err(error)))
            &&& flush_step(pending, failed) == (others, FlushStep::<E>::Return(Err(error)))
            &&& poll_step(pending, PollInput::Flushing(failed)) == (
                others,
                PollStep::<E>::Fail(PollError::Upstream(error)),
            )
        }),
{
    assert((seq![first] + others).drop_first() =~= others);
}

/// What an event is said to be is what the caller has handed in.
pub proof fn law_event_meaning<E>(frame: WebSocketFrame, error: E, flush: FlushEvent<E>)
    ensures
        PollEvent::<E>::Called@ == PollInput::<E>::Called,
        PollEvent::<E>::Polled(Ok(Async::Ready(Some(frame))))@ == PollInput::<E>::Frame(frame@),
        PollEvent::<E>::Polled(Ok(Async::Ready(None)))@ == PollInput::<E>::End,
        PollEvent::<E>::Polled(Ok(Async::NotReady))@ == PollInput::<E>::NotReady,
        PollEvent::<E>::Polled(Err(error))@ == PollInput::<E>::Failed(error),
        PollEvent::<E>::Flushing(flush)@ == PollInput::<E>::Flushing(flush),
{
}

/// What an action is said to be is what the caller gets to do or to return.
pub proof fn law_action_meaning<E>(
    frame: WebSocketFrame,
    payload: WsPayload,
    error: PollError<E>,
    result: Result<Async<()>, E>,
)
    ensures
        PollAction::<E>::PollUpstream@ == PollStep::<E>::PollUpstream,
        PollAction::<E>::StartSend(frame)@ == PollStep::<E>::StartSend(frame@),
        PollAction::<E>::PollComplete@ == PollStep::<E>::PollComplete,
        PollAction::<E>::Return(Ok(Async::Ready(Some(payload))))@ == PollStep::<E>::Deliver(
            payload@,
        ),
        PollAction::<E>::Return(Ok(Async::Ready(None)))@ == PollStep::<E>::End,
        PollAction::<E>::Return(Ok(Async::NotReady))@ == PollStep::<E>::NotReady,
        PollAction::<E>::Return(Err(error))@ == PollStep::<E>::Fail(error),
        FlushAction::<E>::StartSend(frame)@ == FlushStep::<E>::StartSend(frame@),
        FlushAction::<E>::PollComplete@ == FlushStep::<E>::PollComplete,
        FlushAction::<E>::Return(result)@ == FlushStep::<E>::Return(result),
        payload matches WsPayload::Text(text) ==> payload@ == PayloadModel::Text(text@),
        payload matches WsPayload::Binary(bytes) ==> payload@ == PayloadModel::Binary(bytes@),
{
}

} // verus!
