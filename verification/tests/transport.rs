use std::collections::VecDeque;

use tokio_ws::transport::{
    finish_send, Async, AsyncSink, FlushAction, FlushEvent, PollAction, PollError, PollEvent,
    SendAction,
};
use tokio_ws::wsframe::{FrameType, OpType, WebSocketFrame, WebSocketFrameBuilder};
use tokio_ws::{WsError, WsPayload, WsTransport};

/// An upstream that plays back what it is given and notes what it is handed.
struct Script {
    frames: VecDeque<Result<Async<Option<WebSocketFrame>>, &'static str>>,
    answers: VecDeque<Result<Async<()>, &'static str>>,
    completions: VecDeque<Result<Async<()>, &'static str>>,
    sent: Vec<Vec<u8>>,
}

fn script() -> Script {
    Script {
        frames: VecDeque::new(),
        answers: VecDeque::new(),
        completions: VecDeque::new(),
        sent: vec![],
    }
}

impl Script {
    fn take(&mut self, frame: WebSocketFrame) -> Result<Async<()>, &'static str> {
        self.sent.push(frame.to_bytes());
        self.answers.pop_front().unwrap_or(Ok(Async::Ready(())))
    }

    fn complete(&mut self) -> Result<Async<()>, &'static str> {
        self.completions.pop_front().unwrap_or(Ok(Async::Ready(())))
    }
}

fn poll(
    transport: &mut WsTransport<Script>,
) -> Result<Async<Option<WsPayload>>, PollError<&'static str>> {
    let mut event = PollEvent::Called;
    loop {
        event = match transport.poll(event) {
            PollAction::PollUpstream => {
                PollEvent::Polled(transport.upstream_mut().frames.pop_front().unwrap())
            }
            PollAction::StartSend(frame) => {
                PollEvent::Flushing(FlushEvent::Answered(transport.upstream_mut().take(frame)))
            }
            PollAction::PollComplete => {
                PollEvent::Flushing(FlushEvent::Completed(transport.upstream_mut().complete()))
            }
            PollAction::Return(result) => return result,
        };
    }
}

fn poll_complete(transport: &mut WsTransport<Script>) -> Result<Async<()>, &'static str> {
    let mut event = FlushEvent::Called;
    loop {
        event = match transport.poll_complete(event) {
            FlushAction::StartSend(frame) => {
                FlushEvent::Answered(transport.upstream_mut().take(frame))
            }
            FlushAction::PollComplete => FlushEvent::Completed(transport.upstream_mut().complete()),
            FlushAction::Return(result) => return result,
        };
    }
}

fn frame(payload: &[u8], op_type: OpType) -> Result<Async<Option<WebSocketFrame>>, &'static str> {
    let frame_type = match op_type {
        OpType::Continuation | OpType::Text | OpType::Binary => FrameType::Data,
        OpType::Close | OpType::Ping | OpType::Pong => FrameType::Control,
    };
    Ok(Async::Ready(Some(WebSocketFrame::new(payload, frame_type, op_type))))
}

fn pong(payload: &[u8]) -> Vec<u8> {
    WebSocketFrame::new(payload, FrameType::Control, OpType::Pong).to_bytes()
}

#[test]
fn data_is_delivered() {
    let mut script = script();
    script.frames.push_back(frame(b"\x00\xff", OpType::Binary));
    script.frames.push_back(frame("h\u{e9}".as_bytes(), OpType::Text));
    script.frames.push_back(Ok(Async::NotReady));
    script.frames.push_back(Ok(Async::Ready(None)));
    script.frames.push_back(Err("broken"));
    let mut transport = WsTransport::new(script);
    assert_eq!(poll(&mut transport), Ok(Async::Ready(Some(WsPayload::Binary(vec![0, 255])))));
    assert_eq!(
        poll(&mut transport),
        Ok(Async::Ready(Some(WsPayload::Text("h\u{e9}".to_string()))))
    );
    assert_eq!(poll(&mut transport), Ok(Async::NotReady));
    assert_eq!(poll(&mut transport), Ok(Async::Ready(None)));
    assert_eq!(poll(&mut transport), Err(PollError::Upstream("broken")));
    assert!(transport.upstream_mut().sent.is_empty());
}

#[test]
fn other_frames_are_faults() {
    for op_type in [OpType::Continuation, OpType::Close, OpType::Pong] {
        let mut script = script();
        script.frames.push_back(frame(b"", op_type));
        let mut transport = WsTransport::new(script);
        assert_eq!(poll(&mut transport), Err(PollError::Transport(WsError::UnexpectedFrame)));
    }
    assert_eq!(WsError::UnexpectedFrame.message(), "Expected Binary or Text WS frame.");
}

#[test]
fn pings_are_answered_in_order() {
    let mut script = script();
    script.frames.push_back(frame(b"one", OpType::Ping));
    script.frames.push_back(frame(b"two", OpType::Ping));
    script.frames.push_back(frame(b"data", OpType::Binary));
    script.completions.push_back(Ok(Async::NotReady));
    let mut transport = WsTransport::new(script);
    assert_eq!(poll(&mut transport), Ok(Async::Ready(Some(WsPayload::Binary(b"data".to_vec())))));
    assert_eq!(transport.upstream_mut().sent, vec![pong(b"one"), pong(b"two")]);
}

#[test]
fn a_failed_pong_ends_the_read() {
    let mut script1 = script();
    script1.frames.push_back(frame(b"one", OpType::Ping));
    script1.answers.push_back(Err("full"));
    let mut transport = WsTransport::new(script1);
    assert_eq!(poll(&mut transport), Err(PollError::Upstream("full")));

    let mut script2 = script();
    script2.frames.push_back(frame(b"one", OpType::Ping));
    script2.completions.push_back(Err("stuck"));
    let mut transport = WsTransport::new(script2);
    assert_eq!(poll(&mut transport), Err(PollError::Upstream("stuck")));
}

#[test]
fn an_idle_ping_leaves_nothing_waiting() {
    let mut script = script();
    script.frames.push_back(frame(b"one", OpType::Ping));
    script.frames.push_back(Ok(Async::NotReady));
    let mut transport = WsTransport::new(script);
    assert_eq!(poll(&mut transport), Ok(Async::NotReady));
    assert_eq!(poll_complete(&mut transport), Ok(Async::Ready(())));
    assert_eq!(transport.upstream_mut().sent, vec![pong(b"one")]);
}

#[test]
fn a_refused_pong_is_offered_again() {
    let mut script = script();
    script.frames.push_back(frame(b"one", OpType::Ping));
    script.frames.push_back(Ok(Async::NotReady));
    script.answers.push_back(Ok(Async::NotReady));
    script.answers.push_back(Ok(Async::NotReady));
    let mut transport = WsTransport::new(script);
    assert_eq!(poll(&mut transport), Ok(Async::NotReady));
    assert_eq!(poll_complete(&mut transport), Ok(Async::Ready(())));
    assert_eq!(poll_complete(&mut transport), Ok(Async::Ready(())));
    assert_eq!(poll_complete(&mut transport), Ok(Async::Ready(())));
    assert_eq!(transport.upstream_mut().sent, vec![pong(b"one"), pong(b"one"), pong(b"one")]);
}

#[test]
fn refused_pongs_keep_their_order() {
    let mut script = script();
    for payload in [b"one", b"two", b"six"] {
        script.frames.push_back(frame(payload, OpType::Ping));
        script.answers.push_back(Ok(Async::NotReady));
    }
    script.frames.push_back(Ok(Async::Ready(None)));
    let mut transport = WsTransport::new(script);
    assert_eq!(poll(&mut transport), Ok(Async::Ready(None)));
    assert_eq!(transport.upstream_mut().sent, vec![pong(b"one"), pong(b"one"), pong(b"one")]);

    transport.upstream_mut().sent.clear();
    transport.upstream_mut().answers.push_back(Ok(Async::Ready(())));
    transport.upstream_mut().answers.push_back(Ok(Async::NotReady));
    assert_eq!(poll_complete(&mut transport), Ok(Async::Ready(())));
    assert_eq!(transport.upstream_mut().sent, vec![pong(b"one"), pong(b"two")]);

    transport.upstream_mut().sent.clear();
    assert_eq!(poll_complete(&mut transport), Ok(Async::Ready(())));
    assert_eq!(transport.upstream_mut().sent, vec![pong(b"two"), pong(b"six")]);
}

#[test]
fn a_pong_that_fails_is_given_up() {
    let mut script = script();
    script.frames.push_back(frame(b"one", OpType::Ping));
    script.frames.push_back(frame(b"two", OpType::Ping));
    script.answers.push_back(Ok(Async::NotReady));
    script.answers.push_back(Err("full"));
    let mut transport = WsTransport::new(script);
    assert_eq!(poll(&mut transport), Err(PollError::Upstream("full")));
    transport.upstream_mut().sent.clear();
    assert_eq!(poll_complete(&mut transport), Ok(Async::Ready(())));
    assert_eq!(transport.upstream_mut().sent, vec![pong(b"two")]);
}

#[test]
fn a_payload_waits_for_the_pongs() {
    let mut script = script();
    script.frames.push_back(frame(b"one", OpType::Ping));
    script.frames.push_back(Ok(Async::NotReady));
    script.answers.push_back(Ok(Async::NotReady));
    let mut transport = WsTransport::new(script);
    assert_eq!(poll(&mut transport), Ok(Async::NotReady));
    match transport.start_send(WsPayload::Binary(vec![1])) {
        SendAction::Return(result) => {
            assert_eq!(result, AsyncSink::NotReady(WsPayload::Binary(vec![1])));
        }
        _ => unreachable!(),
    }
    assert_eq!(poll_complete(&mut transport), Ok(Async::Ready(())));
    assert!(matches!(
        transport.start_send(WsPayload::Binary(vec![1])),
        SendAction::StartSend(_, _)
    ));
}

#[test]
fn payloads_are_sent_as_frames() {
    let transport = WsTransport::new(());
    match transport.start_send(WsPayload::Text("h\u{e9}".to_string())) {
        SendAction::StartSend(frame, item) => {
            assert_eq!(frame.to_bytes(), vec![0x81, 3, b'h', 0xc3, 0xa9]);
            assert_eq!(item, WsPayload::Text("h\u{e9}".to_string()));
        }
        _ => unreachable!(),
    }
    match transport.start_send(WsPayload::Binary(vec![1, 2])) {
        SendAction::StartSend(frame, item) => {
            assert_eq!(frame.to_bytes(), vec![0x82, 2, 1, 2]);
            assert_eq!(item, WsPayload::Binary(vec![1, 2]));
        }
        _ => unreachable!(),
    }
}

#[test]
fn an_untaken_payload_comes_back() {
    let item = WsPayload::Text("again".to_string());
    assert_eq!(finish_send::<u8>(item.clone(), Ok(Async::Ready(()))), Ok(AsyncSink::Ready));
    assert_eq!(
        finish_send::<u8>(item.clone(), Ok(Async::NotReady)),
        Ok(AsyncSink::NotReady(item.clone()))
    );
    assert_eq!(finish_send::<u8>(item, Err(5)), Err(5));
}

#[test]
fn payloads_survive_the_wire() {
    for item in [
        WsPayload::Text("".to_string()),
        WsPayload::Text("gr\u{fc}\u{df} \u{1f980}".to_string()),
        WsPayload::Binary(vec![]),
        WsPayload::Binary(vec![0xff; 70000]),
    ] {
        let bytes = match WsTransport::new(()).start_send(item.clone()) {
            SendAction::StartSend(frame, _) => frame.to_bytes(),
            _ => unreachable!(),
        };
        let read = WebSocketFrameBuilder::from_bytes(&bytes).unwrap();
        let mut script = script();
        script.frames.push_back(Ok(Async::Ready(Some(*read))));
        assert_eq!(poll(&mut WsTransport::new(script)), Ok(Async::Ready(Some(item))));
    }
}
