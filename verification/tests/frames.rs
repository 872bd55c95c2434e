use tokio_ws::wsframe::{FrameType, OpType, WebSocketFrame, WebSocketFrameBuilder};
use tokio_ws::WsCodec;

fn read(bytes: &[u8]) -> Option<(OpType, Vec<u8>)> {
    WebSocketFrameBuilder::from_bytes(bytes).map(|frame| (frame.op_type(), frame.payload()))
}

fn binary(len: usize) -> WebSocketFrame {
    WebSocketFrame::new(&vec![7u8; len], FrameType::Data, OpType::Binary)
}

#[test]
fn it_works() {}

#[test]
fn short_frames_have_one_length_byte() {
    assert_eq!(
        WebSocketFrame::new(b"Hello", FrameType::Data, OpType::Text).to_bytes(),
        vec![0x81, 0x05, 0x48, 0x65, 0x6c, 0x6c, 0x6f]
    );
    assert_eq!(
        WebSocketFrame::new(b"", FrameType::Control, OpType::Pong).to_bytes(),
        vec![0x8a, 0]
    );
    let bytes = binary(125).to_bytes();
    assert_eq!(bytes.len(), 127);
    assert_eq!(bytes[..2], [0x82, 125]);
}

#[test]
fn longer_frames_have_two_or_eight_more_length_bytes() {
    let bytes = binary(126).to_bytes();
    assert_eq!(bytes.len(), 130);
    assert_eq!(bytes[..4], [0x82, 126, 0, 126]);
    let bytes = binary(65535).to_bytes();
    assert_eq!(bytes.len(), 65539);
    assert_eq!(bytes[..4], [0x82, 126, 255, 255]);
    let bytes = binary(65536).to_bytes();
    assert_eq!(bytes.len(), 65546);
    assert_eq!(bytes[..10], [0x82, 127, 0, 0, 0, 0, 0, 1, 0, 0]);
}

#[test]
fn each_op_type_has_its_opcode() {
    let ops = [
        (OpType::Continuation, FrameType::Data, 0x80),
        (OpType::Text, FrameType::Data, 0x81),
        (OpType::Binary, FrameType::Data, 0x82),
        (OpType::Close, FrameType::Control, 0x88),
        (OpType::Ping, FrameType::Control, 0x89),
        (OpType::Pong, FrameType::Control, 0x8a),
    ];
    for (op_type, frame_type, first) in ops {
        let bytes = WebSocketFrame::new(b"x", frame_type, op_type).to_bytes();
        assert_eq!(bytes, vec![first, 1, b'x']);
        assert_eq!(read(&bytes), Some((op_type, b"x".to_vec())));
    }
}

#[test]
fn written_frames_are_read_back() {
    for len in [0, 1, 125, 126, 127, 65535, 65536, 70000] {
        let mut bytes = binary(len).to_bytes();
        assert_eq!(read(&bytes), Some((OpType::Binary, vec![7u8; len])));
        bytes.extend_from_slice(b"what follows");
        assert_eq!(read(&bytes), Some((OpType::Binary, vec![7u8; len])));
    }
}

#[test]
fn masked_frames_are_unmasked() {
    let bytes = [0x81, 0x85, 0x37, 0xfa, 0x21, 0x3d, 0x7f, 0x9f, 0x4d, 0x51, 0x58];
    assert_eq!(read(&bytes), Some((OpType::Text, b"Hello".to_vec())));
    let ping = [0x89, 0x80, 1, 2, 3, 4];
    assert_eq!(read(&ping), Some((OpType::Ping, vec![])));
    let mut long = vec![0x82, 0xfe, 0, 200, 9, 9, 9, 9];
    long.extend_from_slice(&[9u8; 200]);
    assert_eq!(read(&long), Some((OpType::Binary, vec![0u8; 200])));
}

#[test]
fn fragments_keep_their_bit() {
    let first = WebSocketFrameBuilder::from_bytes(&[0x01, 0x03, 0x48, 0x65, 0x6c]).unwrap();
    assert_eq!(first.op_type(), OpType::Text);
    assert_eq!(first.to_bytes(), vec![0x01, 0x03, 0x48, 0x65, 0x6c]);
}

#[test]
fn partial_frames_are_not_read() {
    for bytes in [binary(3).to_bytes(), binary(130).to_bytes(), binary(65536).to_bytes()] {
        for cut in [0, 1, 2, 3, 4, bytes.len() - 1] {
            assert_eq!(read(&bytes[..cut]), None);
        }
    }
    let masked = [0x81, 0x85, 0x37, 0xfa, 0x21, 0x3d, 0x7f, 0x9f, 0x4d, 0x51, 0x58];
    for cut in 0..masked.len() {
        assert_eq!(read(&masked[..cut]), None);
    }
}

#[test]
fn frames_that_mean_nothing_are_not_read() {
    assert_eq!(read(&[0xc1, 0]), None);
    assert_eq!(read(&[0xa1, 0]), None);
    assert_eq!(read(&[0x91, 0]), None);
    for code in [3, 4, 5, 6, 7, 11, 12, 13, 14, 15] {
        assert_eq!(read(&[0x80 + code, 0]), None);
    }
    let huge = [0x82, 127, 255, 255, 255, 255, 255, 255, 255, 255, 1, 2, 3];
    assert_eq!(read(&huge), None);
}

#[test]
fn the_codec_takes_the_whole_buffer() {
    let mut codec = WsCodec::new();
    let mut buf = vec![];
    codec.encode(binary(2), &mut buf).unwrap();
    codec.encode(binary(4), &mut buf).unwrap();
    assert_eq!(buf, vec![0x82, 2, 7, 7, 0x82, 4, 7, 7, 7, 7]);
    let frame = codec.decode(&mut buf).unwrap().unwrap();
    assert_eq!(frame.payload(), vec![7, 7]);
    assert!(buf.is_empty());
    assert!(codec.decode(&mut buf).unwrap().is_none());
    let mut part = vec![0x82, 2, 7];
    assert!(codec.decode(&mut part).unwrap().is_none());
    assert!(part.is_empty());
}
