use custom_backend::srv_io::frame::frame_length;
use custom_backend::srv_io::frame::read_frame;
use custom_backend::srv_io::frame::ByteStream;
use custom_backend::srv_io::frame::Frame;
use custom_backend::srv_io::frame::FrameDecoder;
use custom_backend::srv_io::frame::TransportError;

#[test]
fn length_prefix_is_big_endian() {
    assert_eq!(frame_length(0, 0), 0);
    assert_eq!(frame_length(0, 4), 4);
    assert_eq!(frame_length(1, 2), 258);
    assert_eq!(frame_length(0x12, 0x34), 0x1234);
    assert_eq!(frame_length(0xff, 0xff), 65535);
    for value in [0u16, 1, 255, 256, 4660, 65535] {
        let [hi, lo] = value.to_be_bytes();
        assert_eq!(frame_length(hi, lo), value);
    }
}

#[test]
fn frame_holds_payloads_up_to_the_prefix_limit() {
    let frame = Frame::new(vec![1, 2, 3]).unwrap();
    assert_eq!(frame.length(), 3);
    assert_eq!(frame.payload(), &vec![1, 2, 3]);
    assert_eq!(frame.into_payload(), vec![1, 2, 3]);
    assert_eq!(Frame::new(vec![]).unwrap().length(), 0);
    assert_eq!(Frame::new(vec![7; 65535]).unwrap().length(), 65535);
    assert_eq!(Frame::new(vec![7; 65536]), None);
}

#[test]
fn stream_reads_in_order_and_drains_on_a_short_read() {
    let mut stream = ByteStream::new(vec![1, 2, 3, 4, 5]);
    assert_eq!(stream.remaining(), 5);
    assert_eq!(stream.read_exact(2), Some(vec![1, 2]));
    assert_eq!(stream.read_exact(0), Some(vec![]));
    assert_eq!(stream.remaining(), 3);
    assert_eq!(stream.read_exact(4), None);
    assert_eq!(stream.remaining(), 0);
    assert_eq!(stream.read_exact(1), None);
    assert_eq!(stream.read_exact(0), Some(vec![]));
}

#[test]
fn frames_are_read_one_behind_the_other() {
    let mut stream = ByteStream::new(vec![0, 2, b'h', b'i', 0, 0, 0, 1, b'!']);
    assert_eq!(read_frame(&mut stream).unwrap().into_payload(), b"hi".to_vec());
    assert_eq!(read_frame(&mut stream).unwrap().into_payload(), Vec::<u8>::new());
    assert_eq!(read_frame(&mut stream).unwrap().into_payload(), b"!".to_vec());
    assert_eq!(read_frame(&mut stream), Err(TransportError {}));
    assert_eq!(stream.remaining(), 0);
}

#[test]
fn short_prefix_fails_and_is_not_padded() {
    let mut stream = ByteStream::new(vec![5]);
    assert_eq!(read_frame(&mut stream), Err(TransportError {}));
    assert_eq!(stream.remaining(), 0);
    let mut empty = ByteStream::new(vec![]);
    assert_eq!(read_frame(&mut empty), Err(TransportError {}));
}

#[test]
fn short_payload_fails_and_is_not_cut() {
    let mut stream = ByteStream::new(vec![0, 3, b'a', b'b']);
    assert_eq!(read_frame(&mut stream), Err(TransportError {}));
    assert_eq!(stream.remaining(), 0);
    assert_eq!(read_frame(&mut stream), Err(TransportError {}));
}

#[test]
fn decoder_asks_for_the_prefix_and_then_for_the_payload() {
    let decoder = FrameDecoder::new();
    assert_eq!(decoder, FrameDecoder::Header);
    assert_eq!(decoder.wanted(), Some(2));
    let decoder = decoder.feed(Some(vec![1, 0]));
    assert_eq!(decoder, FrameDecoder::Payload { length: 256 });
    assert_eq!(decoder.wanted(), Some(256));
    let decoder = decoder.feed(Some(vec![9; 256]));
    assert_eq!(decoder.wanted(), None);
    let frame = decoder.finish().unwrap().unwrap();
    assert_eq!(frame.length(), 256);
    assert_eq!(frame.into_payload(), vec![9; 256]);
}

#[test]
fn decoder_takes_an_empty_payload() {
    let decoder = FrameDecoder::new().feed(Some(vec![0, 0]));
    assert_eq!(decoder.wanted(), Some(0));
    let frame = decoder.feed(Some(vec![])).finish().unwrap().unwrap();
    assert_eq!(frame.length(), 0);
}

#[test]
fn decoder_breaks_on_a_failed_or_partial_read() {
    assert_eq!(FrameDecoder::new().feed(None), FrameDecoder::Broken);
    assert_eq!(FrameDecoder::new().feed(Some(vec![1])), FrameDecoder::Broken);
    assert_eq!(FrameDecoder::new().feed(Some(vec![1, 2, 3])), FrameDecoder::Broken);
    let waiting = FrameDecoder::new().feed(Some(vec![0, 2]));
    assert_eq!(waiting, FrameDecoder::Payload { length: 2 });
    assert_eq!(FrameDecoder::new().feed(Some(vec![0, 2])).feed(None), FrameDecoder::Broken);
    assert_eq!(FrameDecoder::new().feed(Some(vec![0, 2])).feed(Some(vec![1])), FrameDecoder::Broken);
    assert_eq!(
        FrameDecoder::new().feed(Some(vec![0, 2])).feed(Some(vec![1, 2, 3])),
        FrameDecoder::Broken
    );
    let broken = FrameDecoder::Broken;
    assert_eq!(broken.wanted(), None);
    assert_eq!(broken.finish(), Some(Err(TransportError {})));
    assert_eq!(FrameDecoder::Broken.feed(Some(vec![0, 0])), FrameDecoder::Broken);
}

#[test]
fn decoder_is_not_finished_while_bytes_are_wanted() {
    assert_eq!(FrameDecoder::new().finish(), None);
    assert_eq!(FrameDecoder::new().feed(Some(vec![0, 1])).finish(), None);
}

#[test]
fn finished_decoder_keeps_its_frame() {
    let ready = FrameDecoder::new().feed(Some(vec![0, 1])).feed(Some(vec![b'x']));
    let still = ready.feed(Some(vec![b'y']));
    assert_eq!(still.finish().unwrap().unwrap().into_payload(), vec![b'x']);
}
