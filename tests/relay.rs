use rust_tls_proxy::compression::error::CompressionError;
use rust_tls_proxy::compression::{compress, decompress, split_frames, Direction};
use rust_tls_proxy::forward_proxy::{forward_directions, PROXY_REDIR_PORT};
use rust_tls_proxy::relay::{transform_batch, HalfRelay, RelayAction, RelayEvent, RELAY_BUFFER_SIZE};
use rust_tls_proxy::reverse_proxy::{
    reverse_directions, select_single_key, Carousel, KeyError, HTTPS_PORT,
};

const LOREM: &str = "Lorem ipsum dolor sit amet, consectetur adipiscing elit. Nullam risus metus, vulputate sed erat non, maximus accumsan augue. Ut eu aliquet urna, sed mollis lectus. Vivamus eu egestas lectus. Donec commodo diam vehicula nisl iaculis, at scelerisque est efficitur. Pellentesque sed dolor arcu. Nullam semper quam risus, quis lobortis sapien mollis vitae. Fusce egestas ante nisl, ac bibendum mi faucibus ac. Phasellus eu libero orci. Cras dignissim in nibh quis eleifend. Duis mattis fermentum nulla ac aliquet. Cras et orci quis erat fermentum auctor et in mauris. Ut ornare, elit a blandit imperdiet, nibh sapien dapibus sapien, non faucibus diam arcu fermentum nunc. Proin feugiat pharetra lectus vitae semper. Fusce sit amet tortor mattis, hendrerit ex nec, iaculis risus.

Nam est nibh, semper sit amet gravida eu, efficitur in tortor. Aenean vel leo vitae enim scelerisque porta at et nibh. Nulla malesuada vel ipsum placerat varius. Aliquam facilisis, dolor quis ultrices condimentum, nisl metus consequat purus, non vulputate odio odio at justo. Fusce rhoncus neque arcu, et venenatis lacus vestibulum at. Nullam tristique tincidunt nunc. Ut mollis sem non turpis accumsan, et volutpat quam suscipit. Cras metus libero, commodo vitae purus vulputate, scelerisque molestie mi. Etiam posuere orci id turpis suscipit egestas. Nunc id faucibus risus.

Duis quis neque sit amet turpis ullamcorper pretium a et turpis. In ultrices eros sit amet odio venenatis varius. Vestibulum id sem iaculis dolor ornare egestas eu sit amet nunc. Integer elit lorem, pretium vestibulum euismod in, imperdiet porttitor nisl. In accumsan elit non rutrum euismod. Integer turpis sem, lobortis non laoreet id, mattis at metus. Sed hendrerit volutpat dui ut consectetur.

Duis efficitur, lacus a condimentum rhoncus, justo ex tristique neque, fermentum imperdiet tortor ex a ante. Mauris a tortor nec sapien volutpat porttitor. Praesent purus erat, viverra sed rhoncus eget, sodales ac felis. Integer scelerisque leo gravida.";

/// Feeds `message` through a half relay in reads of at most the relay's buffer size,
/// then the end of the source, and collects what it writes.
fn run_relay(direction: Option<Direction>, message: &[u8]) -> (Vec<Vec<u8>>, bool) {
    let mut relay = HalfRelay::new(direction);
    let mut writes = Vec::new();
    for chunk in message.chunks(RELAY_BUFFER_SIZE) {
        match relay.on_event(RelayEvent::Received(chunk.to_vec())) {
            RelayAction::Write(out) => writes.push(out),
            RelayAction::Shutdown => return (writes, true),
            RelayAction::Closed => panic!("relay closed early"),
        }
    }
    let shut = matches!(relay.on_event(RelayEvent::Eof), RelayAction::Shutdown);
    (writes, shut)
}

#[test]
fn relay_buffer_size_is_one_kib() {
    assert_eq!(RELAY_BUFFER_SIZE, 1024);
}

#[test]
fn passthrough_relay_is_byte_exact() {
    let message = "Hello world! This is message should be proxied.".as_bytes();
    let (writes, shut) = run_relay(None, message);
    assert!(shut);
    assert_eq!(writes.concat(), message);
    assert_eq!(message.len(), 47);
}

#[test]
fn passthrough_relay_keeps_large_messages() {
    let (writes, shut) = run_relay(None, LOREM.as_bytes());
    assert!(shut);
    assert_eq!(writes.len(), 2);
    assert_eq!(writes.concat(), LOREM.as_bytes());
}

#[test]
fn compressing_relay_sends_one_frame() {
    let message = "Hello world! This is message should be proxied.".as_bytes();
    let (writes, _) = run_relay(Some(Direction::Compress), message);
    let link = writes.concat();
    assert_eq!(&link[..3], &[0xbe, 0xef, 0x01]);
    assert_eq!(link, compress(message).unwrap());
    assert_eq!(decompress(&link).unwrap(), message);
}

#[test]
fn compressing_relay_frames_each_read() {
    let message = LOREM.as_bytes();
    let (writes, _) = run_relay(Some(Direction::Compress), message);
    let link = writes.concat();
    let frames = split_frames(&link);
    assert_eq!(frames.len(), 2);
    let plain: Vec<u8> = frames.iter().flat_map(|f| decompress(f).unwrap()).collect();
    assert_eq!(plain, message);
}

#[test]
fn decompressing_relay_restores_message() {
    let message = "Hello world! This is message should be proxied and decompressed.".as_bytes();
    let compressed = compress(message).unwrap();
    let (writes, shut) = run_relay(Some(Direction::Decompress), &compressed);
    assert!(shut);
    assert_eq!(writes.concat(), message);
}

#[test]
fn decompressing_relay_restores_frames_in_one_read() {
    let message = LOREM.as_bytes();
    let stream: Vec<u8> = message
        .chunks(1024)
        .flat_map(|chunk| compress(chunk).unwrap())
        .collect();
    let out = transform_batch(Some(Direction::Decompress), &stream).unwrap();
    assert_eq!(out, message);
}

#[test]
fn compressing_and_decompressing_relays_compose() {
    let message = LOREM.as_bytes();
    let (frames, _) = run_relay(Some(Direction::Compress), message);
    let mut back = HalfRelay::new(Some(Direction::Decompress));
    let mut plain = Vec::new();
    for frame in frames {
        match back.on_event(RelayEvent::Received(frame)) {
            RelayAction::Write(out) => plain.extend(out),
            _ => panic!("decompressing relay stopped"),
        }
    }
    assert_eq!(plain, message);
}

#[test]
fn eof_shuts_one_direction_only() {
    let (to_server, to_client) = forward_directions(false);
    let mut up = HalfRelay::new(to_server);
    let mut down = HalfRelay::new(to_client);
    assert!(matches!(up.on_event(RelayEvent::Eof), RelayAction::Shutdown));
    assert!(!up.is_open());
    assert!(down.is_open());
    match down.on_event(RelayEvent::Received(b"reply".to_vec())) {
        RelayAction::Write(out) => assert_eq!(out, b"reply"),
        _ => panic!("the other direction stopped"),
    }
    assert!(matches!(up.on_event(RelayEvent::Received(b"x".to_vec())), RelayAction::Closed));
    assert!(matches!(down.on_event(RelayEvent::Received(Vec::new())), RelayAction::Shutdown));
    assert!(!down.is_open());
}

#[test]
fn failures_shut_the_sink() {
    let mut relay = HalfRelay::new(None);
    assert!(matches!(relay.on_event(RelayEvent::ReadFailed), RelayAction::Shutdown));
    let mut relay = HalfRelay::new(None);
    assert!(matches!(relay.on_event(RelayEvent::WriteFailed), RelayAction::Shutdown));
    let mut relay = HalfRelay::new(Some(Direction::Decompress));
    assert!(matches!(
        relay.on_event(RelayEvent::Received(b"not a frame".to_vec())),
        RelayAction::Shutdown
    ));
    assert!(!relay.is_open());
    assert_eq!(relay.direction(), Some(Direction::Decompress));
}

#[test]
fn transform_reports_decoding_errors() {
    assert_eq!(
        transform_batch(Some(Direction::Decompress), b"plain text"),
        Err(CompressionError::MalformedHeader)
    );
    assert_eq!(transform_batch(None, b"plain text"), Ok(b"plain text".to_vec()));
}

#[test]
fn proxies_mirror_their_transforms() {
    assert_eq!(
        forward_directions(true),
        (Some(Direction::Compress), Some(Direction::Decompress))
    );
    assert_eq!(
        reverse_directions(true),
        (Some(Direction::Decompress), Some(Direction::Compress))
    );
    assert_eq!(forward_directions(false), (None, None));
    assert_eq!(reverse_directions(false), (None, None));
    assert_eq!(PROXY_REDIR_PORT, 8080);
    assert_eq!(HTTPS_PORT, 9443);
}

#[test]
fn carousel_cycles_in_order() {
    let mut carousel = Carousel::new(vec![1u16, 2, 3]);
    let picked: Vec<u16> = (0..7).map(|_| carousel.next().unwrap()).collect();
    assert_eq!(picked, vec![1, 2, 3, 1, 2, 3, 1]);
}

#[test]
fn empty_carousel_gives_nothing() {
    let mut carousel: Carousel<u16> = Carousel::new(Vec::new());
    assert_eq!(carousel.next(), None);
}

#[test]
fn key_file_must_hold_one_key() {
    assert_eq!(select_single_key::<u8>(vec![]), Err(KeyError::NoKey));
    assert_eq!(select_single_key(vec![7u8]), Ok(7));
    assert_eq!(select_single_key(vec![7u8, 8]), Err(KeyError::MultipleKeys));
}
