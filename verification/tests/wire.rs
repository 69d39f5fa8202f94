use netfax::compression::{compress, decompress, fits_compression, try_decompress};
use netfax::wire::{datagram_payload, frame_body, frame_body_len, tcp_frame};

#[test]
fn frame_is_length_then_body() {
    assert_eq!(frame_body(vec![7, 8, 9]), vec![3, 0, 0, 0, 7, 8, 9]);
    assert_eq!(frame_body(vec![]), vec![0, 0, 0, 0]);
    let long = vec![1u8; 0x0102];
    let framed = frame_body(long.clone());
    assert_eq!(&framed[..4], &[0x02, 0x01, 0, 0]);
    assert_eq!(&framed[4..], &long[..]);
}

#[test]
fn header_gives_back_the_length() {
    assert_eq!(frame_body_len(&[3, 0, 0, 0]), Some(3));
    assert_eq!(frame_body_len(&[0x78, 0x56, 0x34, 0x12, 0xff]), Some(0x1234_5678));
    assert_eq!(frame_body_len(&[1, 2, 3]), None);
    let framed = frame_body(vec![5u8; 300]);
    assert_eq!(frame_body_len(&framed[..4]), Some(300));
}

#[test]
fn compression_round_trip() {
    let data: Vec<u8> = b"anyoneThere1 anyoneThere1 anyoneThere1 anyoneThere1".to_vec();
    let compressed = compress(data.clone());
    assert_ne!(compressed, data);
    assert!(compressed.len() < data.len());
    assert_eq!(decompress(compressed.clone()), data);
    assert_eq!(try_decompress(compressed), Some(data));
    assert_eq!(decompress(compress(vec![])), Vec::<u8>::new());
}

#[test]
fn small_input_compresses_to_a_literal() {
    assert_eq!(compress(vec![1, 2, 3]), vec![3, 8, 1, 2, 3]);
}

#[test]
fn invalid_blocks_are_refused() {
    assert_eq!(try_decompress(vec![]), None);
    assert_eq!(try_decompress(vec![5, 0]), None);
}

#[test]
fn compression_limits() {
    assert!(fits_compression(0));
    assert!(fits_compression(1_000_000));
    assert!(!fits_compression(u32::MAX as usize));
    assert!(fits_compression(3_681_400_511));
    assert!(!fits_compression(3_681_400_512));
}

#[test]
fn tcp_frame_reads_back() {
    let serialized: Vec<u8> = (0..200u32).map(|i| (i % 7) as u8).collect();
    let wire = tcp_frame(serialized.clone());
    let len = frame_body_len(&wire[..4]).unwrap();
    assert_eq!(len, wire.len() - 4);
    assert_eq!(decompress(wire[4..].to_vec()), serialized);
}

#[test]
fn empty_datagrams_are_ignored() {
    let buffer = [9u8; 8];
    assert_eq!(datagram_payload(&buffer, 0), None);
    assert_eq!(datagram_payload(&buffer, 3), Some(&buffer[..]));
}
