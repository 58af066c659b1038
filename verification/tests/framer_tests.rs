use raw_proxy::framer::frame_total_len;

#[test]
fn total_len_is_big_endian() {
    assert_eq!(frame_total_len(&[0x45, 0x00, 0x12, 0x34]), 0x1234);
    assert_eq!(frame_total_len(&[0xFF, 0xFF, 0x00, 0x00]), 0);
}

#[test]
fn frame_round_trip() {
    // a 40-byte packet (Total-Length field 0x0028) written to the stream
    // is exactly recovered by the receive path, whatever follows it
    let mut packet = vec![0u8; 40];
    packet[0] = 0x45;
    packet[2] = 0x00;
    packet[3] = 0x28;
    for (i, b) in packet.iter_mut().enumerate().skip(4) {
        *b = i as u8;
    }

    let mut stream = packet.clone();
    stream.extend_from_slice(&[0xDE, 0xAD, 0xBE, 0xEF]);

    let n = frame_total_len(&stream[0..4]) as usize;
    assert_eq!(n, 40);
    assert_eq!(&stream[0..n], &packet[..]);
}
