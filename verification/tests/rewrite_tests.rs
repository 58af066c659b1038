use raw_proxy::checksum::{checksum_ip4, checksum_tcp4};
use raw_proxy::forwarder::{incoming_deliver, outgoing_step};
use raw_proxy::packet::{get_ihl, get_proto, Ipv4Addr};
use raw_proxy::rewrite::modify_packet;

// a 40-byte TCP SYN: header length 20, TTL 64, source 10.0.0.5,
// destination 203.0.113.9, ports 12345 -> 443
fn tcp_syn_packet() -> Vec<u8> {
    vec![
        // IPv4 header
        0x45, 0x00, 0x00, 0x28, 0x00, 0x01, 0x00, 0x00, 0x40, 0x06, 0x00, 0x00, 0x0a, 0x00, 0x00,
        0x05, 0xcb, 0x00, 0x71, 0x09, //
        // TCP header
        0x30, 0x39, 0x01, 0xBB, 0x00, 0x00, 0x00, 0x00, 0x00, 0x00, 0x00, 0x00, 0x50, 0x02, 0xFF,
        0xFF, 0x00, 0x00, 0x00, 0x00,
    ]
}

#[test]
fn header_accessors() {
    let p = tcp_syn_packet();
    assert_eq!(get_ihl(&p), 20);
    assert_eq!(get_proto(&p), 6);
}

#[test]
fn rewrite_tcp_syn_end_to_end() {
    let mut buf = tcp_syn_packet();
    let new_src = Ipv4Addr { o0: 198, o1: 51, o2: 100, o3: 1 };
    let dst = Ipv4Addr { o0: 203, o1: 0, o2: 113, o3: 9 };
    modify_packet(&mut buf, new_src, dst);

    // source replaced, TTL decremented, destination and ports untouched
    assert_eq!(&buf[12..16], &[198, 51, 100, 1]);
    assert_eq!(buf[8], 63);
    assert_eq!(&buf[16..20], &[203, 0, 113, 9]);
    assert_eq!(&buf[20..24], &[0x30, 0x39, 0x01, 0xBB]);

    // both checksums verify: recomputing over the final bytes, checksum
    // fields included, yields zero
    assert_eq!(checksum_ip4(&buf[0..20]), 0);
    assert_eq!(checksum_tcp4(&buf[20..40], new_src, dst), 0);
}

#[test]
fn ttl_clamps_at_one() {
    // TTL 0, 1, 2, 255 map to 1, 1, 1, 254: decrement floored at 1,
    // never wrapping
    let cases = [(0u8, 1u8), (1, 1), (2, 1), (255, 254)];
    for (ttl_in, ttl_out) in cases {
        let mut buf = vec![
            0x45, 0x00, 0x00, 0x14, 0x00, 0x00, 0x00, 0x00, ttl_in, 0x11, 0x00, 0x00, 0x0a, 0x00,
            0x00, 0x05, 0xcb, 0x00, 0x71, 0x09,
        ];
        let src = Ipv4Addr { o0: 198, o1: 51, o2: 100, o3: 1 };
        let dst = Ipv4Addr { o0: 203, o1: 0, o2: 113, o3: 9 };
        modify_packet(&mut buf, src, dst);
        assert_eq!(buf[8], ttl_out);
    }
}

#[test]
fn short_buffer_left_untouched() {
    let mut buf = vec![0x45u8; 19];
    let orig = buf.clone();
    let a = Ipv4Addr { o0: 1, o1: 2, o2: 3, o3: 4 };
    modify_packet(&mut buf, a, a);
    assert_eq!(buf, orig);
}

#[test]
fn oversized_ihl_left_untouched() {
    // IHL encodes a 24-byte header but the buffer holds only 20 bytes
    let mut buf = tcp_syn_packet();
    buf.truncate(20);
    buf[0] = 0x46;
    let orig = buf.clone();
    let a = Ipv4Addr { o0: 1, o1: 2, o2: 3, o3: 4 };
    modify_packet(&mut buf, a, a);
    assert_eq!(buf, orig);
}

#[test]
fn undersized_ihl_left_untouched() {
    // IHL encodes a 16-byte header, below the 20-byte minimum
    let mut buf = tcp_syn_packet();
    buf[0] = 0x44;
    let orig = buf.clone();
    let a = Ipv4Addr { o0: 1, o1: 2, o2: 3, o3: 4 };
    modify_packet(&mut buf, a, a);
    assert_eq!(buf, orig);
}

#[test]
fn truncated_tcp_segment_left_untouched() {
    // protocol TCP, but no room for a minimum TCP header behind the IP
    // header
    let mut buf = tcp_syn_packet();
    buf.truncate(30);
    let orig = buf.clone();
    let a = Ipv4Addr { o0: 1, o1: 2, o2: 3, o3: 4 };
    modify_packet(&mut buf, a, a);
    assert_eq!(buf, orig);
}

#[test]
fn matching_source_skips_rewrite() {
    // filter-before-rewrite: a packet whose source already equals the
    // configured local address is not rewritten at all
    let mut buf = tcp_syn_packet();
    let orig = buf.clone();
    let local = Ipv4Addr { o0: 10, o1: 0, o2: 0, o3: 5 };
    let rewritten = outgoing_step(&mut buf, local);
    assert!(!rewritten);
    assert_eq!(buf, orig);
}

#[test]
fn differing_source_is_rewritten() {
    let mut buf = tcp_syn_packet();
    let local = Ipv4Addr { o0: 198, o1: 51, o2: 100, o3: 1 };
    let rewritten = outgoing_step(&mut buf, local);
    assert!(rewritten);
    assert_eq!(&buf[12..16], &[198, 51, 100, 1]);
    assert_eq!(buf[8], 63);
    assert_eq!(checksum_ip4(&buf[0..20]), 0);
}

#[test]
fn incoming_filter_drops_foreign_destination() {
    // a packet addressed elsewhere is discarded: no delivery decision,
    // the loop just continues
    let buf = tcp_syn_packet();
    let local = Ipv4Addr { o0: 10, o1: 0, o2: 0, o3: 99 };
    assert!(!incoming_deliver(&buf, local));
}

#[test]
fn incoming_filter_delivers_matching_destination() {
    let buf = tcp_syn_packet();
    let local = Ipv4Addr { o0: 203, o1: 0, o2: 113, o3: 9 };
    assert!(incoming_deliver(&buf, local));
}
