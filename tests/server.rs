use udp_latency::server::{echo_reply, RECV_BUFFER_LEN};

#[test]
fn echo_returns_exactly_the_bytes_read() {
    let mut buf = vec![0u8; RECV_BUFFER_LEN];
    let d: [u8; 5] = [9, 8, 7, 6, 5];
    buf[..5].copy_from_slice(&d);
    assert_eq!(echo_reply(&buf, 5), d.to_vec());
}

#[test]
fn echo_of_empty_datagram_is_empty() {
    let buf = vec![1u8; RECV_BUFFER_LEN];
    assert_eq!(echo_reply(&buf, 0), Vec::<u8>::new());
}

#[test]
fn echo_of_full_buffer_keeps_every_byte() {
    let buf: Vec<u8> = (0..RECV_BUFFER_LEN).map(|i| (i % 251) as u8).collect();
    assert_eq!(echo_reply(&buf, RECV_BUFFER_LEN), buf);
}
