use aizumi::network::{Network, RpcFailure, RpcStage};
use aizumi::address::{
    broker_listen_address, peer_address, rpc_listen_address, rpc_peer_address, shifted_address,
    BROKER_PORT_OFFSET, RPC_PORT_OFFSET,
};
use aizumi::bytes::{
    be_decode, be_u32_from, handshake_bytes, handshake_port, le_bytes_to_u32, le_bytes_to_u32_vec,
    length_prefixed, pad_frame, read_frame, read_frames, u32_to_le_bytes, FRAME_LEN,
};
use aizumi::decimal::{format_decimal, parse_unsigned, push_signed_decimal};

#[test]
fn u32_little_endian_bytes() {
    assert_eq!(u32_to_le_bytes(0x0403_0201), [1, 2, 3, 4]);
    assert_eq!(u32_to_le_bytes(0), [0, 0, 0, 0]);
    assert_eq!(u32_to_le_bytes(u32::MAX), [255, 255, 255, 255]);
    for v in [0u32, 1, 255, 256, 12000, 0xdead_beef, u32::MAX] {
        assert_eq!(u32_to_le_bytes(v), v.to_le_bytes());
        assert_eq!(le_bytes_to_u32(&u32_to_le_bytes(v)), Some(v));
    }
}

#[test]
fn le_bytes_to_u32_needs_four_bytes() {
    assert_eq!(le_bytes_to_u32(&[1, 2, 3]), None);
    assert_eq!(le_bytes_to_u32(&[]), None);
    assert_eq!(le_bytes_to_u32(&[1, 0, 0, 0, 9]), Some(1));
}

#[test]
fn le_bytes_to_u32_vec_reads_complete_groups() {
    assert_eq!(le_bytes_to_u32_vec(&[]), None);
    assert_eq!(le_bytes_to_u32_vec(&[1, 2]), Some(vec![]));
    assert_eq!(le_bytes_to_u32_vec(&[1, 0, 0, 0, 2, 0, 0, 0, 3]), Some(vec![1, 2]));
    let mut bytes = Vec::new();
    for v in [7u32, 70000, u32::MAX] {
        bytes.extend_from_slice(&u32_to_le_bytes(v));
    }
    assert_eq!(le_bytes_to_u32_vec(&bytes), Some(vec![7, 70000, u32::MAX]));
}

#[test]
fn big_endian_framing() {
    assert_eq!(be_u32_from(&[0, 0, 1, 2]), 258);
    assert_eq!(be_decode(&[]), 0);
    assert_eq!(be_decode(&[1, 0, 0, 0, 0, 0, 0, 0]), 1 << 56);
    let framed = length_prefixed(&[9, 8, 7]);
    assert_eq!(framed, vec![0, 0, 0, 3, 9, 8, 7]);
    assert_eq!(framed[..4], 3u32.to_be_bytes());
    assert_eq!(be_u32_from(&framed[..4]), 3);
}

#[test]
fn handshake_carries_the_port() {
    let hs = handshake_bytes(7555);
    assert_eq!(hs.len(), 12);
    assert_eq!(be_u32_from(&hs[..4]), 8);
    assert_eq!(handshake_port(&hs[4..]), Some(7555));
    assert_eq!(hs[4..], 7555u64.to_be_bytes());
    assert_eq!(handshake_port(&[1, 2, 3]), None);
    assert_eq!(handshake_port(&u64::MAX.to_be_bytes()), Some(u64::MAX));
}

#[test]
fn client_frames_are_zero_padded() {
    let f = pad_frame(&[5, 6]);
    assert_eq!(f.len(), FRAME_LEN);
    assert_eq!(&f[..2], &[5, 6]);
    assert!(f[2..].iter().all(|b| *b == 0));
    let full = vec![1u8; FRAME_LEN];
    assert_eq!(pad_frame(&full), full);
}

#[test]
fn decimal_text() {
    assert_eq!(format_decimal(0), "0");
    assert_eq!(format_decimal(8090), "8090");
    assert_eq!(format_decimal(u64::MAX), u64::MAX.to_string());
    let mut s = String::from("x=");
    push_signed_decimal(&mut s, -1000);
    assert_eq!(s, "x=-1000");
    let mut s = String::new();
    push_signed_decimal(&mut s, i32::MIN);
    assert_eq!(s, i32::MIN.to_string());
}

#[test]
fn parse_unsigned_matches_rust() {
    for t in ["0", "65535", "65536", "+80", "+", "", "-1", "8a", "007", "18446744073709551615", "18446744073709551616"] {
        assert_eq!(parse_unsigned(t, u16::MAX as u64), t.parse::<u16>().ok().map(u64::from), "{t}");
        assert_eq!(parse_unsigned(t, u64::MAX), t.parse::<u64>().ok(), "{t}");
    }
}

#[test]
fn shifted_addresses() {
    assert_eq!(shifted_address("127.0.0.1:8080", RPC_PORT_OFFSET).as_deref(), Some("127.0.0.1:8090"));
    assert_eq!(shifted_address("127.0.0.1:8080", BROKER_PORT_OFFSET).as_deref(), Some("127.0.0.1:8180"));
    assert_eq!(shifted_address("host:1:2", 10).as_deref(), Some("host:11"));
    assert_eq!(shifted_address("host:+07", 10).as_deref(), Some("host:17"));
    assert_eq!(shifted_address("host", 10), None);
    assert_eq!(shifted_address("host:", 10), None);
    assert_eq!(shifted_address("host:http", 10), None);
    assert_eq!(shifted_address("host:65530", 10), None);
    assert_eq!(shifted_address("host:65525", 10).as_deref(), Some("host:65535"));
}

#[test]
fn peer_addresses() {
    assert_eq!(peer_address("127.0.0.1:5555"), Some(("127.0.0.1".to_string(), 6555)));
    assert_eq!(peer_address("a:b:6000"), Some(("a:b".to_string(), 7000)));
    assert_eq!(peer_address(":1"), Some(("".to_string(), 1001)));
    assert_eq!(peer_address("5555"), None);
    assert_eq!(peer_address("h:x"), None);
    assert_eq!(peer_address("h:18446744073709551000"), None);
}

#[test]
fn rpc_failures() {
    let n = Network {};
    assert_eq!(n.rpc_failure(3, RpcStage::<&str>::Transport { refused: true }), RpcFailure::Unreachable);
    assert_eq!(n.rpc_failure(3, RpcStage::<&str>::Transport { refused: false }), RpcFailure::Network);
    assert_eq!(n.rpc_failure(3, RpcStage::<&str>::Decode), RpcFailure::Network);
    assert_eq!(
        n.rpc_failure(3, RpcStage::Answer { error: "vote refused" }),
        RpcFailure::Remote { target: 3, error: "vote refused" }
    );
}

#[test]
fn decimal_text_reads_back() {
    for n in [0u64, 9, 10, 65535, 1 << 40, u64::MAX] {
        assert_eq!(parse_unsigned(&format_decimal(n), u64::MAX), Some(n));
    }
    assert_eq!(parse_unsigned(&format_decimal(70000), 65535), None);
}

#[test]
fn frames_read_back_whole() {
    let mut stream = length_prefixed(&[42]);
    stream.extend(length_prefixed(&[]));
    stream.extend(length_prefixed(&[1, 2, 3]));
    let (m, used) = read_frame(&stream).unwrap();
    assert_eq!((m, used), (vec![42], 5));
    let (m, used2) = read_frame(&stream[used..]).unwrap();
    assert_eq!((m, used2), (vec![], 4));
    let rest = &stream[used + used2..];
    assert_eq!(read_frame(rest), Some((vec![1, 2, 3], 7)));
    assert_eq!(read_frame(&rest[..6]), None);
    assert_eq!(read_frame(&[0, 0, 0]), None);
}

#[test]
fn a_run_of_frames_reads_back_in_order() {
    let msgs: Vec<Vec<u8>> = vec![vec![1], vec![], vec![7, 8, 9], vec![0; 300]];
    let mut stream = Vec::new();
    for m in &msgs {
        stream.extend(length_prefixed(m));
    }
    let total = stream.len();
    assert_eq!(read_frames(&stream), (msgs.clone(), total));
    stream.extend([0, 0, 0, 5, 1]);
    assert_eq!(read_frames(&stream), (msgs, total));
    assert_eq!(read_frames(&[]), (vec![], 0));
}

#[test]
fn rpc_and_broker_addresses() {
    let addr = "127.0.0.1:21001";
    assert_eq!(rpc_listen_address(addr).as_deref(), Some("127.0.0.1:21011"));
    assert_eq!(rpc_peer_address(addr), rpc_listen_address(addr));
    assert_eq!(broker_listen_address(addr).as_deref(), Some("127.0.0.1:21101"));
    assert_eq!(rpc_peer_address("nohost"), None);
}
