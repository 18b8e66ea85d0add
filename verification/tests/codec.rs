use breaknet::codec::decode_len;
use breaknet::codec::encode_len;
use breaknet::codec::join_id;
use breaknet::codec::newconn_frame;
use breaknet::codec::newsocket_frame;
use breaknet::codec::parse_session_ids;
use breaknet::codec::split_id;
use breaknet::codec::start_frame;
use breaknet::codec::success_reply;
use breaknet::consts::NEWCONN;
use breaknet::consts::NEWSOCKET;
use breaknet::consts::START;
use breaknet::consts::SUCCESS;

#[test]
fn length_encoding_is_big_endian() {
    assert_eq!(encode_len(0), vec![0u8; 8]);
    assert_eq!(encode_len(1), vec![0, 0, 0, 0, 0, 0, 0, 1]);
    assert_eq!(encode_len(1048576), vec![0, 0, 0, 0, 0, 16, 0, 0]);
    assert_eq!(
        encode_len(0x0102030405060708),
        vec![1, 2, 3, 4, 5, 6, 7, 8]
    );
}

#[test]
fn length_round_trips() {
    for n in [0u64, 1, 255, 256, 1048576, u64::MAX] {
        assert_eq!(decode_len(&encode_len(n)), n);
    }
}

#[test]
fn session_id_bytes_round_trip() {
    assert_eq!(split_id(0x1234), (0x12, 0x34));
    assert_eq!(join_id(0x12, 0x34), 0x1234);
    for id in [0u16, 1, 255, 256, 0x1234, u16::MAX] {
        let (hi, lo) = split_id(id);
        assert_eq!(join_id(hi, lo), id);
    }
}

#[test]
fn four_byte_frames() {
    assert_eq!(newsocket_frame(258, 5), vec![NEWSOCKET, 1, 2, 5]);
    assert_eq!(newconn_frame(258, 5), vec![NEWCONN, 1, 2, 5]);
    // the true high byte is emitted even past the first 256 sessions
    assert_eq!(newsocket_frame(0x0300, 0), vec![NEWSOCKET, 3, 0, 0]);
}

#[test]
fn success_reply_bytes() {
    assert_eq!(success_reply(&vec![]), vec![SUCCESS]);
    assert_eq!(success_reply(&vec![0]), vec![SUCCESS, 0, 0]);
    assert_eq!(success_reply(&vec![258, 772]), vec![SUCCESS, 1, 2, 3, 4]);
}

#[test]
fn session_ids_parse_back() {
    assert_eq!(parse_session_ids(&vec![]), Vec::<u16>::new());
    assert_eq!(parse_session_ids(&vec![1, 2, 3, 4]), vec![258, 772]);
    let ids = vec![0u16, 7, 65535];
    let reply = success_reply(&ids);
    assert_eq!(parse_session_ids(&reply[1..].to_vec()), ids);
}

#[test]
fn start_frame_layout() {
    let payload = vec![97u8, 98];
    let f = start_frame(&payload).unwrap();
    assert_eq!(f, vec![START, 0, 0, 0, 0, 0, 0, 0, 2, 97, 98]);
}

#[test]
fn start_frame_refuses_oversized_payload() {
    let payload = vec![0u8; 1048577];
    assert!(start_frame(&payload).is_none());
    let payload = vec![0u8; 1048576];
    let f = start_frame(&payload).unwrap();
    assert_eq!(f.len(), 1 + 8 + 1048576);
    assert_eq!(&f[..9], &[START, 0, 0, 0, 0, 0, 16, 0, 0]);
}
