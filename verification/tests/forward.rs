use mqtt::packet::ConnectPacket;
use mqtt::{Decodable, Encodable};
use thor::forward::{frame_length, rewrite_connect, ForwardError, ForwardStep, Forwarder, READ_BUFFER_SIZE};

fn connect_bytes(client_id: &str, user: Option<&str>) -> Vec<u8> {
    let mut p = ConnectPacket::new(client_id);
    p.set_user_name(user.map(|u| u.to_string()));
    p.set_keep_alive(60);
    let mut out = Vec::new();
    p.encode(&mut out).unwrap();
    out
}

fn decode(bytes: &[u8]) -> ConnectPacket {
    ConnectPacket::decode(&mut std::io::Cursor::new(bytes)).unwrap()
}

/// Feeds `chunks` then the end of the stream, sending everything due, and
/// returns what reached the broker.
fn run(f: &mut Forwarder, chunks: &[&[u8]]) -> Vec<u8> {
    let mut out = Vec::new();
    let mut next = 0;
    loop {
        match f.next_step() {
            ForwardStep::Read => {
                if next < chunks.len() {
                    f.on_read(chunks[next]).unwrap();
                    next += 1;
                } else {
                    f.on_read(&[]).unwrap();
                }
            }
            ForwardStep::Write => {
                let p = f.pending();
                out.extend_from_slice(&p);
                f.on_written(p.len()).unwrap();
            }
            ForwardStep::Finish => {
                assert!(f.is_finished());
                return out;
            }
        }
    }
}

#[test]
fn connect_gets_identity_as_client_id_exact_bytes() {
    let client = [0x10, 0x0D, 0x00, 0x04, 0x4D, 0x51, 0x54, 0x54, 0x04, 0x02, 0x00, 0x3C, 0x00, 0x01, 0x61];
    let mut f = Forwarder::new("cn".to_string(), false, true);
    let out = run(&mut f, &[&client]);
    assert_eq!(
        out,
        vec![0x10, 0x0E, 0x00, 0x04, 0x4D, 0x51, 0x54, 0x54, 0x04, 0x02, 0x00, 0x3C, 0x00, 0x02, 0x63, 0x6E]
    );
}

#[test]
fn connect_gets_identity_as_user_and_client_id() {
    let mut f = Forwarder::new("device-7".to_string(), true, true);
    let out = run(&mut f, &[&connect_bytes("sensor-id", Some("bob"))]);
    let p = decode(&out);
    assert_eq!(p.user_name(), Some("device-7"));
    assert_eq!(p.client_identifier(), "device-7");
    assert_eq!(p.keep_alive(), 60);
}

#[test]
fn connect_with_will_qos_three_is_forwarded_rewritten() {
    let client = [
        0x10, 0x13, 0x00, 0x04, 0x4D, 0x51, 0x54, 0x54, 0x04, 0x1E, 0x00, 0x3C, 0x00, 0x01, 0x61,
        0x00, 0x01, 0x74, 0x00, 0x01, 0x6D,
    ];
    let mut f = Forwarder::new("cn".to_string(), false, true);
    let out = run(&mut f, &[&client]);
    assert_eq!(
        out,
        vec![
            0x10, 0x14, 0x00, 0x04, 0x4D, 0x51, 0x54, 0x54, 0x04, 0x1E, 0x00, 0x3C, 0x00, 0x02, 0x63,
            0x6E, 0x00, 0x01, 0x74, 0x00, 0x01, 0x6D,
        ]
    );
    let p = decode(&out);
    assert_eq!(p.will_qos(), 3);
    assert_eq!(p.will(), Some(("t", &b"m"[..])));
    assert_eq!(p.client_identifier(), "cn");
}

#[test]
fn connect_identity_only_where_configured() {
    let mut f = Forwarder::new("device-7".to_string(), false, true);
    let p = decode(&run(&mut f, &[&connect_bytes("sensor-id", Some("bob"))]));
    assert_eq!(p.user_name(), Some("bob"));
    assert_eq!(p.client_identifier(), "device-7");

    let mut f = Forwarder::new("device-7".to_string(), true, false);
    let p = decode(&run(&mut f, &[&connect_bytes("sensor-id", None)]));
    assert_eq!(p.user_name(), Some("device-7"));
    assert_eq!(p.client_identifier(), "sensor-id");
}

#[test]
fn connect_split_over_reads_and_later_packets_follow_unchanged() {
    let connect = connect_bytes("sensor-id", None);
    let publish = vec![0x30, 0x05, 0x00, 0x01, b't', b'h', b'i'];
    let ping = vec![0xC0, 0x00];
    let mut stream = connect.clone();
    stream.extend_from_slice(&publish);
    stream.extend_from_slice(&ping);

    let mut expected_f = Forwarder::new("cn".to_string(), true, true);
    let mut expected = run(&mut expected_f, &[&connect]);
    expected.extend_from_slice(&publish);
    expected.extend_from_slice(&ping);

    for split in [1usize, 3, 4, connect.len() - 1, connect.len() + 2] {
        let mut f = Forwarder::new("cn".to_string(), true, true);
        let out = run(&mut f, &[&stream[..split], &stream[split..]]);
        assert_eq!(out, expected);
    }
    // a later byte 0x10 is not a CONNECT any more
    let mut f = Forwarder::new("cn".to_string(), true, true);
    let out = run(&mut f, &[&connect, &[0x10, 0x00]]);
    let mut e = run(&mut Forwarder::new("cn".to_string(), true, true), &[&connect]);
    e.extend_from_slice(&[0x10, 0x00]);
    assert_eq!(out, e);
}

#[test]
fn other_streams_pass_unchanged() {
    let publish = vec![0x30, 0x05, 0x00, 0x01, b't', b'h', b'i'];
    let mut f = Forwarder::new("device-7".to_string(), true, true);
    assert_eq!(run(&mut f, &[&publish[..2], &publish[2..]]), publish);
    // a CONNECT type with flags set is not a CONNECT to the packet library
    let odd = vec![0x11, 0x00, 0x07];
    let mut f = Forwarder::new("device-7".to_string(), true, true);
    assert_eq!(run(&mut f, &[&odd]), odd);
}

#[test]
fn stream_ending_inside_the_connect_goes_on_unchanged() {
    let connect = connect_bytes("sensor-id", None);
    let mut f = Forwarder::new("cn".to_string(), true, true);
    assert_eq!(run(&mut f, &[&connect[..5]]), connect[..5].to_vec());
    let mut f = Forwarder::new("cn".to_string(), true, true);
    assert_eq!(run(&mut f, &[]), Vec::<u8>::new());
}

#[test]
fn malformed_connect_is_reported() {
    let mut f = Forwarder::new("device-7".to_string(), true, true);
    assert_eq!(f.on_read(&[0x10, 0x02, 0x00, 0x00]), Err(ForwardError::MalformedConnect));
    let mut f = Forwarder::new("device-7".to_string(), true, true);
    assert_eq!(f.on_read(&[0x10, 0x80, 0x80, 0x80, 0x80]), Err(ForwardError::MalformedConnect));
    assert_eq!(
        rewrite_connect(&[0x10, 0x00], &"x".to_string(), true, true),
        Err(ForwardError::MalformedConnect)
    );
}

#[test]
fn identity_too_long_is_reported() {
    let long = "x".repeat(70000);
    assert_eq!(
        rewrite_connect(&connect_bytes("a", None), &long, false, true),
        Err(ForwardError::IdentityTooLong)
    );
    assert!(rewrite_connect(&connect_bytes("a", None), &long, false, false).is_ok());
}

#[test]
fn frame_lengths() {
    assert_eq!(frame_length(&vec![0x10]), Some(None));
    assert_eq!(frame_length(&vec![0x10, 0x05]), Some(Some(7)));
    assert_eq!(frame_length(&vec![0x10, 0x80]), Some(None));
    assert_eq!(frame_length(&vec![0x10, 0x80, 0x01]), Some(Some(131)));
    assert_eq!(frame_length(&vec![0x10, 0xFF, 0xFF, 0xFF, 0x7F]), Some(Some(5 + 268435455)));
    assert_eq!(frame_length(&vec![0x10, 0xFF, 0xFF, 0xFF, 0xFF]), None);
}

#[test]
fn partial_writes_advance_through_pending() {
    let data = vec![0x30, 0x03, 0x00, 0x01, b'a'];
    let mut f = Forwarder::new("n".to_string(), true, true);
    assert_eq!(f.read_capacity(), READ_BUFFER_SIZE);
    f.on_read(&data).unwrap();
    assert_eq!(f.next_step(), ForwardStep::Write);
    f.on_written(2).unwrap();
    assert_eq!(f.pending(), data[2..].to_vec());
    assert_eq!(f.on_written(0), Err(ForwardError::WriteZero));
    assert_eq!(f.pending(), data[2..].to_vec());
    f.on_written(3).unwrap();
    assert!(!f.has_pending());
    assert_eq!(f.next_step(), ForwardStep::Read);
    assert!(!f.is_finished());
    f.on_read(&[]).unwrap();
    assert_eq!(f.next_step(), ForwardStep::Finish);
    assert!(f.is_finished());
}
