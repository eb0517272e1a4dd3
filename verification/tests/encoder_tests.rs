use cat_client::consts;
use cat_client::encoder::BinaryEncoder;
use cat_client::header::Header;
use cat_client::message::{Event, Message, MessageData, Metric};
use cat_client::transaction::{message_is_encodable, DefaultTransaction, Transaction};

#[test]
fn write_i64_small_and_multi_byte() {
    let mut buf: Vec<u8> = Vec::new();
    BinaryEncoder::write_i64(&mut buf, 0);
    assert_eq!(buf, vec![0]);
    let mut buf: Vec<u8> = Vec::new();
    BinaryEncoder::write_i64(&mut buf, 127);
    assert_eq!(buf, vec![127]);
    let mut buf: Vec<u8> = Vec::new();
    BinaryEncoder::write_i64(&mut buf, 128);
    assert_eq!(buf, vec![0x80, 0x01]);
    let mut buf: Vec<u8> = Vec::new();
    BinaryEncoder::write_i64(&mut buf, 300);
    assert_eq!(buf, vec![0xac, 0x02]);
    let mut buf: Vec<u8> = vec![9];
    BinaryEncoder::write_i64(&mut buf, i64::MAX);
    assert_eq!(buf, vec![9, 0xff, 0xff, 0xff, 0xff, 0xff, 0xff, 0xff, 0xff, 0x7f]);
}

#[test]
fn varint_of_different_numbers_differ() {
    for a in [0i64, 1, 127, 128, 255, 16383, 16384, 1 << 40] {
        for b in [0i64, 1, 127, 128, 255, 16383, 16384, 1 << 40] {
            let mut x: Vec<u8> = Vec::new();
            let mut y: Vec<u8> = Vec::new();
            BinaryEncoder::write_i64(&mut x, a);
            BinaryEncoder::write_i64(&mut y, b);
            assert_eq!(a == b, x == y);
            assert!(x[x.len() - 1] < 128);
            assert!(x[..x.len() - 1].iter().all(|&c| c >= 128));
        }
    }
}

#[test]
fn write_string_empty_and_text() {
    let mut buf: Vec<u8> = Vec::new();
    BinaryEncoder::write_string(&mut buf, "");
    assert_eq!(buf, vec![0]);
    BinaryEncoder::write_string(&mut buf, "abc");
    assert_eq!(buf, vec![0, 3, b'a', b'b', b'c']);
    let mut buf: Vec<u8> = Vec::new();
    BinaryEncoder::write_string(&mut buf, "é");
    assert_eq!(buf, vec![2, 0xc3, 0xa9]);
}

#[test]
fn write_version_has_no_length() {
    let mut buf: Vec<u8> = Vec::new();
    BinaryEncoder::write_version(&mut buf, consts::BINARY_PROTOCOL);
    assert_eq!(buf, b"PT1".to_vec());
}

#[test]
fn encode_header_layout() {
    let header = Header::new("d", "h", "1.2", "7".to_string());
    let mut buf: Vec<u8> = Vec::new();
    BinaryEncoder::encode_header(&mut buf, &header);
    let mut expected: Vec<u8> = b"PT1".to_vec();
    expected.extend_from_slice(&[
        1, b'd', 1, b'h', 3, b'1', b'.', b'2', 0, 1, b'0', 0, 1, b'7', 0, 0, 0,
    ]);
    assert_eq!(buf, expected);
}

#[test]
fn header_getters() {
    let header = Header::new("dom", "host", "10.0.0.1", "id-1".to_string());
    assert_eq!(header.get_domain(), "dom");
    assert_eq!(header.get_hostname(), "host");
    assert_eq!(header.get_ip(), "10.0.0.1");
    assert_eq!(header.get_message_id(), "id-1");
    assert_eq!(header.get_parent_message_id(), "");
    assert_eq!(header.get_root_message_id(), "");
}

#[test]
fn encode_message_parts() {
    let mut m = MessageData::new("URL".to_string(), "home".to_string(), 300);
    let mut buf: Vec<u8> = Vec::new();
    BinaryEncoder::encode_message_start(&mut buf, &m);
    assert_eq!(buf, vec![0xac, 0x02, 3, b'U', b'R', b'L', 4, b'h', b'o', b'm', b'e']);
    let mut buf: Vec<u8> = Vec::new();
    BinaryEncoder::encode_message_end(&mut buf, &m);
    assert_eq!(buf, vec![1, b'0', 0]);
    m.set_data(vec![1, 2]);
    m.set_status(consts::CAT_ERROR);
    let mut buf: Vec<u8> = Vec::new();
    BinaryEncoder::encode_message_end(&mut buf, &m);
    assert_eq!(buf, vec![2, b'-', b'1', 2, 1, 2]);
}

#[test]
fn encode_message_with_leader_layout() {
    let m = MessageData::new("T".to_string(), "n".to_string(), 1);
    let mut buf: Vec<u8> = Vec::new();
    BinaryEncoder::encode_message_with_leader(&mut buf, &m, b'E');
    assert_eq!(buf, vec![b'E', 1, 1, b'T', 1, b'n', 1, b'0', 0]);
}

#[test]
fn headers_with_different_fields_encode_differently() {
    let fields = [("a", "b", "c", "1"), ("ab", "", "c", "1"), ("a", "bc", "", "1"), ("a", "b", "c", "2")];
    let mut encodings: Vec<Vec<u8>> = Vec::new();
    for (d, h, i, m) in fields {
        let header = Header::new(d, h, i, m.to_string());
        let mut buf: Vec<u8> = Vec::new();
        BinaryEncoder::encode_header(&mut buf, &header);
        assert!(!encodings.contains(&buf));
        encodings.push(buf);
    }
}

#[test]
fn encode_message_end_ignores_the_time() {
    let m = MessageData::new("T".to_string(), "n".to_string(), -5);
    let mut buf: Vec<u8> = Vec::new();
    BinaryEncoder::encode_message_end(&mut buf, &m);
    assert_eq!(buf, vec![1, b'0', 0]);
}

#[test]
fn encode_message_nests_children() {
    let mut child = DefaultTransaction::with_name("C".to_string(), "c".to_string(), 2);
    child.set_duration_in_millis(1);
    let mut root = DefaultTransaction::with_name("R".to_string(), "r".to_string(), 1);
    root.add_children(Message::Event(Event::new("E".to_string(), "e".to_string(), 3)));
    root.add_children(Message::Transaction(Box::new(child)));
    root.add_children(Message::Metric(Metric::new("M".to_string(), "m".to_string(), 4)));
    root.set_duration_in_millis(2);
    let message = Message::Transaction(Box::new(root));
    assert!(message_is_encodable(&message));
    let mut buf: Vec<u8> = Vec::new();
    BinaryEncoder::encode_message(&mut buf, &message);
    let expected: Vec<u8> = vec![
        b't', 1, 1, b'R', 1, b'r',
        b'H', 3, 1, b'E', 1, b'e', 1, b'0', 0,
        b't', 2, 1, b'C', 1, b'c', b'T', 1, b'0', 0, 0xe8, 0x07,
        b'M', 4, 1, b'M', 1, b'm', 1, b'0', 0,
        b'T', 1, b'0', 0, 0xd0, 0x0f,
    ];
    assert_eq!(buf, expected);
    let mut late = DefaultTransaction::new();
    late.set_duration_in_millis(-1);
    assert!(!message_is_encodable(&Message::Transaction(Box::new(late))));
    assert!(!message_is_encodable(&Message::Event(Event::new("E".to_string(), "e".to_string(), -1))));
}
