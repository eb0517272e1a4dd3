use cat_client::config::Config;
use cat_client::consts;
use cat_client::message::{Event, Message};
use cat_client::router::{compare_server_address, CatRouterConfig, RouterUpdate, ServerAddress};
use cat_client::sender::{transaction_priority, CatMessageSender, MessageManager, Priority};
use cat_client::transaction::DefaultTransaction;

#[test]
fn message_ids_count_up() {
    let mut m = MessageManager::new();
    assert_eq!(m.next_id(), "0");
    assert_eq!(m.next_id(), "1");
    let mut last = m.next_id();
    for _ in 0..20 {
        let id = m.next_id();
        assert_ne!(id, last);
        last = id;
    }
    assert_eq!(last, "22");
}

#[test]
fn failed_transactions_go_first() {
    let mut t = DefaultTransaction::new();
    assert_eq!(transaction_priority(&t), Priority::Normal);
    t.set_status(consts::CAT_ERROR);
    assert_eq!(transaction_priority(&t), Priority::High);
}

#[test]
fn frame_has_its_length_in_front() {
    let mut config = Config::new();
    config.domain = "cat".to_string();
    config.hostname = "h".to_string();
    config.ip = "1.1.1.1".to_string();
    let mut sender = CatMessageSender::new(&config);
    let event = Message::Event(Event::new("E".to_string(), "e".to_string(), 1));
    sender.send(&event);
    let mut expected: Vec<u8> = vec![0, 0, 0, 35];
    expected.extend_from_slice(b"PT1");
    expected.extend_from_slice(&[3, b'c', b'a', b't', 1, b'h', 7]);
    expected.extend_from_slice(b"1.1.1.1");
    expected.extend_from_slice(&[0, 1, b'0', 0, 1, b'0', 0, 0, 0]);
    expected.extend_from_slice(&[b'H', 1, 1, b'E', 1, b'e', 1, b'0', 0]);
    assert_eq!(sender.get_buffer().clone(), expected);
    let mut t = DefaultTransaction::with_name("T".to_string(), "t".to_string(), 3);
    t.set_duration_in_millis(2);
    sender.send(&Message::Transaction(Box::new(t)));
    let buf = sender.get_buffer().clone();
    let len = u32::from_be_bytes([buf[0], buf[1], buf[2], buf[3]]) as usize;
    assert_eq!(len, buf.len() - 4);
    let tail: Vec<u8> = vec![1, b'1', 0, 0, 0, b't', 3, 1, b'T', 1, b't', b'T', 1, b'0', 0, 0xd0, 0x0f];
    assert_eq!(buf[buf.len() - tail.len()..].to_vec(), tail);
}

fn server(ip: &str, port: u32, http_port: u32) -> ServerAddress {
    ServerAddress::new(ip.to_string(), port, http_port)
}

#[test]
fn router_replaces_only_changed_lists() {
    let mut r = CatRouterConfig::new(Vec::new(), 1, "/cat/s/router".to_string());
    assert_eq!(r.update_router(Vec::new()), RouterUpdate::EmptyList);
    assert_eq!(r.connect_count(RouterUpdate::EmptyList), 0);
    let update = r.update_router(vec![server("10.0.0.1", 2280, 0), server("10.0.0.2", 2280, 80)]);
    assert_eq!(update, RouterUpdate::Changed);
    assert_eq!(r.get_server_addresses().len(), 2);
    assert_eq!(r.connect_count(update), 1);
    // The same list again changes nothing.
    let update = r.update_router(vec![server("10.0.0.1", 2280, 0), server("10.0.0.2", 2280, 80)]);
    assert_eq!(update, RouterUpdate::Unchanged);
    assert_eq!(r.connect_count(update), 1);
    // An empty list contacts no server.
    assert_eq!(r.update_router(Vec::new()), RouterUpdate::EmptyList);
    assert_eq!(r.connect_count(RouterUpdate::EmptyList), 0);
    assert_eq!(r.get_server_addresses().len(), 2);
    // The HTTP port does not make a server different.
    assert_eq!(
        r.update_router(vec![server("10.0.0.1", 2280, 1), server("10.0.0.2", 2280, 80)]),
        RouterUpdate::Unchanged
    );
    assert_eq!(
        r.update_router(vec![server("10.0.0.1", 2281, 0), server("10.0.0.2", 2280, 80)]),
        RouterUpdate::Changed
    );
    assert_eq!(r.get_server_addresses()[0].get_port(), 2281);
    assert_eq!(r.update_router(vec![server("10.0.0.9", 1, 1)]), RouterUpdate::Changed);
    assert_eq!(r.get_server_addresses().len(), 1);
    assert_eq!(r.connect_count(RouterUpdate::Changed), 1);
}

#[test]
fn router_config_urls() {
    let r = CatRouterConfig::new(
        vec![server("10.1.1.1", 2280, 0), server("10.1.1.2", 2280, 81)],
        0,
        "/cat/s/router".to_string(),
    );
    assert_eq!(r.server_config_url(0).unwrap(), "http://10.1.1.1:8080/cat/s/router");
    assert_eq!(r.server_config_url(1).unwrap(), "http://10.1.1.2:81/cat/s/router");
    assert_eq!(r.server_config_url(2), None);
    assert_eq!(r.connect_count(RouterUpdate::Unchanged), 0);
    for _ in 0..20 {
        if let Some(url) = r.get_server_config_url() {
            assert!(url == "http://10.1.1.1:8080/cat/s/router" || url == "http://10.1.1.2:81/cat/s/router");
        }
    }
    assert!(compare_server_address(&server("a", 1, 2), &server("a", 1, 3)));
    assert!(!compare_server_address(&server("a", 1, 2), &server("b", 1, 2)));
}
