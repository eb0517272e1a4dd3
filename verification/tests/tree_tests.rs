use cat_client::config::Config;
use cat_client::consts::Signal;
use cat_client::context::{Context, MessageTree};
use cat_client::manager::{MessageManager, MessageProducer};
use cat_client::message::{Event, Message, Metric};
use cat_client::scheduler::ScheduleMixin;
use cat_client::transaction::{
    DefaultForkedTransaction, DefaultTransaction, NullTransaction, Transaction, TransactionKind,
};

#[test]
fn config_starts_empty() {
    let c = Config::new();
    assert_eq!(c.get_domain(), "");
    assert_eq!(c.get_hostname(), "");
    assert_eq!(c.get_ip(), "");
    assert_eq!(c.get_env(), "");
    assert_eq!(c.get_ip_hex(), "");
    assert_eq!(c.http_server_port, 0);
}

#[test]
fn transactions_type_ids_and_children() {
    let mut t = DefaultTransaction::new();
    assert_eq!(t.get_type_id(), "DefaultTransaction");
    assert_eq!(t.get_type(), "");
    t.add_children(Message::Event(Event::new("E".to_string(), "e".to_string(), 1)));
    t.add_children(Message::Metric(Metric::new("M".to_string(), "m".to_string(), 2)));
    assert_eq!(t.get_children().len(), 2);
    let mut n = NullTransaction {};
    assert_eq!(n.get_type_id(), "NullTransaction");
    n.add_children(Message::Transaction(Box::new(DefaultTransaction::new())));
    assert_eq!(DefaultForkedTransaction {}.get_type_id(), "DefaultForkedTransaction");
    assert_eq!(TransactionKind::Null.get_type_id(), "NullTransaction");
}

#[test]
fn message_tree_root() {
    let mut tree = MessageTree::new("ip".to_string(), "host".to_string(), "dom".to_string());
    assert_eq!(tree.get_message(), None);
    tree.set_message(3);
    assert_eq!(tree.get_message(), Some(3));
}

#[test]
fn context_builds_the_tree() {
    let mut c = Context::new("ip".to_string(), "host".to_string(), "dom".to_string());
    assert_eq!(c.start(TransactionKind::Default, false), 0);
    assert_eq!(c.get_tree().get_message(), Some(0));
    assert_eq!(c.start(TransactionKind::Default, false), 1);
    assert_eq!(c.start(TransactionKind::Null, false), 2);
    assert_eq!(c.start(TransactionKind::Default, false), 3);
    assert_eq!(c.start(TransactionKind::DefaultForked, true), 4);
    assert_eq!(c.start(TransactionKind::Default, true), 5);
    let nodes = c.get_nodes();
    assert_eq!(nodes[0].children, vec![1]);
    assert_eq!(nodes[1].children, vec![2]);
    // A null transaction keeps no children.
    assert_eq!(nodes[2].children, Vec::<usize>::new());
    // A forked transaction is not added as a child.
    assert_eq!(nodes[3].children, vec![5]);
    assert_eq!(c.get_stack().clone(), vec![0, 1, 2, 3]);
    assert_eq!(c.get_length(), 4);
    assert_eq!(c.get_tree().get_message(), Some(0));
}

#[test]
fn manager_set_up_toggles_the_context() {
    let mut m = MessageManager::new("d".to_string(), "h".to_string(), "i".to_string());
    assert!(m.get_context().is_none());
    assert_eq!(m.start(TransactionKind::Default, false), None);
    assert!(!m.is_first_message());
    m.set_up();
    assert!(m.get_context().is_some());
    assert_eq!(m.start(TransactionKind::Default, false), Some(0));
    m.set_up();
    assert!(m.get_context().is_none());
}

#[test]
fn producer_hands_out_default_transactions() {
    let mut p = MessageProducer::new();
    assert_eq!(p.new_transaction(), (TransactionKind::Default, Some(0)));
    {
        let c = p.get_manager().get_context().unwrap();
        assert_eq!(c.get_nodes().len(), 1);
        assert_eq!(c.get_stack().clone(), vec![0]);
        assert_eq!(c.get_tree().get_message(), Some(0));
    }
    assert_eq!(p.new_transaction(), (TransactionKind::Default, None));
    assert!(p.get_manager().get_context().is_none());
    assert!(!p.get_manager().is_first_message());
    assert_eq!(p.new_transaction(), (TransactionKind::Default, Some(0)));
    assert!(p.get_manager().get_context().is_some());
}

#[test]
fn schedule_mixin_stops_on_shutdown() {
    let mut s = ScheduleMixin::new(Signal::SignalSenderExit);
    assert!(!s.is_active());
    s.set_active(true);
    s.handle(Signal::SignalResetConnection);
    assert!(s.is_active());
    s.handle(Signal::SignalShutdown);
    assert!(!s.is_active());
    assert_eq!(s.exit_signal, Signal::SignalSenderExit);
}

#[test]
fn new_default_transactions_have_their_type_id() {
    assert_eq!(DefaultTransaction::new().get_type_id(), "DefaultTransaction");
    let t = DefaultTransaction::with_name("a".to_string(), "b".to_string(), 0);
    assert_eq!(t.get_type_id(), "DefaultTransaction");
    assert!(t.get_children().is_empty());
}
