use dbus::item::{TYPE_BYTE, TYPE_DICT_ENTRY};
use dbus::{Connection, ConnectionItem, ConnectionItems, HandlerResult, Message, MessageItem, MessageType, Poll};

/// Runs one poll of the iterator against a transport whose dispatch step
/// delivers `arriving` and then reports `alive`.
fn poll(it: &mut ConnectionItems, c: &mut Connection, arriving: Vec<Message>, alive: bool) -> Option<ConnectionItem> {
    match it.next(c) {
        Poll::Ready(r) => r,
        Poll::Dispatch(_) => {
            for m in arriving {
                c.filter_message(m);
            }
            it.dispatched(c, alive)
        }
    }
}

fn signal_msg(member: &str) -> Message {
    Message::new_signal("/s", "com.example.s", member).unwrap()
}

fn call(member: &str) -> Message {
    Message::new_method_call(":1.1", "/c", "com.example.c", member).unwrap()
}

fn member_of(it: &ConnectionItem) -> (MessageType, String) {
    match it {
        ConnectionItem::Signal(m) | ConnectionItem::MethodCall(m) => (m.msg_type(), m.headers().3.unwrap()),
        ConnectionItem::Nothing => panic!("a tick where a message was expected"),
    }
}

#[test]
fn message_types() {
    let mut c = Connection::new();
    let mut m = Message::new_method_call(":1.1", "/hello", "com.example.hello", "Hello").unwrap();
    m.append_items(&[
        MessageItem::UInt16(2000),
        MessageItem::Array(vec![MessageItem::Byte(129)], -1),
        MessageItem::UInt64(987654321),
        MessageItem::Int32(-1),
        MessageItem::Str("Hello world".to_string()),
        MessageItem::Array(vec![MessageItem::DictEntry(Box::new(MessageItem::UInt32(123543)), Box::new(MessageItem::Bool(true)))], -1),
    ])
    .unwrap();
    let sending = format!("{:?}", m.get_items());
    let mut it = c.iter(1000);
    let mut delivered = vec![m];
    loop {
        let n = poll(&mut it, &mut c, std::mem::take(&mut delivered), true).unwrap();
        match n {
            ConnectionItem::MethodCall(mut m) => {
                let receiving = format!("{:?}", m.get_items());
                assert_eq!(sending, receiving);
                assert_eq!(
                    m.get_items().unwrap()[1],
                    MessageItem::Array(vec![MessageItem::Byte(129)], TYPE_BYTE)
                );
                assert!(matches!(&m.get_items().unwrap()[5], MessageItem::Array(_, t) if *t == TYPE_DICT_ENTRY));
                break;
            }
            _ => {}
        }
    }
}

#[test]
fn signal() {
    let mut c = Connection::new();
    let uname = ":1.42".to_string();
    let mut other = Message::new_signal("/other", "com.example.other", "Other").unwrap();
    other.set_sender(":1.7");
    let mut m = Message::new_signal("/mysignal", "com.example.signaltest", "ThisIsASignal").unwrap();
    m.set_sender(&uname);
    let mut it = c.iter(1000);
    let mut delivered = vec![other, m];
    let mut found = false;
    for _ in 0..4 {
        match poll(&mut it, &mut c, std::mem::take(&mut delivered), true) {
            Some(ConnectionItem::Signal(s)) => {
                let (_, p, i, m) = s.headers();
                if (p.as_deref(), i.as_deref(), m.as_deref())
                    == (Some("/mysignal"), Some("com.example.signaltest"), Some("ThisIsASignal"))
                {
                    assert_eq!(s.sender().unwrap(), uname);
                    found = true;
                    break;
                }
            }
            _ => {}
        }
    }
    assert!(found);
}

#[test]
fn object_path() {
    let mut c = Connection::new();
    let mut request = Message::new_method_call(":1.3", "/hello", "com.example.hello", "Hello").unwrap();
    request.set_sender(":1.4");
    assert_eq!(c.object_path_message(request), HandlerResult::Handled);
    let mut it = c.iter(1000);
    match poll(&mut it, &mut c, vec![], true) {
        Some(ConnectionItem::MethodCall(m)) => {
            let mut reply = Message::new_method_return(&m).unwrap();
            assert_eq!(reply.msg_type(), MessageType::MethodReturn);
            assert_eq!(reply.get_items(), Ok(vec![]));
        }
        _ => panic!("expected the method call"),
    }
}

#[test]
fn queue_keeps_delivery_order() {
    let mut c = Connection::new();
    let caller = call("Ask");
    let msgs = vec![
        signal_msg("S1"),
        call("C1"),
        Message::new_method_return(&caller).unwrap(),
        signal_msg("S2"),
        Message::new_error(&caller, "com.example.E", "bad").unwrap(),
        call("C2"),
        signal_msg("S3"),
    ];
    let results: Vec<HandlerResult> = msgs.into_iter().map(|m| c.filter_message(m)).collect();
    assert_eq!(
        results,
        vec![
            HandlerResult::Handled,
            HandlerResult::Handled,
            HandlerResult::NotYetHandled,
            HandlerResult::Handled,
            HandlerResult::NotYetHandled,
            HandlerResult::Handled,
            HandlerResult::Handled,
        ]
    );
    assert_eq!(c.pending(), 5);
    let mut it = c.iter(10);
    let mut seen = Vec::new();
    for _ in 0..5 {
        let item = poll(&mut it, &mut c, vec![], true).unwrap();
        seen.push(member_of(&item));
    }
    let expect = vec![
        (MessageType::Signal, "S1".to_string()),
        (MessageType::MethodCall, "C1".to_string()),
        (MessageType::Signal, "S2".to_string()),
        (MessageType::MethodCall, "C2".to_string()),
        (MessageType::Signal, "S3".to_string()),
    ];
    assert_eq!(seen, expect);
    assert!(matches!(poll(&mut it, &mut c, vec![], true), Some(ConnectionItem::Nothing)));
}

#[test]
fn timeout_tick_then_pollable() {
    let mut c = Connection::new();
    let mut it = c.iter(250);
    assert!(matches!(it.next(&mut c), Poll::Dispatch(250)));
    assert!(matches!(it.dispatched(&mut c, true), Some(ConnectionItem::Nothing)));
    assert!(matches!(it.next(&mut c), Poll::Dispatch(250)));
    assert!(matches!(it.dispatched(&mut c, true), Some(ConnectionItem::Nothing)));
    c.filter_message(signal_msg("Late"));
    assert!(matches!(it.next(&mut c), Poll::Ready(Some(ConnectionItem::Signal(_)))));
}

#[test]
fn closed_connection_exhausts() {
    let mut c = Connection::new();
    let mut it = c.iter(-1);
    assert!(matches!(it.next(&mut c), Poll::Dispatch(-1)));
    // items that arrived in the last step are still yielded
    c.filter_message(signal_msg("Last"));
    assert!(matches!(it.dispatched(&mut c, false), Some(ConnectionItem::Signal(_))));
    assert!(matches!(it.next(&mut c), Poll::Dispatch(-1)));
    assert!(it.dispatched(&mut c, false).is_none());
    c.filter_message(signal_msg("After"));
    assert!(matches!(it.next(&mut c), Poll::Ready(None)));
    assert!(it.dispatched(&mut c, true).is_none());
    assert_eq!(c.pending(), 1);
}
