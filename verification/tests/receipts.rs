use matui::event::{EventContent, MessageBody, Relation, TimelineEvent};
use matui::listing::take_in;
use matui::message::Message;
use matui::receipts::{ReadReceipt, Receipt, ReceiptQueue, Receipts};

fn message(id: &str, ts: u64) -> TimelineEvent {
    TimelineEvent {
        id: id.to_string(),
        room_id: "!r:h".to_string(),
        sender: "@a:h".to_string(),
        ts,
        content: EventContent::Message {
            body: MessageBody::Text { body: "text".to_string() },
            relation: Relation::Plain,
        },
    }
}

fn reply(id: &str, ts: u64, to: &str) -> TimelineEvent {
    let mut e = message(id, ts);
    e.content = EventContent::Message {
        body: MessageBody::Text { body: "text".to_string() },
        relation: Relation::Reply { event_id: to.to_string() },
    };
    e
}

fn receipt(user: &str, ts: u64) -> Receipt {
    Receipt { event_id: "$e".to_string(), user_id: user.to_string(), timestamp: ts }
}

fn read(event: &str, user: &str, ts: u64) -> ReadReceipt {
    ReadReceipt { event_id: event.to_string(), user_id: user.to_string(), timestamp: ts }
}

fn queue(list: &[(&str, u64)]) -> ReceiptQueue {
    let mut q = ReceiptQueue::new();
    for (user, ts) in list {
        q.push(receipt(user, *ts));
    }
    q
}

fn readers(m: &Message) -> Vec<&str> {
    m.receipts.iter().map(|u| u.id.as_str()).collect()
}

#[test]
fn the_queue_hands_out_the_latest_first() {
    let mut q = queue(&[("@a:h", 5), ("@b:h", 9), ("@c:h", 1), ("@d:h", 9)]);
    assert_eq!(q.len(), 4);
    assert_eq!(q.peek().unwrap().user_id, "@b:h");
    let order: Vec<String> = std::iter::from_fn(|| q.pop()).map(|r| r.user_id).collect();
    assert_eq!(order, vec!["@b:h", "@d:h", "@a:h", "@c:h"]);
    assert!(q.pop().is_none());
    assert!(q.peek().is_none());
}

#[test]
fn receipt_ordering() {
    let mut messages = Vec::new();
    for (id, ts) in [("1", 10), ("2", 20), ("3", 30)] {
        take_in(&mut messages, &message(id, ts));
    }
    let mut q = queue(&[("@A:h", 15), ("@B:h", 99)]);
    Message::apply_receipts(&mut messages, &mut q);
    assert_eq!(readers(&messages[2]), vec!["@B:h"]);
    assert_eq!(readers(&messages[1]), Vec::<&str>::new());
    assert_eq!(readers(&messages[0]), vec!["@A:h"]);
    assert_eq!(q.len(), 0);
}

#[test]
fn a_receipt_stands_on_the_newest_message_sent_by_then() {
    let mut messages = Vec::new();
    for (id, ts) in [("1", 10), ("2", 20), ("3", 30)] {
        take_in(&mut messages, &message(id, ts));
    }
    let mut q = queue(&[("@a:h", 20), ("@b:h", 29), ("@c:h", 30), ("@d:h", 9), ("@e:h", 10)]);
    Message::apply_receipts(&mut messages, &mut q);
    assert_eq!(readers(&messages[0]), vec!["@e:h"]);
    assert_eq!(readers(&messages[1]), vec!["@b:h", "@a:h"]);
    assert_eq!(readers(&messages[2]), vec!["@c:h"]);
    assert_eq!(q.len(), 1);
    assert_eq!(q.peek().unwrap().user_id, "@d:h");
}

#[test]
fn every_list_of_replies_shows_each_receipt_once() {
    let mut messages = Vec::new();
    take_in(&mut messages, &message("1", 10));
    take_in(&mut messages, &reply("2", 20, "1"));
    take_in(&mut messages, &reply("3", 30, "1"));
    take_in(&mut messages, &reply("4", 40, "3"));
    let mut q = queue(&[("@a:h", 25), ("@b:h", 50)]);
    Message::apply_receipts(&mut messages, &mut q);
    let root = &messages[0];
    assert_eq!(readers(root), vec!["@b:h", "@a:h"]);
    assert_eq!(readers(&root.replies[0]), vec!["@a:h"]);
    assert_eq!(readers(&root.replies[1]), vec!["@b:h"]);
    assert_eq!(readers(&root.replies[1].replies[0]), vec!["@b:h"]);
}

#[test]
fn a_user_has_one_receipt() {
    let mut receipts = Receipts::new("@me:h".to_string());
    receipts.apply_event(&vec![
        read("$1", "@a:h", 10),
        read("$1", "@b:h", 11),
        read("$2", "@me:h", 12),
        read("$2", "@a:h", 13),
    ]);
    let first: Vec<String> = receipts.get(&"$1".to_string()).into_iter().map(|u| u.id).collect();
    assert_eq!(first, vec!["@b:h"]);
    let second: Vec<String> = receipts.get(&"$2".to_string()).into_iter().map(|u| u.id).collect();
    assert_eq!(second, vec!["@a:h"]);
    let mut q = receipts.get_all();
    assert_eq!(q.len(), 2);
    assert_eq!(q.pop().unwrap().timestamp, 13);
    assert_eq!(q.pop().unwrap().timestamp, 11);
}

#[test]
fn the_senders_of_a_receipt_event_are_listed() {
    let ids = Receipts::get_senders(&vec![read("$1", "@a:h", 1), read("$2", "@b:h", 2)]);
    assert_eq!(ids, vec!["@a:h", "@b:h"]);
    assert!(Receipts::get_senders(&vec![]).is_empty());
}
