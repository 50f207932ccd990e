use squirreldb::subscription::{Delivery, Subscription, SubscriptionTable};
use squirreldb::{ChangeEvent, Document};

fn document(name: &str) -> Document {
    Document {
        id: uuid::Uuid::nil(),
        collection: "users".to_string(),
        data: serde_json::Value::from(name),
        created_at: "2024-01-01T00:00:00Z".to_string(),
        updated_at: "2024-01-01T00:00:00Z".to_string(),
    }
}

fn inserted(name: &str) -> ChangeEvent {
    ChangeEvent::Insert { new: document(name) }
}

fn name_of(delivery: Delivery) -> String {
    match delivery {
        Delivery::Event(ChangeEvent::Insert { new }) => new.data.as_str().unwrap().to_string(),
        Delivery::Event(_) => "another event".to_string(),
        Delivery::Pending => "<pending>".to_string(),
        Delivery::Ended => "<ended>".to_string(),
    }
}

#[test]
fn events_come_out_in_the_order_in_which_they_came_in() {
    let mut sub = Subscription::new("sub1");
    assert_eq!(sub.id(), "sub1");
    assert!(sub.is_open());
    assert_eq!(name_of(sub.next()), "<pending>");
    assert!(sub.push(inserted("a")));
    assert!(sub.push(inserted("b")));
    assert_eq!(sub.queued(), 2);
    assert_eq!(name_of(sub.next()), "a");
    assert!(sub.push(inserted("c")));
    assert_eq!(name_of(sub.next()), "b");
    assert_eq!(name_of(sub.next()), "c");
    assert_eq!(name_of(sub.next()), "<pending>");
}

#[test]
fn a_terminated_subscription_drains_and_then_ends() {
    let mut sub = Subscription::new("sub1");
    assert!(sub.push(inserted("a")));
    assert!(sub.push(inserted("b")));
    sub.terminate();
    assert!(!sub.is_open());
    assert!(!sub.push(inserted("late")));
    assert_eq!(sub.queued(), 2);
    assert_eq!(name_of(sub.next()), "a");
    assert_eq!(name_of(sub.next()), "b");
    assert_eq!(name_of(sub.next()), "<ended>");
    assert_eq!(name_of(sub.next()), "<ended>");
}

#[test]
fn the_table_routes_events_by_identifier() {
    let mut table = SubscriptionTable::new();
    assert!(table.open("s1"));
    assert!(table.open("s2"));
    assert!(!table.open("s1"));
    assert_eq!(table.len(), 2);
    assert!(table.push("s2", inserted("for two")));
    assert!(table.push("s1", inserted("for one")));
    assert!(table.push("s2", inserted("for two again")));
    assert!(!table.push("s3", inserted("for nobody")));
    assert_eq!(name_of(table.next("s1")), "for one");
    assert_eq!(name_of(table.next("s1")), "<pending>");
    assert_eq!(name_of(table.next("s2")), "for two");
    assert_eq!(name_of(table.next("s2")), "for two again");
    assert_eq!(name_of(table.next("s3")), "<ended>");
}

#[test]
fn terminating_and_releasing() {
    let mut table = SubscriptionTable::new();
    assert!(table.open("s1"));
    assert!(table.open("s2"));
    assert!(table.push("s1", inserted("kept")));
    assert!(table.terminate("s1"));
    assert!(!table.terminate("s9"));
    assert!(!table.push("s1", inserted("late")));
    assert!(table.contains("s1"));
    assert_eq!(name_of(table.next("s1")), "kept");
    assert_eq!(name_of(table.next("s1")), "<ended>");
    assert!(table.release("s1"));
    assert!(!table.release("s1"));
    assert!(!table.contains("s1"));
    assert_eq!(table.len(), 1);
    assert_eq!(name_of(table.next("s2")), "<pending>");
}

#[test]
fn closing_all_ends_every_subscription() {
    let mut table = SubscriptionTable::new();
    assert!(table.open("s1"));
    assert!(table.open("s2"));
    assert!(table.push("s2", inserted("queued")));
    table.close_all();
    assert_eq!(name_of(table.next("s1")), "<ended>");
    assert_eq!(name_of(table.next("s2")), "queued");
    assert_eq!(name_of(table.next("s2")), "<ended>");
    assert!(!table.push("s1", inserted("late")));
}
