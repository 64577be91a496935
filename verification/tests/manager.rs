use aplo_node::manager::{
    stop_message, Delivery, ManagerAction, ManagerMessage, Received, Subscriber,
};

fn stop() -> Received<u32> {
    Received::Message(ManagerMessage::Action(ManagerAction::Stop))
}

fn data(value: u32) -> Received<u32> {
    Received::Message(ManagerMessage::Message(value))
}

#[test]
fn the_stop_message_is_the_stop_action() {
    assert_eq!(stop_message::<u32>(), ManagerMessage::Action(ManagerAction::Stop));
    assert_eq!(stop_message::<String>(), ManagerMessage::Action(ManagerAction::Stop));
}

#[test]
fn a_new_subscriber_has_not_ended() {
    assert!(!Subscriber::new().is_ended());
}

#[test]
fn payloads_are_passed_on_in_order() {
    let mut subscriber = Subscriber::new();
    for value in [3u32, 1, 2] {
        assert_eq!(subscriber.take(data(value)), Delivery::Message(value));
        assert!(!subscriber.is_ended());
    }
}

#[test]
fn lost_messages_are_reported_and_the_subscriber_goes_on() {
    let mut subscriber = Subscriber::new();
    assert_eq!(subscriber.take(data(1)), Delivery::Message(1));
    assert_eq!(subscriber.take(Received::<u32>::Lagged(17)), Delivery::Missed(17));
    assert!(!subscriber.is_ended());
    assert_eq!(subscriber.take(data(19)), Delivery::Message(19));
    assert_eq!(subscriber.take(Received::<u32>::Lagged(u64::MAX)), Delivery::Missed(u64::MAX));
    assert_eq!(subscriber.take(Received::<u32>::Lagged(0)), Delivery::Missed(0));
    assert!(!subscriber.is_ended());
}

#[test]
fn the_stop_message_ends_the_subscriber() {
    let mut subscriber = Subscriber::new();
    assert_eq!(subscriber.take(data(1)), Delivery::Message(1));
    assert_eq!(subscriber.take(stop()), Delivery::Stop);
    assert!(subscriber.is_ended());
}

#[test]
fn a_closed_bus_ends_the_subscriber() {
    let mut subscriber = Subscriber::new();
    assert_eq!(subscriber.take(Received::<u32>::Closed), Delivery::Closed);
    assert!(subscriber.is_ended());
    assert_eq!(subscriber.take(stop()), Delivery::Ended);
}

#[test]
fn nothing_is_passed_on_after_the_end() {
    let mut subscriber = Subscriber::new();
    assert_eq!(subscriber.take(stop()), Delivery::Stop);
    for received in [data(5), Received::Lagged(2), stop(), Received::Closed] {
        assert_eq!(subscriber.take(received), Delivery::Ended);
        assert!(subscriber.is_ended());
    }
}

#[test]
fn stop_is_seen_exactly_once_however_much_was_in_flight() {
    for in_flight in [0usize, 1, 10, 1000, 5000] {
        let mut subscriber = Subscriber::new();
        let mut stops = 0;
        let mut payloads = 0;
        let mut run: Vec<Received<u32>> = (0..in_flight).map(|i| data(i as u32)).collect();
        run.push(Received::Lagged(3));
        run.push(stop());
        run.push(data(1));
        run.push(stop());
        run.push(Received::Closed);
        for received in run {
            match subscriber.take(received) {
                Delivery::Stop => stops += 1,
                Delivery::Message(_) => payloads += 1,
                _ => {}
            }
        }
        assert_eq!(stops, 1);
        assert_eq!(payloads, in_flight);
        assert!(subscriber.is_ended());
    }
}

#[test]
fn every_subscriber_sees_the_stop_for_itself() {
    let mut first = Subscriber::new();
    let mut second = Subscriber::new();
    assert_eq!(first.take(stop()), Delivery::Stop);
    assert!(!second.is_ended());
    assert_eq!(second.take(data(4)), Delivery::Message(4));
    assert_eq!(second.take(stop()), Delivery::Stop);
    assert!(first.is_ended() && second.is_ended());
}

#[test]
fn payloads_of_any_type_travel() {
    let mut subscriber = Subscriber::new();
    let message = Received::Message(ManagerMessage::Message(String::from("peer")));
    assert_eq!(subscriber.take(message), Delivery::Message(String::from("peer")));
}
