use std::cell::RefCell;

use rust_book::limits::LimitTracker;
use rust_book::limits::Messenger;

struct MockMessenger {
    sent_messages: RefCell<Vec<String>>,
}

impl MockMessenger {
    fn new() -> MockMessenger {
        MockMessenger {
            sent_messages: RefCell::new(vec![]),
        }
    }
}

impl Messenger for MockMessenger {
    fn send(&self, message: &str) {
        self.sent_messages.borrow_mut().push(String::from(message));
    }
}

#[test]
fn it_sends_an_over_75_percent_warning_message() {
    let mock_messenger = MockMessenger::new();
    let mut limit_tracker = LimitTracker::new(&mock_messenger, 100);

    limit_tracker.set_value(80);

    assert_eq!(mock_messenger.sent_messages.borrow().len(), 1);
}

#[test]
fn quiet_below_three_quarters() {
    let mock = MockMessenger::new();
    let mut tracker = LimitTracker::new(&mock, 100);

    tracker.set_value(74);

    assert_eq!(mock.sent_messages.borrow().len(), 0);
}

#[test]
fn warns_exactly_at_three_quarters() {
    let mock = MockMessenger::new();
    let mut tracker = LimitTracker::new(&mock, 100);

    tracker.set_value(75);

    assert_eq!(
        vec![String::from("Warning: You've used up over 75% of your quota")],
        *mock.sent_messages.borrow()
    );
}

#[test]
fn notifies_at_ninety_percent() {
    let mock = MockMessenger::new();
    let mut tracker = LimitTracker::new(&mock, 100);

    tracker.set_value(90);

    assert_eq!(
        vec![String::from("You are within 10% left of your available quota")],
        *mock.sent_messages.borrow()
    );
}

#[test]
fn errors_at_and_over_the_quota() {
    let mock = MockMessenger::new();
    let mut tracker = LimitTracker::new(&mock, 100);

    tracker.set_value(100);
    tracker.set_value(150);

    assert_eq!(
        vec![
            String::from("Error: You are over your quota!"),
            String::from("Error: You are over your quota!"),
        ],
        *mock.sent_messages.borrow()
    );
}

#[test]
fn zero_of_zero_stays_silent() {
    let mock = MockMessenger::new();
    let mut tracker = LimitTracker::new(&mock, 0);

    tracker.set_value(0);
    assert_eq!(mock.sent_messages.borrow().len(), 0);

    tracker.set_value(1);
    assert_eq!(
        vec![String::from("Error: You are over your quota!")],
        *mock.sent_messages.borrow()
    );
}
