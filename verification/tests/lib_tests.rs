use rust_book::add_two;
use rust_book::add_two_other;
use rust_book::greeting;
use rust_book::internal_adder;
use rust_book::mix;
use rust_book::Guess;
use rust_book::PrimaryColor;
use rust_book::Rectangle;
use rust_book::SecondaryColor;

#[test]
fn exploration() {
    assert_eq!(2 + 2, 4);
}

#[test]
fn it_works() {
    assert_eq!(2 + 2, 4);
}

#[test]
fn larger_can_hold_smaller() {
    let larger = Rectangle { width: 8, height: 7 };
    let smaller = Rectangle { width: 5, height: 1 };

    assert!(larger.can_hold(&smaller));
}

#[test]
fn smaller_cannot_hold_larger() {
    let larger = Rectangle { width: 8, height: 7 };
    let smaller = Rectangle { width: 5, height: 1 };

    assert!(!smaller.can_hold(&larger));
}

#[test]
fn lib_it_adds_two() {
    assert_eq!(Ok(4), add_two(2));
}

#[test]
fn greeting_contains_name() {
    let result = greeting("Carol");
    assert!(
        result.contains("Carol"),
        "Greeting did not contain name, value was '{}'",
        result
    );
}

#[test]
fn it_works2() -> Result<(), String> {
    if 2 + 2 == 4 {
        Ok(())
    } else {
        Err(String::from("two plus two != 4"))
    }
}

#[test]
fn add_to_err() -> Result<(), String> {
    if add_two(2)? == 4 {
        Ok(())
    } else {
        Err(String::from("Broken"))
    }
}

#[test]
fn internal() {
    assert_eq!(4, internal_adder(2, 2));
}

#[test]
fn integration_test_it_adds_two() {
    let greet = greeting("David");
    let result = format!("{} {}", greet, add_two_other(3));
    assert_eq!("Hello! David 5".to_string(), result);

    assert_eq!(4, add_two_other(2));
}

#[test]
fn guess_accepts_the_whole_range() {
    let _low = Guess::new(1);
    let _mid = Guess::new(50);
    let _high = Guess::new(100);
}

#[test]
fn mixing_always_gives_orange() {
    assert_eq!(SecondaryColor::Orange, mix(PrimaryColor::Red, PrimaryColor::Yellow));
    assert_eq!(SecondaryColor::Orange, mix(PrimaryColor::Blue, PrimaryColor::Blue));
}

#[test]
fn greeting_is_salutation_plus_name() {
    assert_eq!("Hello! ", greeting(""));
    assert_eq!("Hello! Ada", greeting("Ada"));
}

#[test]
fn adders_agree_on_negatives() {
    assert_eq!(0, add_two_other(-2));
    assert_eq!(-5, internal_adder(-2, -3));
}
