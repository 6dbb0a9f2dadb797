//! Small construction demonstrations: structs with defaults and updates,
//! enums with data-carrying variants, and a one-line adding helper.

use vstd::prelude::*;

verus! {

/// An account holder.
#[allow(dead_code)]
struct User {
    username: String,
    email: String,
    sign_in_count: u64,
    active: bool,
}

/// A fresh, active account for the given addresses.
fn build_default_user(email: String, username: String) -> (u: User)
    ensures
        u.email == email,
        u.username == username,
        u.active == true,
        u.sign_in_count == 1,
{
    User { email, username, active: true, sign_in_count: 1 }
}

#[allow(dead_code)]
struct Color(i32, i32, i32);

#[allow(dead_code)]
struct Point(i32, i32, i32);

/// Builds users directly, by helper, field by field, and from one another,
/// alongside tuple structs that share a shape but not a type.
pub fn defining_and_init_structs() {
    let mut user1 = build_default_user(
        String::from_str("someone@example.com"),
        String::from_str("someusernamehere"),
    );
    user1.email = String::from_str("anotheremail");
    proof {
        assert(user1.active);
        assert(user1.sign_in_count == 1);
    }

    let user2 = User {
        email: String::from_str("another@exam2ple.com"),
        username: String::from_str("anotherusername5647"),
        active: user1.active,
        sign_in_count: user1.sign_in_count,
    };
    proof {
        assert(user2.active == user1.active);
    }
    let _ = user2;

    let black = Color(0, 0, 0);
    let origin = Point(0, 0, 0);
    let _ = black;
    let _ = origin;
}

/// The version of an IP address.
#[allow(dead_code)]
enum IpAddrKind {
    V4,
    V6,
}

/// An address kept beside its version.
#[allow(dead_code)]
struct IpAddr {
    kind: IpAddrKind,
    address: String,
}

/// An address carried inside its version's variant.
#[allow(dead_code)]
enum IpAddrEnum {
    V4(u8, u8, u8, u8),
    V6(String),
}

/// The kinds of message a client might send.
#[allow(dead_code)]
enum Message {
    Quit,
    Move { x: i32, y: i32 },
    Write(String),
    ChangeColor(i32, i32, i32),
}

impl Message {
    /// Handles the message; nothing is implemented yet.
    fn call(&self) {
    }
}

/// Builds enum values whose variants carry their own data, and a few
/// `Option` values beside them.
pub fn enums() {
    let home = IpAddr { address: String::from_str("127.0.0.1"), kind: IpAddrKind::V4 };
    let _ = home;

    let home = IpAddrEnum::V4(127, 0, 0, 1);
    let loopback = IpAddrEnum::V6(String::from_str("::1"));
    let _ = home;
    let _ = loopback;

    let m = Message::Write(String::from_str("hello"));
    m.call();

    let some_number = Some(5u32);
    let some_string = Some("a string");
    let absent_number: Option<i32> = None;
    proof {
        assert(some_number == Some(5u32));
        assert(some_string is Some);
        assert(absent_number is None);
    }
}

/// Adds one to the number given.
fn add_one(x: i32) -> (r: i32)
    requires
        x < i32::MAX,
    ensures
        r == x + 1,
{
    x + 1
}

/// Exercises the documented adding helper on its doc example.
pub fn cargo_chapter14() {
    let arg: i32 = 5;
    let answer = add_one(arg);
    proof {
        assert(answer == 6);
    }
}

} // verus!
