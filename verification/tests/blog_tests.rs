use rust_book::async_notes::Chp_1_1_Why_Async;
use rust_book::async_notes::Chp_1_2_State_of_Async_Rust;
use rust_book::blog::encoding_states_and_behavior_as_types;
use rust_book::blog::implementing_an_oo_design_pattern;
use rust_book::blog::Post;
use rust_book::closures::Cacher;
use rust_book::demos::cargo_chapter14;
use rust_book::demos::defining_and_init_structs;
use rust_book::demos::enums;
use rust_book::restaurant::eat_at_restaurant;
use rust_book::restaurant::hosting::add_to_waitlist;
use rust_book::restaurant::Breakfast;

#[test]
fn post_content_survives_review_and_approval() {
    let mut post = Post::new();

    post.add_text("I ate a salad for lunch today");

    let post = post.request_review();
    let post = post.approve();

    assert_eq!("I ate a salad for lunch today", post.content());
}

#[test]
fn a_new_draft_is_empty() {
    let draft = Post::new();
    let published = draft.request_review().approve();
    assert_eq!("", published.content());
}

#[test]
fn text_accumulates_in_the_draft() {
    let mut draft = Post::new();
    draft.add_text("first");
    draft.add_text(" second");
    let published = draft.request_review().approve();
    assert_eq!("first second", published.content());
}

#[test]
fn demo_walkthroughs_run() {
    implementing_an_oo_design_pattern();
    encoding_states_and_behavior_as_types();
    defining_and_init_structs();
    enums();
    cargo_chapter14();
    eat_at_restaurant();
    add_to_waitlist();
    Chp_1_1_Why_Async();
    Chp_1_2_State_of_Async_Rust();
}

#[test]
fn summer_breakfast_takes_the_guests_toast() {
    let meal = Breakfast::summer("Rye");
    assert_eq!("Rye", meal.toast);
}

#[test]
fn cacher_runs_its_calculation_once() {
    let mut cacher = Cacher::new(|a| a + 1);
    assert_eq!(2, cacher.value(1));
    // the first result is cached; a new argument does not rerun it
    assert_eq!(2, cacher.value(5));
}
