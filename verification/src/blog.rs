//! A blog post workflow encoded in the type system: a draft collects text,
//! review turns it into a pending post, approval publishes it. Invalid
//! transitions are unrepresentable, and the text is proved to survive each
//! transition unchanged.

use vstd::prelude::*;

verus! {

/// A published post whose content is visible.
pub struct Post {
    content: String,
}

/// A draft: text can still be added, nothing is visible yet.
pub struct DraftPost {
    content: String,
}

/// A post waiting for review: frozen, not yet visible.
pub struct PendingReviewPost {
    content: String,
}

impl View for Post {
    type V = Seq<char>;

    closed spec fn view(&self) -> Seq<char> {
        self.content@
    }
}

impl View for DraftPost {
    type V = Seq<char>;

    closed spec fn view(&self) -> Seq<char> {
        self.content@
    }
}

impl View for PendingReviewPost {
    type V = Seq<char>;

    closed spec fn view(&self) -> Seq<char> {
        self.content@
    }
}

impl Post {
    /// Starts a new, empty draft.
    pub fn new() -> (draft: DraftPost)
        ensures
            draft@ == Seq::<char>::empty(),
    {
        DraftPost { content: String::new() }
    }

    /// The published content.
    pub fn content(&self) -> (r: &str)
        ensures
            r@ == self@,
    {
        self.content.as_str()
    }
}

impl DraftPost {
    /// Appends text to the draft.
    pub fn add_text(&mut self, text: &str)
        ensures
            final(self)@ == old(self)@ + text@,
    {
        self.content.append(text);
    }

    /// Sends the draft off for review; the text is frozen as it stands.
    pub fn request_review(self) -> (r: PendingReviewPost)
        ensures
            r@ == self@,
    {
        PendingReviewPost { content: self.content }
    }
}

impl PendingReviewPost {
    /// Approves the pending post, publishing its text unchanged.
    pub fn approve(self) -> (r: Post)
        ensures
            r@ == self@,
    {
        Post { content: self.content }
    }
}

/// The object-oriented state pattern keeps each state's rules in one state
/// object behind a common interface; its trade-off is that the states know
/// about each other, and each new state touches several of them. The
/// typestate encoding below this function avoids that by making each state
/// its own type, so an invalid transition fails to compile at all.
pub fn implementing_an_oo_design_pattern() {
}

/// Walks a post through draft, review, and approval, and proves the
/// published content is exactly the text that was added to the draft.
pub fn encoding_states_and_behavior_as_types() {
    let mut post = Post::new();

    post.add_text("I ate a salad for lunch today");

    let post = post.request_review();
    let post = post.approve();

    let published = post.content();
    proof {
        assert(published@ =~= "I ate a salad for lunch today"@);
    }
}

} // verus!
