//! A quota tracker that notifies a messenger as the tracked value approaches
//! its maximum. The messenger is any collaborator implementing
//! [`Messenger`]; which notice is sent at which ratio is fixed by
//! [`spec_quota_notice`] and proved of the implementation.

use vstd::prelude::*;

verus! {

/// A collaborator that can deliver a text message.
pub trait Messenger {
    /// Delivers one message.
    fn send(&self, msg: &str);
}

/// The notice a value/max ratio earns: the over-quota error at 100% or
/// more, the ten-percent-left notice at 90%, the warning at 75%, nothing
/// below that. A zero maximum puts every positive value over quota, while
/// zero of zero earns no notice at all (the ratio is indeterminate).
pub open spec fn spec_quota_notice(value: int, max: int) -> Option<Seq<char>> {
    if value == 0 && max == 0 {
        None
    } else if value >= max {
        Some("Error: You are over your quota!"@)
    } else if 10 * value >= 9 * max {
        Some("You are within 10% left of your available quota"@)
    } else if 4 * value >= 3 * max {
        Some("Warning: You've used up over 75% of your quota"@)
    } else {
        None
    }
}

/// Picks the notice that `value` of `max` earns, exactly as
/// [`spec_quota_notice`] says.
fn quota_notice(value: usize, max: usize) -> (r: Option<&'static str>)
    ensures
        r is None <==> spec_quota_notice(value as int, max as int) is None,
        r matches Some(m) ==> spec_quota_notice(value as int, max as int) == Some(m@),
{
    if value == 0 && max == 0 {
        None
    } else if value >= max {
        Some("Error: You are over your quota!")
    } else if (value as u128) * 10 >= (max as u128) * 9 {
        Some("You are within 10% left of your available quota")
    } else if (value as u128) * 4 >= (max as u128) * 3 {
        Some("Warning: You've used up over 75% of your quota")
    } else {
        None
    }
}

/// Tracks a value against a maximum, telling its messenger when the value
/// crosses the warning thresholds.
pub struct LimitTracker<'a, T: Messenger> {
    messenger: &'a T,
    value: usize,
    max: usize,
}

impl<'a, T: Messenger> LimitTracker<'a, T> {
    /// The value currently tracked.
    pub closed spec fn spec_value(&self) -> usize {
        self.value
    }

    /// The maximum the value is tracked against.
    pub closed spec fn spec_max(&self) -> usize {
        self.max
    }

    /// A tracker starting at zero.
    pub fn new(messenger: &T, max: usize) -> (r: LimitTracker<T>)
        ensures
            r.spec_value() == 0,
            r.spec_max() == max,
    {
        LimitTracker { messenger, value: 0, max }
    }

    /// Records a new value and sends the notice that the new ratio earns —
    /// one message at most, none while the value stays under 75% of the
    /// maximum.
    pub fn set_value(&mut self, value: usize)
        ensures
            final(self).spec_value() == value,
            final(self).spec_max() == old(self).spec_max(),
    {
        self.value = value;
        match quota_notice(value, self.max) {
            Some(msg) => self.messenger.send(msg),
            None => (),
        }
    }
}

} // verus!
