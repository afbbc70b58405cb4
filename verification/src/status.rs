//! The transient status message shown in the message bar: a text with the
//! time it was set. It counts as visible for five seconds; reading it after
//! that clears it.

use vstd::prelude::*;

verus! {

/// How long a status message stays visible, in milliseconds.
pub const MESSAGE_LIFETIME_MS: u64 = 5000;

/// A one-line notice and the moment it was set.
pub struct StatusMessage {
    pub text: Option<Vec<char>>,
    pub set_time: Option<u64>,
}

impl StatusMessage {
    /// The message counts as visible at `now` when it was set no more than
    /// five seconds earlier.
    pub open spec fn visible(self, now: u64) -> bool {
        match self.set_time {
            Some(t) => self.text is Some && t <= now && now - t <= MESSAGE_LIFETIME_MS,
            None => false,
        }
    }

    /// A fresh message holder showing `initial` from time `now` on.
    pub fn start(initial: Vec<char>, now: u64) -> (s: StatusMessage)
        ensures
            s.text == Some(initial),
            s.set_time == Some(now),
    {
        StatusMessage { text: Some(initial), set_time: Some(now) }
    }

    /// Replaces the message and stamps it with `now`.
    pub fn set_message(&mut self, message: Vec<char>, now: u64)
        ensures
            final(self).text == Some(message),
            final(self).set_time == Some(now),
    {
        self.text = Some(message);
        self.set_time = Some(now);
    }

    /// Reports whether the message is still visible at `now`; an expired
    /// message is cleared by the read.
    pub fn message(&mut self, now: u64) -> (present: bool)
        ensures
            present == old(self).visible(now),
            present ==> *final(self) == *old(self),
            !present ==> final(self).text is None && final(self).set_time is None,
    {
        let live: bool = match self.set_time {
            Some(t) => self.text.is_some() && t <= now && now - t <= MESSAGE_LIFETIME_MS,
            None => false,
        };
        if !live {
            self.text = None;
            self.set_time = None;
        }
        live
    }
}

} // verus!
