use vstd::prelude::*;
use std::time::Instant;

use crate::timing::{clock_now, elapsed_since, TimeSpan};

verus! {

broadcast use vstd::string::to_string_from_display_ensures_for_str;

/// A manual stopwatch that can be re-used and is manually started and stopped
/// Used for timing individual peices of code
pub struct Stopwatch {
    text: Option<String>,
    time: Instant,
}

impl View for Stopwatch {
    /// The text the stopwatch reports its time under, if any.
    type V = Option<Seq<char>>;

    closed spec fn view(&self) -> Option<Seq<char>> {
        match self.text {
            Some(s) => Some(s@),
            None => None,
        }
    }
}

impl Stopwatch {
    /// A blank stopwatch with no text
    pub fn new() -> (result: Stopwatch)
        ensures
            result@ == None::<Seq<char>>,
    {
        Stopwatch { text: None, time: clock_now() }
    }

    /// Restarts the stopwatch from now, under the given text.
    pub fn start(&mut self, text: Option<&str>)
        ensures
            final(self)@ == match text {
                Some(s) => Some(s@),
                None => None::<Seq<char>>,
            },
    {
        self.text = match text {
            Some(x) => Some(x.to_string()),
            None => None,
        };
        self.time = clock_now();
    }

    /// The text given at the last start, if any.
    pub fn text(&self) -> (result: Option<&str>)
        ensures
            match result {
                Some(s) => self@ == Some(s@),
                None => self@ == None::<Seq<char>>,
            },
    {
        match &self.text {
            Some(s) => Some(s.as_str()),
            None => None,
        }
    }

    /// The time since the stopwatch was last started.
    pub fn elapsed(&self) -> TimeSpan {
        elapsed_since(&self.time)
    }
}

} // verus!
