use vstd::prelude::*;
use std::time::Instant;

use crate::timing::{clock_now, elapsed_since, TimeSpan};

verus! {

broadcast use vstd::string::to_string_from_display_ensures_for_str;

/// A lazy Start-Stop stopwatch: it starts when it is made, and its owner reports
/// the time under its text once it goes out of scope.
/// Should only be used to time whole functions that are not run repeatedly
pub struct Dropwatch {
    text: String,
    time: Instant,
}

impl View for Dropwatch {
    /// The text the time is reported under.
    type V = Seq<char>;

    closed spec fn view(&self) -> Seq<char> {
        self.text@
    }
}

impl Dropwatch {
    pub fn new(text: &str) -> (result: Self)
        ensures
            result@ == text@,
    {
        Dropwatch { text: text.to_string(), time: clock_now() }
    }

    pub fn text(&self) -> (result: &str)
        ensures
            result@ == self@,
    {
        self.text.as_str()
    }

    /// The time since the watch was made.
    pub fn elapsed(&self) -> TimeSpan {
        elapsed_since(&self.time)
    }
}

} // verus!
