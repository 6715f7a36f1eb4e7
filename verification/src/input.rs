//! A snapshot of the sixteen keys, one named field per key.

use vstd::prelude::*;

verus! {

/// Which of the sixteen keys `0..F` are down.
#[derive(Clone, Copy, Debug, PartialEq, Eq, Structural)]
pub struct Input {
    pub zero: bool,
    pub one: bool,
    pub two: bool,
    pub three: bool,
    pub four: bool,
    pub five: bool,
    pub six: bool,
    pub seven: bool,
    pub eight: bool,
    pub nine: bool,
    pub a: bool,
    pub b: bool,
    pub c: bool,
    pub d: bool,
    pub e: bool,
    pub f: bool,
}

impl View for Input {
    type V = Seq<bool>;

    /// The keys in the order of their numbers, key 0 first.
    open spec fn view(&self) -> Seq<bool> {
        seq![
            self.zero,
            self.one,
            self.two,
            self.three,
            self.four,
            self.five,
            self.six,
            self.seven,
            self.eight,
            self.nine,
            self.a,
            self.b,
            self.c,
            self.d,
            self.e,
            self.f,
        ]
    }
}

impl Input {
    /// A snapshot with no key down.
    pub fn new() -> (input: Input)
        ensures
            input@ == Seq::new(16, |key: int| false),
    {
        let input = Input {
            zero: false,
            one: false,
            two: false,
            three: false,
            four: false,
            five: false,
            six: false,
            seven: false,
            eight: false,
            nine: false,
            a: false,
            b: false,
            c: false,
            d: false,
            e: false,
            f: false,
        };
        assert(input@ =~= Seq::new(16, |key: int| false));
        input
    }

    /// Polls for key changes. A snapshot has no key source of its own: its
    /// fields are written by the host, and a poll leaves every one of them as
    /// it is.
    pub fn check_inputs(&mut self)
        ensures
            *final(self) == *old(self),
    {
    }
}

} // verus!
