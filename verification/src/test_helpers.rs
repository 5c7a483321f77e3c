//! Helpers for use in examples and tests

use display_interface::DisplayError;
use vstd::prelude::*;

use crate::interface::{DisplayInterface, Handed, StepView};

verus! {

/// An interface that accepts every transfer and sends nothing anywhere.
#[derive(Clone, Copy)]
pub struct StubInterface {
    sent: Ghost<Seq<Handed>>,
}

impl StubInterface {
    /// A stub that has received nothing yet.
    pub fn new() -> (r: Self)
        ensures
            r.sent() == Seq::<Handed>::empty(),
    {
        StubInterface { sent: Ghost(Seq::empty()) }
    }
}

impl DisplayInterface for StubInterface {
    closed spec fn sent(&self) -> Seq<Handed> {
        self.sent@
    }

    fn send_commands(&mut self, cmd: &[u8]) -> (r: Result<(), DisplayError>)
        ensures
            r is Ok,
    {
        self.sent = Ghost(self.sent@.push((StepView::Commands(cmd@), Ok(()))));
        Ok(())
    }

    fn send_data(&mut self, buf: &[u8]) -> (r: Result<(), DisplayError>)
        ensures
            r is Ok,
    {
        self.sent = Ghost(self.sent@.push((StepView::Data(buf@), Ok(()))));
        Ok(())
    }
}

} // verus!
