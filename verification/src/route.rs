use vstd::prelude::*;

pub mod auth;
pub mod event;
pub mod message;
pub mod rtc;
pub mod state;
pub mod upload;

verus! {

/// The answer to a ping.
pub fn ping() -> (body: &'static str)
    ensures
        body@ == "PONG"@,
{
    "PONG"
}

} // verus!
