//! The direct `/dev/uinput` backend of the real-input tier.
//!
//! It is not implemented: every operation fails. The backend selection never
//! chooses it, and it stands here so that the dispatch over backends is total.
use vstd::prelude::*;

verus! {

/// The failure of an operation that is not implemented.
#[derive(Debug, Clone, Copy, PartialEq, Eq)]
pub struct NotImplemented;

impl NotImplemented {
    /// The failure in words.
    pub open spec fn words(self) -> Seq<char> {
        "direct /dev/uinput injection is not yet implemented; start ydotoold to use the real-input tier (shuv1337/cua#18 follow-up)"@
    }

    /// The failure in words.
    pub fn message(&self) -> (r: String)
        ensures
            r@ == self.words(),
    {
        "direct /dev/uinput injection is not yet implemented; start ydotoold to use the real-input tier (shuv1337/cua#18 follow-up)".to_owned()
    }
}

/// Moves the pointer to a device position: not implemented.
pub fn move_abs(_x: i32, _y: i32) -> (r: Result<(), NotImplemented>)
    ensures
        r == Err::<(), NotImplemented>(NotImplemented),
{
    Err(NotImplemented)
}

/// Clicks a button: not implemented.
pub fn click(_button: u8) -> (r: Result<(), NotImplemented>)
    ensures
        r == Err::<(), NotImplemented>(NotImplemented),
{
    Err(NotImplemented)
}

/// Types a text: not implemented.
pub fn type_text(_text: &str) -> (r: Result<(), NotImplemented>)
    ensures
        r == Err::<(), NotImplemented>(NotImplemented),
{
    Err(NotImplemented)
}

/// Presses a key: not implemented.
pub fn key(_main: u16, _modifiers: &[u16]) -> (r: Result<(), NotImplemented>)
    ensures
        r == Err::<(), NotImplemented>(NotImplemented),
{
    Err(NotImplemented)
}

} // verus!
