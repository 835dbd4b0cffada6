use vstd::prelude::*;

verus! {

/// A sentinel value that can be used to create unique non-overlapping custom IDs.
///
/// Replying to it always fails.
#[derive(Debug, Clone, Copy, PartialEq, Eq, Structural)]
pub struct NoneButton {
    pub key: u16,
    pub value: u16,
}

/// The error of a reply to a [`NoneButton`].
#[derive(Debug, Clone, Copy, PartialEq, Eq, Structural)]
pub struct Unused;

impl Unused {
    /// The message shown for the error.
    pub fn message(&self) -> (r: String)
        ensures
            r@ == "this button is not intended to be used"@,
    {
        String::from_str("this button is not intended to be used")
    }
}

impl NoneButton {
    /// Create a new sentinel value.
    pub fn new(key: u16, value: u16) -> (r: Self)
        ensures
            r.key == key,
            r.value == value,
    {
        Self { key, value }
    }

    /// Replies to a press of this button: always an error.
    pub fn reply(self) -> (r: Result<(), Unused>)
        ensures
            r == Err::<(), Unused>(Unused),
    {
        Err(Unused)
    }
}

} // verus!
