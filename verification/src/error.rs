use vstd::prelude::*;

verus! {

/// What can go wrong while opening the runtime or calling into it.
#[derive(Debug)]
pub enum Error {
    /// Another owner of the runtime is alive.
    Busy,
    /// The runtime or one of its native units could not be set up.
    Initialization(String),
    /// The JavaScript side threw; the payload is its message.
    Javascript(String),
    /// The caller handed in something the native side cannot take.
    InvalidInput(String),
    /// The native side handed back something malformed.
    InvalidOutput(String),
}

/// The text shown for [`Error::Busy`].
pub open spec fn busy_text() -> Seq<char> {
    "A compiled YouTube runtime is already open"@
}

impl Error {
    /// The human-readable text of an error, as `Display` would show it.
    pub open spec fn text(&self) -> Seq<char> {
        match self {
            Error::Busy => busy_text(),
            Error::Initialization(m) => m@,
            Error::Javascript(m) => m@,
            Error::InvalidInput(m) => m@,
            Error::InvalidOutput(m) => m@,
        }
    }

    /// Renders the error as text (the role `Display` plays for this type).
    pub fn message(&self) -> (r: String)
        ensures
            r@ == self.text(),
    {
        match self {
            Error::Busy => String::from_str("A compiled YouTube runtime is already open"),
            Error::Initialization(m) => m.clone(),
            Error::Javascript(m) => m.clone(),
            Error::InvalidInput(m) => m.clone(),
            Error::InvalidOutput(m) => m.clone(),
        }
    }
}

} // verus!
