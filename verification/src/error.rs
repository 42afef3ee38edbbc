//! Error types returned from every fallible operation.

use vstd::prelude::*;

verus! {

/// Error kinds of the channel.
///
/// The default type parameter `()` is used by the paths that reject no item (receive,
/// configuration, construction). The send path uses `CaducusErrorKind<T>`, so that the caller
/// gets the rejected item back.
#[derive(Debug, Clone, PartialEq, Eq)]
pub enum CaducusErrorKind<T = ()> {
    /// A configuration value was outside the supported range (a TTL below one millisecond or
    /// above one year).
    InvalidArgument,
    /// The wrong send variant was used for the configured channel mode. Carries the rejected
    /// item.
    InvalidPattern(T),
    /// A per-item TTL was outside the supported range, or a per-item deadline had already
    /// passed. Carries the rejected item.
    InvalidTTL(T),
    /// The channel was built without a Tokio runtime available.
    NoRuntime,
    /// A receive operation reached its deadline without producing an item.
    Timeout,
    /// The channel has been shut down. On the send path this carries the rejected item; on the
    /// receive path the parameter is `()`.
    Shutdown(T),
    /// The buffer is at capacity. Carries the rejected item.
    Full(T),
}

impl<T> CaducusErrorKind<T> {
    /// The item that an error of this kind carries.
    pub open spec fn carried(self) -> Option<T> {
        match self {
            CaducusErrorKind::Full(item) => Some(item),
            CaducusErrorKind::Shutdown(item) => Some(item),
            CaducusErrorKind::InvalidPattern(item) => Some(item),
            CaducusErrorKind::InvalidTTL(item) => Some(item),
            _ => None,
        }
    }

    /// The text that describes an error of this kind.
    pub open spec fn text(self) -> Seq<char> {
        match self {
            CaducusErrorKind::InvalidArgument => "invalid argument"@,
            CaducusErrorKind::InvalidPattern(_) => "invalid pattern"@,
            CaducusErrorKind::InvalidTTL(_) => "invalid ttl"@,
            CaducusErrorKind::NoRuntime => "no tokio runtime available"@,
            CaducusErrorKind::Timeout => "timeout"@,
            CaducusErrorKind::Shutdown(_) => "shutdown"@,
            CaducusErrorKind::Full(_) => "full"@,
        }
    }
}

/// Error type wrapping a [`CaducusErrorKind`].
#[derive(Debug, Clone, PartialEq, Eq)]
pub struct CaducusError<T = ()> {
    /// The error kind, carrying the rejected item where there is one.
    pub kind: CaducusErrorKind<T>,
}

impl<T> CaducusError<T> {
    /// Extracts the rejected item. Returns `None` for error kinds that carry no item.
    pub fn into_inner(self) -> (item: Option<T>)
        ensures
            item == self.kind.carried(),
    {
        match self.kind {
            CaducusErrorKind::Full(item) => Some(item),
            CaducusErrorKind::Shutdown(item) => Some(item),
            CaducusErrorKind::InvalidPattern(item) => Some(item),
            CaducusErrorKind::InvalidTTL(item) => Some(item),
            _ => None,
        }
    }

    /// The text shown for this error.
    pub fn message(&self) -> (text: &'static str)
        ensures
            text@ == self.kind.text(),
    {
        match &self.kind {
            CaducusErrorKind::InvalidArgument => "invalid argument",
            CaducusErrorKind::InvalidPattern(_) => "invalid pattern",
            CaducusErrorKind::InvalidTTL(_) => "invalid ttl",
            CaducusErrorKind::NoRuntime => "no tokio runtime available",
            CaducusErrorKind::Timeout => "timeout",
            CaducusErrorKind::Shutdown(_) => "shutdown",
            CaducusErrorKind::Full(_) => "full",
        }
    }
}

} // verus!
