//! A blocking stream over any underlying stream.
use vstd::prelude::*;

verus! {

/// A blocking stream wrapping `T`.
pub struct Bstream<T> {
    inner: T,
}

impl<T> Bstream<T> {
    /// The wrapped stream.
    pub closed spec fn stream(&self) -> T {
        self.inner
    }

    /// Wraps `stream`.
    pub fn new(stream: T) -> (b: Bstream<T>)
        ensures
            b.stream() == stream,
    {
        Bstream { inner: stream }
    }

    /// Gives back the wrapped stream.
    pub fn into_inner(self) -> (s: T)
        ensures
            s == self.stream(),
    {
        self.inner
    }
}

} // verus!
