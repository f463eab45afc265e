//! The single-use message wrapper that ties a value's absorption to its
//! later extraction.

use vstd::prelude::*;

verus! {

/// A value sent by the prover.
///
/// A message can be built from a plain value (that is how a deserialized
/// proof enters the system), but its payload can only be taken out by a
/// transcript's `recv`, which absorbs the payload in the same call.  The
/// wrapper is never copyable, so a payload cannot be used without the
/// corresponding absorption having happened.
pub struct Msg<T> {
    pub(crate) value: T,
}

impl<T> View for Msg<T> {
    type V = T;

    closed spec fn view(&self) -> T {
        self.value
    }
}

impl<T> Msg<T> {
    /// Wrap a value into a message.  This is how a deserialized payload
    /// enters the system; only `recv` can take it out again.
    pub fn new(value: T) -> (m: Msg<T>)
        ensures
            m@ == value,
    {
        Msg { value }
    }

    /// Surrender the payload.  Only the transcript's `recv` calls this, and
    /// it absorbs the payload in the same breath.
    pub(crate) fn into_inner(self) -> (r: T)
        ensures
            r == self@,
    {
        self.value
    }
}

/// A proof object: a structure whose absorbable leaves are all wrapped in
/// messages.  Absorbing such a structure is a no-op — each payload is
/// absorbed only when the interaction receives it.
pub trait Tx {
    /// Acknowledge the wrapped structure without reading any payload.
    fn read(&self);
}

impl<T> Tx for Msg<T> {
    fn read(&self)
    {
    }
}

} // verus!
