//! The failure taxonomy of the DHT state slice.

use vstd::prelude::*;

verus! {

/// An error surfaced by the state slice.
///
/// - `NotImplemented` marks a mutation path that is intentionally unfinished;
///   it is a distinct, named outcome so callers can tell "feature pending"
///   from "operation failed" and from a silent no-op.
/// - `StorageError` wraps a failure reported by one of the storage backends,
///   carrying the backend's message verbatim; this layer performs no retry
///   and no translation.
/// - `NotFound` is reserved for a referenced address being absent when an
///   operation requires its presence.
#[derive(Debug)]
pub enum DhtError {
    NotImplemented,
    StorageError(String),
    NotFound,
}

/// Mathematical image of a `DhtError`: the same three kinds, with the
/// storage message abstracted to its character sequence.
#[verifier::ext_equal]
pub enum DhtErrorView {
    NotImplemented,
    StorageError(Seq<char>),
    NotFound,
}

impl View for DhtError {
    type V = DhtErrorView;

    closed spec fn view(&self) -> DhtErrorView {
        match self {
            DhtError::NotImplemented => DhtErrorView::NotImplemented,
            DhtError::StorageError(msg) => DhtErrorView::StorageError(msg@),
            DhtError::NotFound => DhtErrorView::NotFound,
        }
    }
}

impl Clone for DhtError {
    fn clone(&self) -> (r: Self)
        ensures
            r@ == self@,
    {
        match self {
            DhtError::NotImplemented => DhtError::NotImplemented,
            DhtError::StorageError(msg) => DhtError::StorageError(msg.clone()),
            DhtError::NotFound => DhtError::NotFound,
        }
    }
}

impl PartialEq for DhtError {
    fn eq(&self, other: &DhtError) -> bool {
        match (self, other) {
            (DhtError::NotImplemented, DhtError::NotImplemented) => true,
            (DhtError::StorageError(a), DhtError::StorageError(b)) => a.eq(b),
            (DhtError::NotFound, DhtError::NotFound) => true,
            _ => false,
        }
    }
}

impl vstd::std_specs::cmp::PartialEqSpecImpl for DhtError {
    open spec fn obeys_eq_spec() -> bool {
        true
    }

    open spec fn eq_spec(&self, other: &DhtError) -> bool {
        self@ == other@
    }
}

impl DhtError {
    /// A short human-readable description of the error; for `StorageError`
    /// it is the backend's message itself.
    pub open spec fn message_spec(&self) -> Seq<char> {
        match self@ {
            DhtErrorView::NotImplemented => "not implemented"@,
            DhtErrorView::StorageError(msg) => msg,
            DhtErrorView::NotFound => "not found"@,
        }
    }

    /// Renders the error as text for callers that report it.
    pub fn message(&self) -> (r: String)
        ensures
            r@ == self.message_spec(),
    {
        match self {
            DhtError::NotImplemented => String::from_str("not implemented"),
            DhtError::StorageError(msg) => msg.clone(),
            DhtError::NotFound => String::from_str("not found"),
        }
    }
}

} // verus!
