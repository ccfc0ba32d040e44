use vstd::prelude::*;

verus! {

/// Why reading an [`ErrorBody`] failed.
#[derive(Debug)]
pub enum ReadFailure<E> {
    /// The error that compression ran into, handed out on the first read.
    Captured(E),
    /// Every read after the first one.
    AlreadyRead,
}

/// A response body that produces no bytes: its first read fails with the
/// captured error, each later read with [`ReadFailure::AlreadyRead`].
#[derive(Debug)]
pub struct ErrorBody<E> {
    pub error: Option<E>,
}

/// The failure a read reports, and the error left in the body afterwards.
pub open spec fn read_step<E>(state: Option<E>) -> (ReadFailure<E>, Option<E>) {
    match state {
        Some(e) => (ReadFailure::Captured(e), None),
        None => (ReadFailure::AlreadyRead, None),
    }
}

impl<E> ErrorBody<E> {
    pub fn new(error: E) -> (r: ErrorBody<E>)
        ensures
            r.error == Some(error),
    {
        ErrorBody { error: Some(error) }
    }

    /// One read attempt; it always fails.
    pub fn read(&mut self) -> (r: ReadFailure<E>)
        ensures
            (r, final(self).error) == read_step(old(self).error),
    {
        let taken = self.error.take();
        match taken {
            Some(e) => ReadFailure::Captured(e),
            None => ReadFailure::AlreadyRead,
        }
    }
}

/// A body built from an error yields that error on its first read and the
/// distinct already-read failure on the second and on every read after.
pub proof fn lemma_error_delivered_once<E>(e: E)
    ensures
        read_step(Some(e)).0 == ReadFailure::Captured(e),
        read_step(read_step(Some(e)).1).0 == ReadFailure::<E>::AlreadyRead,
        forall|s: Option<E>| s is None ==> #[trigger] read_step(s) == (ReadFailure::<E>::AlreadyRead, s),
{
}

} // verus!
