//! Errors of a recovery: a cause, and what was being done when it came up.
use vstd::prelude::*;

use crate::text::texts;

verus! {

/// What went wrong in the first place.
pub enum FailureCause<E> {
    /// A condition of the recovery itself does not hold.
    Message(String),
    /// An operation outside failed.
    Outside(E),
}

/// The model of what went wrong in the first place.
pub enum CauseView<E> {
    Message(Seq<char>),
    Outside(E),
}

impl<E> View for FailureCause<E> {
    type V = CauseView<E>;

    open spec fn view(&self) -> CauseView<E> {
        match self {
            FailureCause::Message(message) => CauseView::Message(message@),
            FailureCause::Outside(error) => CauseView::Outside(*error),
        }
    }
}

/// An error with what was being done when it came up, innermost first.
pub struct RecoveryError<E> {
    pub cause: FailureCause<E>,
    pub contexts: Vec<String>,
}

/// The model of an error.
pub struct RecoveryErrorView<E> {
    pub cause: CauseView<E>,
    pub contexts: Seq<Seq<char>>,
}

impl<E> View for RecoveryError<E> {
    type V = RecoveryErrorView<E>;

    open spec fn view(&self) -> RecoveryErrorView<E> {
        RecoveryErrorView { cause: self.cause@, contexts: texts(self.contexts@) }
    }
}

/// The error that only says `message`.
pub open spec fn plain_error<E>(message: Seq<char>) -> RecoveryErrorView<E> {
    RecoveryErrorView { cause: CauseView::Message(message), contexts: seq![] }
}

/// The error that an operation outside gave.
pub open spec fn outside_error<E>(error: E) -> RecoveryErrorView<E> {
    RecoveryErrorView { cause: CauseView::Outside(error), contexts: seq![] }
}

/// `error`, with what was being done.
pub open spec fn in_context<E>(error: RecoveryErrorView<E>, context: Seq<char>) -> RecoveryErrorView<
    E,
> {
    RecoveryErrorView { contexts: error.contexts.push(context), ..error }
}

/// The model of an error that may be missing.
pub open spec fn error_view<E>(error: Option<RecoveryError<E>>) -> Option<RecoveryErrorView<E>> {
    match error {
        Some(error) => Some(error@),
        None => None,
    }
}

impl<E> RecoveryError<E> {
    /// The error that only says `message`.
    pub fn plain(message: String) -> (error: Self)
        ensures
            error@ == plain_error::<E>(message@),
    {
        let error = RecoveryError { cause: FailureCause::Message(message), contexts: Vec::new() };
        assert(texts(error.contexts@) =~= seq![]);
        error
    }

    /// The error that an operation outside gave.
    pub fn outside(cause: E) -> (error: Self)
        ensures
            error@ == outside_error(cause),
    {
        let error = RecoveryError { cause: FailureCause::Outside(cause), contexts: Vec::new() };
        assert(texts(error.contexts@) =~= seq![]);
        error
    }

    /// The error, with what was being done.
    pub fn wrapped(self, context: String) -> (error: Self)
        ensures
            error@ == in_context(self@, context@),
    {
        let RecoveryError { cause, contexts } = self;
        let mut contexts = contexts;
        let ghost before = contexts@;
        contexts.push(context);
        assert(texts(contexts@) =~= texts(before).push(context@));
        RecoveryError { cause, contexts }
    }
}

} // verus!
