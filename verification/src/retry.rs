//! Asking again, up to three times, where a password or code was refused.

use vstd::prelude::*;
use vstd::string::*;

use crate::error::{text_of, Error, ErrorView, Failure, FailureView};

verus! {

broadcast use vstd::string::group_string_axioms;

/// Which attempt it is.
#[derive(Clone, Copy, Debug, PartialEq, Eq, Structural)]
pub enum Attempt {
    First,
    Second,
    Last,
}

impl Attempt {
    /// How many attempts are still to come.
    pub open spec fn left(self) -> nat {
        match self {
            Attempt::First => 2,
            Attempt::Second => 1,
            Attempt::Last => 0,
        }
    }
}

/// An attempt, and what the user is shown of the error of the one before.
#[derive(Clone, Debug, PartialEq, Eq)]
pub struct Retry {
    pub attempt: Attempt,
    pub shown: Option<String>,
}

/// What a [`Retry`] says.
#[verifier::ext_equal]
pub struct RetryView {
    pub attempt: Attempt,
    pub shown: Option<Seq<char>>,
}

impl View for Retry {
    type V = RetryView;

    open spec fn view(&self) -> RetryView {
        RetryView { attempt: self.attempt, shown: text_of(self.shown) }
    }
}

/// What the user is shown of an error before they are asked again: nothing, where they are not.
pub open spec fn retry_message(error: ErrorView) -> Option<Seq<char>> {
    match error {
        ErrorView::IncorrectPassword { message } => Some(message),
        ErrorView::TwoFactorRequired { .. } => Some("TOTP code is not a number"@),
        _ => None,
    }
}

impl RetryView {
    /// The first attempt.
    pub open spec fn first() -> RetryView {
        RetryView { attempt: Attempt::First, shown: None }
    }

    /// The next attempt after one that failed, or the failure, where it is final: only refused
    /// passwords and codes are asked for again, and only twice.
    pub open spec fn after(self, failure: FailureView) -> Result<RetryView, FailureView> {
        match (retry_message(failure.error), self.attempt) {
            (Some(message), Attempt::First) => Ok(
                RetryView {
                    attempt: Attempt::Second,
                    shown: Some(message + " (attempt 2/3)"@),
                },
            ),
            (Some(message), Attempt::Second) => Ok(
                RetryView { attempt: Attempt::Last, shown: Some(message + " (attempt 3/3)"@) },
            ),
            _ => Err(failure),
        }
    }
}

/// An attempt or a failure by its view.
pub open spec fn retry_view(res: Result<Retry, Failure>) -> Result<RetryView, FailureView> {
    match res {
        Ok(retry) => Ok(retry@),
        Err(e) => Err(e@),
    }
}

impl Retry {
    /// The first attempt.
    pub fn first() -> (res: Retry)
        ensures
            res@ == RetryView::first(),
            res.attempt is First,
            res.shown is None,
    {
        Retry { attempt: Attempt::First, shown: None }
    }

    /// The next attempt after one that failed, or the failure, where it is final.
    pub fn after(self, failure: Failure) -> (res: Result<Retry, Failure>)
        ensures
            retry_view(res) == self@.after(failure@),
            res is Ok <==> !(self.attempt is Last) && (failure.error is IncorrectPassword
                || failure.error is TwoFactorRequired),
            res matches Err(e) ==> e == failure,
            res matches Ok(next) ==> {
                &&& self.attempt is First ==> next.attempt is Second
                &&& self.attempt is Second ==> next.attempt is Last
                &&& next.shown matches Some(shown) && match failure.error {
                    Error::IncorrectPassword { message } => {
                        &&& self.attempt is First ==> shown@ == message@ + " (attempt 2/3)"@
                        &&& self.attempt is Second ==> shown@ == message@ + " (attempt 3/3)"@
                    },
                    _ => {
                        &&& self.attempt is First ==> shown@ == "TOTP code is not a number"@
                            + " (attempt 2/3)"@
                        &&& self.attempt is Second ==> shown@ == "TOTP code is not a number"@
                            + " (attempt 3/3)"@
                    },
                }
            },
    {
        let message = match &failure.error {
            Error::IncorrectPassword { message } => message.clone(),
            Error::TwoFactorRequired { .. } => "TOTP code is not a number".to_owned(),
            _ => {
                return Err(failure);
            },
        };
        match self.attempt {
            Attempt::First => Ok(
                Retry {
                    attempt: Attempt::Second,
                    shown: Some(message.concat(" (attempt 2/3)")),
                },
            ),
            Attempt::Second => Ok(
                Retry { attempt: Attempt::Last, shown: Some(message.concat(" (attempt 3/3)")) },
            ),
            Attempt::Last => Err(failure),
        }
    }
}

/// What attempts come to that end like this, one after the other: nothing yet, where the next
/// one is still to be made.
pub open spec fn with_retry<T>(retry: RetryView, outcomes: Seq<Result<T, FailureView>>) -> Option<
    Result<T, FailureView>,
>
    decreases outcomes.len(),
{
    if outcomes.len() == 0 {
        None
    } else {
        match outcomes[0] {
            Ok(value) => Some(Ok(value)),
            Err(e) => match retry.after(e) {
                Ok(next) => with_retry(next, outcomes.skip(1)),
                Err(e) => Some(Err(e)),
            },
        }
    }
}

/// Whether an attempt that ends like this is the last, were it not the third.
pub open spec fn settles<T>(outcome: Result<T, FailureView>) -> bool {
    match outcome {
        Ok(_) => true,
        Err(e) => retry_message(e.error) is None,
    }
}

/// The user is asked again exactly where what they typed was refused and an attempt is left. They
/// are then shown why, and the number of the attempt. Any other failure is handed on as it is.
pub proof fn law_refusals_are_asked_again(retry: RetryView, failure: FailureView)
    ensures
        retry.after(failure) is Ok <==> retry.attempt.left() > 0 && (failure.error
            is IncorrectPassword || failure.error is TwoFactorRequired),
        retry.after(failure) matches Ok(next) ==> {
            &&& next.attempt.left() + 1 == retry.attempt.left()
            &&& next.shown is Some
            &&& failure.error matches ErrorView::IncorrectPassword { message }
                ==> message.is_prefix_of(next.shown->Some_0)
        },
        retry.after(failure) matches Err(e) ==> e == failure,
        RetryView::first().attempt.left() == 2,
        RetryView::first().shown is None,
{
    if let ErrorView::IncorrectPassword { message } = failure.error {
        if let Ok(next) = retry.after(failure) {
            assert(next.shown->Some_0.take(message.len() as int) =~= message);
        }
    }
}

/// There are three attempts at most, and they come to what the first of them comes to that is
/// no refused password or code: the third, where there is none such.
pub proof fn law_three_attempts<T>(outcomes: Seq<Result<T, FailureView>>)
    requires
        outcomes.len() >= 3,
    ensures
        with_retry(RetryView::first(), outcomes) == Some(
            if settles(outcomes[0]) {
                outcomes[0]
            } else if settles(outcomes[1]) {
                outcomes[1]
            } else {
                outcomes[2]
            },
        ),
{
    reveal_with_fuel(with_retry, 4);
    assert(outcomes.skip(1).skip(1) =~= outcomes.skip(2));
}

} // verus!
