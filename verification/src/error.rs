//! What can go wrong, as far as a decision depends on it.

use vstd::prelude::*;
use vstd::string::*;

use crate::api::TwoFactorProviderType;

verus! {

/// The errors of the library.
#[derive(Clone, Debug, PartialEq, Eq)]
pub enum Error {
    /// The platform names no directories for this user.
    FailedToFindDataDirectory,
    /// Every port of the range was taken.
    FailedToFindFreePort { range: String },
    /// The browser came back from single sign-on with something else than the code.
    FailedToProcessSSOCallback { msg: String },
    /// The server answered with a status that says no more.
    RequestFailed { status: u16 },
    /// The server answered with the status of a client or server error, which is told of as
    /// `reqwest` tells of it.
    Reqwest { status: u16 },
    /// The vault entry is in the trash.
    DeletedEntry,
    /// Bytes that should have been text were not UTF-8.
    InvalidUtf8,
    /// The user dismissed the pinentry dialogue.
    PinentryCancelled,
    /// Pinentry reported an error, or said something that it should not have said.
    PinentryErrorMessage { error: String },
    /// The server, or the vault, refused the password or code.
    IncorrectPassword { message: String },
    /// The server wants a second factor, by one of these providers.
    TwoFactorRequired {
        providers: Vec<TwoFactorProviderType>,
        sso_email_2fa_session_token: Option<String>,
    },
    /// The server wants the code that it mailed for a device that it has not seen before.
    NewDeviceVerificationRequired,
    /// The database holds no protected keys to unlock.
    UnavailableDbProtectedKeys,
    /// The certificate of the client could not be read from its file.
    LoadClientCert { file: Vec<u8>, message: String },
    /// The client could not be set up, or its certificate is none.
    CreateReqwestClient { message: String },
    /// The port for the browser to come back to could not be listened on.
    CreateSSOCallbackServer { message: String },
    /// The browser could not be opened.
    FailedToOpenWebBrowser { message: String },
    /// A directory could not be created, or its mode not be set.
    CreateDirectory { file: Vec<u8>, message: String },
    /// Pinentry could not be started.
    Spawn { message: String },
    /// Pinentry could not be written to.
    WriteStdin { message: String },
    /// Pinentry could not be read from.
    PinentryReadOutput { message: String },
    /// The end of pinentry could not be waited for.
    PinentryWait { message: String },
    /// Something else, which no decision depends on.
    Other { message: String },
}

/// What an [`Error`] says.
#[verifier::ext_equal]
pub enum ErrorView {
    FailedToFindDataDirectory,
    FailedToFindFreePort { range: Seq<char> },
    FailedToProcessSSOCallback { msg: Seq<char> },
    RequestFailed { status: u16 },
    Reqwest { status: u16 },
    DeletedEntry,
    InvalidUtf8,
    PinentryCancelled,
    PinentryErrorMessage { error: Seq<char> },
    IncorrectPassword { message: Seq<char> },
    TwoFactorRequired {
        providers: Seq<TwoFactorProviderType>,
        sso_email_2fa_session_token: Option<Seq<char>>,
    },
    NewDeviceVerificationRequired,
    UnavailableDbProtectedKeys,
    LoadClientCert { file: Seq<u8>, message: Seq<char> },
    CreateReqwestClient { message: Seq<char> },
    CreateSSOCallbackServer { message: Seq<char> },
    FailedToOpenWebBrowser { message: Seq<char> },
    CreateDirectory { file: Seq<u8>, message: Seq<char> },
    Spawn { message: Seq<char> },
    WriteStdin { message: Seq<char> },
    PinentryReadOutput { message: Seq<char> },
    PinentryWait { message: Seq<char> },
    Other { message: Seq<char> },
}

/// The text of an optional string.
pub open spec fn text_of(s: Option<String>) -> Option<Seq<char>> {
    match s {
        Some(x) => Some(x@),
        None => None,
    }
}

/// The text of an optional string slice.
pub open spec fn slice_text_of(s: Option<&str>) -> Option<Seq<char>> {
    match s {
        Some(x) => Some(x@),
        None => None,
    }
}

impl View for Error {
    type V = ErrorView;

    open spec fn view(&self) -> ErrorView {
        match *self {
            Error::FailedToFindDataDirectory => ErrorView::FailedToFindDataDirectory,
            Error::FailedToFindFreePort { range } => ErrorView::FailedToFindFreePort {
                range: range@,
            },
            Error::FailedToProcessSSOCallback { msg } => ErrorView::FailedToProcessSSOCallback {
                msg: msg@,
            },
            Error::RequestFailed { status } => ErrorView::RequestFailed { status },
            Error::Reqwest { status } => ErrorView::Reqwest { status },
            Error::DeletedEntry => ErrorView::DeletedEntry,
            Error::InvalidUtf8 => ErrorView::InvalidUtf8,
            Error::PinentryCancelled => ErrorView::PinentryCancelled,
            Error::PinentryErrorMessage { error } => ErrorView::PinentryErrorMessage {
                error: error@,
            },
            Error::IncorrectPassword { message } => ErrorView::IncorrectPassword {
                message: message@,
            },
            Error::TwoFactorRequired { providers, sso_email_2fa_session_token } =>
                ErrorView::TwoFactorRequired {
                providers: providers@,
                sso_email_2fa_session_token: text_of(sso_email_2fa_session_token),
            },
            Error::NewDeviceVerificationRequired => ErrorView::NewDeviceVerificationRequired,
            Error::UnavailableDbProtectedKeys => ErrorView::UnavailableDbProtectedKeys,
            Error::LoadClientCert { file, message } => ErrorView::LoadClientCert {
                file: file@,
                message: message@,
            },
            Error::CreateReqwestClient { message } => ErrorView::CreateReqwestClient {
                message: message@,
            },
            Error::CreateSSOCallbackServer { message } => ErrorView::CreateSSOCallbackServer {
                message: message@,
            },
            Error::FailedToOpenWebBrowser { message } => ErrorView::FailedToOpenWebBrowser {
                message: message@,
            },
            Error::CreateDirectory { file, message } => ErrorView::CreateDirectory {
                file: file@,
                message: message@,
            },
            Error::Spawn { message } => ErrorView::Spawn {
                message: message@,
            },
            Error::WriteStdin { message } => ErrorView::WriteStdin {
                message: message@,
            },
            Error::PinentryReadOutput { message } => ErrorView::PinentryReadOutput {
                message: message@,
            },
            Error::PinentryWait { message } => ErrorView::PinentryWait {
                message: message@,
            },
            Error::Other { message } => ErrorView::Other { message: message@ },
        }
    }
}

/// An error on its way to the user: the error itself, and the messages that tell of it, the
/// outermost first.
#[derive(Clone, Debug, PartialEq, Eq)]
pub struct Failure {
    pub error: Error,
    pub messages: Vec<String>,
}

/// What a [`Failure`] says.
#[verifier::ext_equal]
pub struct FailureView {
    pub error: ErrorView,
    pub messages: Seq<Seq<char>>,
}

/// A list of strings by their views.
pub open spec fn text_views(list: Seq<String>) -> Seq<Seq<char>> {
    list.map_values(|item: String| item@)
}

impl View for Failure {
    type V = FailureView;

    open spec fn view(&self) -> FailureView {
        FailureView { error: self.error@, messages: text_views(self.messages@) }
    }
}

/// Messages one behind the other, with colons between them.
pub open spec fn chain_of(messages: Seq<Seq<char>>) -> Seq<char>
    decreases messages.len(),
{
    if messages.len() == 0 {
        Seq::empty()
    } else if messages.len() == 1 {
        messages[0]
    } else {
        chain_of(messages.drop_last()) + ": "@ + messages.last()
    }
}

impl FailureView {
    /// The failure that is told of by one message and is nothing more.
    pub open spec fn other(message: Seq<char>) -> FailureView {
        FailureView { error: ErrorView::Other { message }, messages: seq![message] }
    }

    /// The failure with another message in front.
    pub open spec fn context(self, message: Seq<char>) -> FailureView {
        FailureView { error: self.error, messages: seq![message] + self.messages }
    }

    /// All of the messages.
    pub open spec fn chain(self) -> Seq<char> {
        chain_of(self.messages)
    }

    /// The outermost message.
    pub open spec fn shown(self) -> Seq<char> {
        if self.messages.len() > 0 {
            self.messages[0]
        } else {
            ""@
        }
    }
}

/// A result of nothing but success by its view.
pub open spec fn step_view(res: Result<(), Failure>) -> Result<(), FailureView> {
    match res {
        Ok(_) => Ok(()),
        Err(e) => Err(e@),
    }
}

impl Failure {
    /// An error that is told of by this message.
    pub fn new(error: Error, message: String) -> (res: Failure)
        ensures
            res@ == (FailureView { error: error@, messages: seq![message@] }),
            res.error == error,
            res.messages@.len() == 1,
            res.messages@[0]@ == message@,
    {
        let mut messages: Vec<String> = Vec::new();
        messages.push(message);
        assert(text_views(messages@) =~= seq![message@]);
        Failure { error, messages }
    }

    /// The failure that is told of by one message and is nothing more.
    pub fn other(message: String) -> (res: Failure)
        ensures
            res@ == FailureView::other(message@),
            res.error matches Error::Other { message: told } && told@ == message@,
            res.messages@.len() == 1,
            res.messages@[0]@ == message@,
    {
        Failure::new(Error::Other { message: message.clone() }, message)
    }

    /// The failure with another message in front.
    pub fn context(self, message: &str) -> (res: Failure)
        ensures
            res@ == self@.context(message@),
            res.error == self.error,
            res.messages@.len() == self.messages@.len() + 1,
            res.messages@[0]@ == message@,
            res.messages@.skip(1) == self.messages@,
    {
        let Failure { error, messages: inner } = self;
        let mut messages: Vec<String> = Vec::new();
        messages.push(message.to_owned());
        let mut rest = inner;
        messages.append(&mut rest);
        assert(text_views(messages@) =~= seq![message@] + text_views(inner@));
        Failure { error, messages }
    }

    /// All of the messages, the outermost first.
    pub fn chain(&self) -> (res: String)
        ensures
            res@ == self@.chain(),
    {
        let ghost views = text_views(self.messages@);
        let mut out = String::new();
        let mut i: usize = 0;
        assert(views.take(0) =~= Seq::<Seq<char>>::empty());
        while i < self.messages.len()
            invariant
                i <= self.messages.len(),
                views == text_views(self.messages@),
                out@ == chain_of(views.take(i as int)),
            decreases self.messages.len() - i,
        {
            assert(views.take(i + 1).drop_last() =~= views.take(i as int));
            assert(views.take(i + 1).last() == self.messages@[i as int]@);
            if i > 0 {
                out = out.concat(": ").concat(self.messages[i].as_str());
            } else {
                out = self.messages[i].clone();
            }
            i = i + 1;
        }
        assert(views.take(i as int) =~= views);
        out
    }

    /// The outermost message.
    pub fn shown(&self) -> (res: String)
        ensures
            res@ == self@.shown(),
            self.messages@.len() > 0 ==> res@ == self.messages@[0]@,
            self.messages@.len() == 0 ==> res@.len() == 0,
    {
        if self.messages.len() > 0 {
            self.messages[0].clone()
        } else {
            proof {
                reveal_strlit("");
            }
            "".to_owned()
        }
    }
}

/// A failure with a message in front is the same failure: it shows that message, and its chain
/// is the message and, behind a colon, the chain that it had.
pub proof fn law_context_stands_in_front(failure: FailureView, message: Seq<char>)
    ensures
        failure.context(message).error == failure.error,
        failure.context(message).shown() == message,
        failure.context(message).messages.skip(1) == failure.messages,
        failure.messages.len() > 0 ==> failure.context(message).chain() == message + ": "@
            + failure.chain(),
        failure.messages.len() == 0 ==> failure.context(message).chain() == message,
{
    let told = failure.context(message).messages;
    assert(told.skip(1) =~= failure.messages);
    if failure.messages.len() > 0 {
        lemma_chain(message, failure.messages);
    }
}

/// A failure that is told of by one message shows it, and its chain is that message.
pub proof fn law_one_message_is_shown(message: Seq<char>)
    ensures
        FailureView::other(message).shown() == message,
        FailureView::other(message).chain() == message,
        FailureView::other(message).error == (ErrorView::Other { message }),
        FailureView::other(message).messages == seq![message],
{
}

proof fn lemma_chain(message: Seq<char>, rest: Seq<Seq<char>>)
    requires
        rest.len() > 0,
    ensures
        chain_of(seq![message] + rest) == message + ": "@ + chain_of(rest),
    decreases rest.len(),
{
    let all = seq![message] + rest;
    assert(all.drop_last() =~= seq![message] + rest.drop_last());
    assert(all.last() == rest.last());
    if rest.len() == 1 {
        assert(all.drop_last() =~= seq![message]);
        assert(chain_of(all.drop_last()) == message);
        assert(chain_of(rest) == rest[0]);
    } else {
        lemma_chain(message, rest.drop_last());
        assert(chain_of(all) =~= message + ": "@ + chain_of(rest));
    }
}

/// An error and what it says are of the same kind, with the same numbers and texts.
pub proof fn law_errors_say_what_they_are(error: Error)
    ensures
        error is FailedToFindDataDirectory <==> error@ is FailedToFindDataDirectory,
        error is DeletedEntry <==> error@ is DeletedEntry,
        error is InvalidUtf8 <==> error@ is InvalidUtf8,
        error is PinentryCancelled <==> error@ is PinentryCancelled,
        error is NewDeviceVerificationRequired <==> error@ is NewDeviceVerificationRequired,
        error is UnavailableDbProtectedKeys <==> error@ is UnavailableDbProtectedKeys,
        error is RequestFailed <==> error@ is RequestFailed,
        error matches Error::RequestFailed { status } ==> error@ == (ErrorView::RequestFailed {
            status,
        }),
        error is Reqwest <==> error@ is Reqwest,
        error matches Error::Reqwest { status } ==> error@ == (ErrorView::Reqwest { status }),
        error is FailedToFindFreePort <==> error@ is FailedToFindFreePort,
        error matches Error::FailedToFindFreePort { range } ==> error@ == (
        ErrorView::FailedToFindFreePort { range: range@ }),
        error is FailedToProcessSSOCallback <==> error@ is FailedToProcessSSOCallback,
        error matches Error::FailedToProcessSSOCallback { msg } ==> error@ == (
        ErrorView::FailedToProcessSSOCallback { msg: msg@ }),
        error is PinentryErrorMessage <==> error@ is PinentryErrorMessage,
        error matches Error::PinentryErrorMessage { error: told } ==> error@ == (
        ErrorView::PinentryErrorMessage { error: told@ }),
        error is IncorrectPassword <==> error@ is IncorrectPassword,
        error matches Error::IncorrectPassword { message } ==> error@ == (
        ErrorView::IncorrectPassword { message: message@ }),
        error is TwoFactorRequired <==> error@ is TwoFactorRequired,
        error matches Error::TwoFactorRequired { providers, sso_email_2fa_session_token: token }
            ==> error@ matches ErrorView::TwoFactorRequired {
            providers: told,
            sso_email_2fa_session_token: told_token,
        } && told == providers@ && (token is None <==> told_token is None) && (token matches Some(
            token,
        ) ==> told_token == Some(token@)),
        error is LoadClientCert <==> error@ is LoadClientCert,
        error matches Error::LoadClientCert { file, message } ==> error@ == (
        ErrorView::LoadClientCert { file: file@, message: message@ }),
        error is CreateReqwestClient <==> error@ is CreateReqwestClient,
        error matches Error::CreateReqwestClient { message } ==> error@ == (
        ErrorView::CreateReqwestClient { message: message@ }),
        error is CreateSSOCallbackServer <==> error@ is CreateSSOCallbackServer,
        error matches Error::CreateSSOCallbackServer { message } ==> error@ == (
        ErrorView::CreateSSOCallbackServer { message: message@ }),
        error is FailedToOpenWebBrowser <==> error@ is FailedToOpenWebBrowser,
        error matches Error::FailedToOpenWebBrowser { message } ==> error@ == (
        ErrorView::FailedToOpenWebBrowser { message: message@ }),
        error is CreateDirectory <==> error@ is CreateDirectory,
        error matches Error::CreateDirectory { file, message } ==> error@ == (
        ErrorView::CreateDirectory { file: file@, message: message@ }),
        error is Spawn <==> error@ is Spawn,
        error matches Error::Spawn { message } ==> error@ == (ErrorView::Spawn {
            message: message@,
        }),
        error is WriteStdin <==> error@ is WriteStdin,
        error matches Error::WriteStdin { message } ==> error@ == (ErrorView::WriteStdin {
            message: message@,
        }),
        error is PinentryReadOutput <==> error@ is PinentryReadOutput,
        error matches Error::PinentryReadOutput { message } ==> error@ == (
        ErrorView::PinentryReadOutput { message: message@ }),
        error is PinentryWait <==> error@ is PinentryWait,
        error matches Error::PinentryWait { message } ==> error@ == (ErrorView::PinentryWait {
            message: message@,
        }),
        error is Other <==> error@ is Other,
        error matches Error::Other { message } ==> error@ == (ErrorView::Other {
            message: message@,
        }),
{
}

/// A failure and what it says agree on the error and on every message; a text that may be
/// missing is missing exactly where its view is.
pub proof fn law_failures_say_what_they_are(
    failure: Failure,
    step: Result<(), Failure>,
    text: Option<String>,
    slice: Option<&str>,
)
    ensures
        failure@.error == failure.error@,
        failure@.messages.len() == failure.messages@.len(),
        forall|i: int|
            0 <= i < failure.messages@.len() ==> failure@.messages[i]
                == #[trigger] failure.messages@[i]@,
        step is Ok <==> step_view(step) is Ok,
        step matches Err(e) ==> step_view(step) == Err::<(), FailureView>(e@),
        text is None <==> text_of(text) is None,
        text matches Some(s) ==> text_of(text) == Some(s@),
        slice is None <==> slice_text_of(slice) is None,
        slice matches Some(s) ==> slice_text_of(slice) == Some(s@),
{
}

} // verus!
