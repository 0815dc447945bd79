//! How the agent registers the device, logs in and unlocks the vault: what is done next, by how
//! the last thing went.

use vstd::prelude::*;
use vstd::string::*;

use crate::api::TwoFactorProviderType;
use crate::error::{step_view, text_of, Error, ErrorView, Failure, FailureView};
use crate::retry::{Retry, RetryView};

verus! {

broadcast use vstd::string::group_string_axioms;

/// The second factors that can be used, the preferred ones first.
pub open spec fn supported_types() -> Seq<TwoFactorProviderType> {
    seq![
        TwoFactorProviderType::Authenticator,
        TwoFactorProviderType::Yubikey,
        TwoFactorProviderType::Email,
    ]
}

/// The second factor that is used, of those that the server offers.
pub open spec fn chosen_provider(offered: Seq<TwoFactorProviderType>) -> Option<
    TwoFactorProviderType,
> {
    if offered.contains(TwoFactorProviderType::Authenticator) {
        Some(TwoFactorProviderType::Authenticator)
    } else if offered.contains(TwoFactorProviderType::Yubikey) {
        Some(TwoFactorProviderType::Yubikey)
    } else if offered.contains(TwoFactorProviderType::Email) {
        Some(TwoFactorProviderType::Email)
    } else {
        None
    }
}

/// Whether a second factor is among those offered.
fn offers(offered: &Vec<TwoFactorProviderType>, provider: TwoFactorProviderType) -> (res: bool)
    ensures
        res == offered@.contains(provider),
{
    let mut i: usize = 0;
    while i < offered.len()
        invariant
            i <= offered.len(),
            forall|j: int| 0 <= j < i ==> offered@[j] != provider,
        decreases offered.len() - i,
    {
        if offered[i] == provider {
            assert(offered@[i as int] == provider);
            return true;
        }
        i = i + 1;
    }
    false
}

/// The second factor that is used, of those that the server offers.
pub fn choose_provider(offered: &Vec<TwoFactorProviderType>) -> (res: Option<
    TwoFactorProviderType,
>)
    ensures
        res == chosen_provider(offered@),
        res == Some(TwoFactorProviderType::Authenticator) <==> offered@.contains(
            TwoFactorProviderType::Authenticator,
        ),
        res == Some(TwoFactorProviderType::Yubikey) <==> offered@.contains(
            TwoFactorProviderType::Yubikey,
        ) && !offered@.contains(TwoFactorProviderType::Authenticator),
        res == Some(TwoFactorProviderType::Email) <==> offered@.contains(
            TwoFactorProviderType::Email,
        ) && !offered@.contains(TwoFactorProviderType::Authenticator) && !offered@.contains(
            TwoFactorProviderType::Yubikey,
        ),
        res matches Some(provider) ==> provider is Authenticator || provider is Yubikey
            || provider is Email,
{
    if offers(offered, TwoFactorProviderType::Authenticator) {
        Some(TwoFactorProviderType::Authenticator)
    } else if offers(offered, TwoFactorProviderType::Yubikey) {
        Some(TwoFactorProviderType::Yubikey)
    } else if offers(offered, TwoFactorProviderType::Email) {
        Some(TwoFactorProviderType::Email)
    } else {
        None
    }
}

/// The second factor that is used is the first of the supported ones that the server offers:
/// there is none only where it offers none of them.
pub proof fn law_first_supported_provider_is_chosen(offered: Seq<TwoFactorProviderType>)
    ensures
        match chosen_provider(offered) {
            Some(provider) => exists|k: int|
                0 <= k < supported_types().len() && #[trigger] supported_types()[k] == provider
                    && offered.contains(provider) && forall|j: int|
                    0 <= j < k ==> !offered.contains(#[trigger] supported_types()[j]),
            None => forall|k: int|
                0 <= k < supported_types().len() ==> !offered.contains(
                    #[trigger] supported_types()[k],
                ),
        },
{
    let types = supported_types();
    if offered.contains(types[0]) {
        assert(types[0] == TwoFactorProviderType::Authenticator);
    } else if offered.contains(types[1]) {
        assert(types[1] == TwoFactorProviderType::Yubikey);
    } else if offered.contains(types[2]) {
        assert(types[2] == TwoFactorProviderType::Email);
    }
}

/// The name of a second factor.
pub open spec fn provider_name(provider: TwoFactorProviderType) -> Seq<char> {
    match provider {
        TwoFactorProviderType::Authenticator => "Authenticator"@,
        TwoFactorProviderType::Email => "Email"@,
        TwoFactorProviderType::Duo => "Duo"@,
        TwoFactorProviderType::Yubikey => "Yubikey"@,
        TwoFactorProviderType::U2f => "U2f"@,
        TwoFactorProviderType::Remember => "Remember"@,
        TwoFactorProviderType::OrganizationDuo => "OrganizationDuo"@,
        TwoFactorProviderType::WebAuthn => "WebAuthn"@,
    }
}

/// The names of second factors, with commas between them.
pub open spec fn provider_names(providers: Seq<TwoFactorProviderType>) -> Seq<char>
    decreases providers.len(),
{
    if providers.len() == 0 {
        Seq::empty()
    } else if providers.len() == 1 {
        provider_name(providers[0])
    } else {
        provider_names(providers.drop_last()) + ", "@ + provider_name(providers.last())
    }
}

/// The message that none of these second factors can be used.
pub open spec fn unsupported_message(providers: Seq<TwoFactorProviderType>) -> Seq<char> {
    "unsupported two factor methods: ["@ + provider_names(providers) + "]"@
}

/// The name of a second factor.
fn name_of(provider: TwoFactorProviderType) -> (res: String)
    ensures
        res@ == provider_name(provider),
        provider is Authenticator ==> res@ == "Authenticator"@,
        provider is Email ==> res@ == "Email"@,
        provider is Duo ==> res@ == "Duo"@,
        provider is Yubikey ==> res@ == "Yubikey"@,
        provider is U2f ==> res@ == "U2f"@,
        provider is Remember ==> res@ == "Remember"@,
        provider is OrganizationDuo ==> res@ == "OrganizationDuo"@,
        provider is WebAuthn ==> res@ == "WebAuthn"@,
{
    match provider {
        TwoFactorProviderType::Authenticator => "Authenticator".to_owned(),
        TwoFactorProviderType::Email => "Email".to_owned(),
        TwoFactorProviderType::Duo => "Duo".to_owned(),
        TwoFactorProviderType::Yubikey => "Yubikey".to_owned(),
        TwoFactorProviderType::U2f => "U2f".to_owned(),
        TwoFactorProviderType::Remember => "Remember".to_owned(),
        TwoFactorProviderType::OrganizationDuo => "OrganizationDuo".to_owned(),
        TwoFactorProviderType::WebAuthn => "WebAuthn".to_owned(),
    }
}

/// The message that none of these second factors can be used.
pub fn unsupported_two_factor(providers: &Vec<TwoFactorProviderType>) -> (res: String)
    ensures
        res@ == unsupported_message(providers@),
        res@ == "unsupported two factor methods: ["@ + provider_names(providers@) + "]"@,
{
    let mut names = String::new();
    let mut i: usize = 0;
    assert(providers@.take(0) =~= Seq::<TwoFactorProviderType>::empty());
    while i < providers.len()
        invariant
            i <= providers.len(),
            names@ == provider_names(providers@.take(i as int)),
        decreases providers.len() - i,
    {
        let name = name_of(providers[i]);
        assert(providers@.take(i + 1).drop_last() =~= providers@.take(i as int));
        assert(providers@.take(i + 1).last() == providers@[i as int]);
        if i > 0 {
            names = names.concat(", ").concat(name.as_str());
        } else {
            names = name;
        }
        i = i + 1;
    }
    assert(providers@.take(i as int) =~= providers@);
    "unsupported two factor methods: [".to_owned().concat(names.as_str()).concat("]")
}

/// The names of second factors stand in the order of the list, one name for each, with a comma
/// and a space between any two lists that are not empty.
pub proof fn law_provider_names_are_listed_in_order(
    one: Seq<TwoFactorProviderType>,
    other: Seq<TwoFactorProviderType>,
    provider: TwoFactorProviderType,
)
    ensures
        provider_names(seq![provider]) == provider_name(provider),
        provider_names(Seq::empty()) == Seq::<char>::empty(),
        one.len() > 0 && other.len() > 0 ==> provider_names(one + other) == provider_names(one)
            + ", "@ + provider_names(other),
    decreases other.len(),
{
    if one.len() > 0 && other.len() > 0 {
        assert((one + other).drop_last() =~= one + other.drop_last());
        assert((one + other).last() == other.last());
        if other.len() == 1 {
            assert(one + other.drop_last() =~= one);
        } else {
            law_provider_names_are_listed_in_order(one, other.drop_last(), provider);
            assert(provider_names(one + other) =~= provider_names(one) + ", "@ + provider_names(
                other,
            ));
        }
    }
}

/// What a login does next.
#[derive(Clone, Debug, PartialEq, Eq)]
pub enum Login {
    /// Find out which host and account it is for.
    Prepare,
    /// Ask for the master password.
    Password(Retry),
    /// Log in with the master password.
    Server(Retry),
    /// Ask for the code that was mailed for a new device.
    DeviceCode(Retry),
    /// Log in with that code.
    DeviceServer(Retry),
    /// Have the server mail a code, by this token.
    Email(String),
    /// Ask for the code of the second factor.
    Code(TwoFactorProviderType, Retry),
    /// Log in with that code.
    CodeServer(TwoFactorProviderType, Retry),
    /// Keep the session that the server has opened, and save it.
    Save,
    /// Fetch the vault.
    Sync,
    /// Unlock the vault with the master password.
    Unlock,
    /// Tell the program that asked that it is done.
    Acknowledge,
    /// Nothing.
    Done,
}

/// What a [`Login`] says.
#[verifier::ext_equal]
pub enum LoginView {
    Prepare,
    Password(RetryView),
    Server(RetryView),
    DeviceCode(RetryView),
    DeviceServer(RetryView),
    Email(Seq<char>),
    Code(TwoFactorProviderType, RetryView),
    CodeServer(TwoFactorProviderType, RetryView),
    Save,
    Sync,
    Unlock,
    Acknowledge,
    Done,
}

impl View for Login {
    type V = LoginView;

    open spec fn view(&self) -> LoginView {
        match *self {
            Login::Prepare => LoginView::Prepare,
            Login::Password(retry) => LoginView::Password(retry@),
            Login::Server(retry) => LoginView::Server(retry@),
            Login::DeviceCode(retry) => LoginView::DeviceCode(retry@),
            Login::DeviceServer(retry) => LoginView::DeviceServer(retry@),
            Login::Email(token) => LoginView::Email(token@),
            Login::Code(provider, retry) => LoginView::Code(provider, retry@),
            Login::CodeServer(provider, retry) => LoginView::CodeServer(provider, retry@),
            Login::Save => LoginView::Save,
            Login::Sync => LoginView::Sync,
            Login::Unlock => LoginView::Unlock,
            Login::Acknowledge => LoginView::Acknowledge,
            Login::Done => LoginView::Done,
        }
    }
}

/// What tells of a login that failed.
pub open spec fn login_failed(failure: FailureView) -> FailureView {
    failure.context("failed to log in to bitwarden instance"@)
}

/// The failure of the verification of a new device, which is final.
pub open spec fn device_failed(failure: FailureView) -> FailureView {
    login_failed(FailureView::other("new device verification failed: "@ + failure.shown()))
}

/// The failure of the second factor, which is final.
pub open spec fn second_factor_failed(failure: FailureView) -> FailureView {
    login_failed(FailureView::other("2FA verification failed: "@ + failure.shown()))
}

impl LoginView {
    /// How a login starts: there is nothing to do but to say so where there is a session.
    pub open spec fn start(needs_login: bool) -> LoginView {
        if needs_login {
            LoginView::Prepare
        } else {
            LoginView::Acknowledge
        }
    }

    /// The login after a question for the master password, or a login with it, that failed.
    pub open spec fn password_again(retry: RetryView, failure: FailureView) -> Result<
        LoginView,
        FailureView,
    > {
        match retry.after(failure) {
            Ok(next) => Ok(LoginView::Password(next)),
            Err(e) => Err(login_failed(e)),
        }
    }

    /// The login after a question for the code for a new device, or a login with it, that
    /// failed.
    pub open spec fn device_code_again(retry: RetryView, failure: FailureView) -> Result<
        LoginView,
        FailureView,
    > {
        match retry.after(failure) {
            Ok(next) => Ok(LoginView::DeviceCode(next)),
            Err(e) => Err(device_failed(e)),
        }
    }

    /// The login after a question for the code of a second factor, or a login with it, that
    /// failed.
    pub open spec fn code_again(
        provider: TwoFactorProviderType,
        retry: RetryView,
        failure: FailureView,
    ) -> Result<LoginView, FailureView> {
        match retry.after(failure) {
            Ok(next) => Ok(LoginView::Code(provider, next)),
            Err(e) => Err(second_factor_failed(e)),
        }
    }

    /// The login where the server wants a second factor. The code for the email provider is
    /// mailed on demand where the server has given a token for that.
    pub open spec fn second_factor(
        providers: Seq<TwoFactorProviderType>,
        token: Option<Seq<char>>,
    ) -> Result<LoginView, FailureView> {
        match (chosen_provider(providers), token) {
            (None, _) => Err(
                second_factor_failed(FailureView::other(unsupported_message(providers))),
            ),
            (Some(TwoFactorProviderType::Email), Some(token)) => Ok(LoginView::Email(token)),
            (Some(provider), _) => Ok(LoginView::Code(provider, RetryView::first())),
        }
    }

    /// The login after its next thing went so.
    pub open spec fn after(self, outcome: Result<(), FailureView>) -> Result<
        LoginView,
        FailureView,
    > {
        match (self, outcome) {
            (LoginView::Prepare, Ok(_)) => Ok(LoginView::Password(RetryView::first())),
            (LoginView::Prepare, Err(e)) => Err(e),
            (LoginView::Password(retry), Ok(_)) => Ok(LoginView::Server(retry)),
            (LoginView::Password(retry), Err(e)) => LoginView::password_again(
                retry,
                e.context("failed to read password from pinentry"@),
            ),
            (LoginView::Server(_), Ok(_)) => Ok(LoginView::Save),
            (LoginView::Server(retry), Err(e)) => match e.error {
                ErrorView::NewDeviceVerificationRequired => Ok(
                    LoginView::DeviceCode(RetryView::first()),
                ),
                ErrorView::TwoFactorRequired { providers, sso_email_2fa_session_token } =>
                    LoginView::second_factor(providers, sso_email_2fa_session_token),
                _ => LoginView::password_again(retry, e),
            },
            (LoginView::DeviceCode(retry), Ok(_)) => Ok(LoginView::DeviceServer(retry)),
            (LoginView::DeviceCode(retry), Err(e)) => LoginView::device_code_again(
                retry,
                e.context("failed to read new device verification code from pinentry"@),
            ),
            (LoginView::DeviceServer(_), Ok(_)) => Ok(LoginView::Save),
            (LoginView::DeviceServer(retry), Err(e)) => LoginView::device_code_again(retry, e),
            (LoginView::Email(_), Ok(_)) => Ok(
                LoginView::Code(TwoFactorProviderType::Email, RetryView::first()),
            ),
            (LoginView::Email(_), Err(e)) => Err(second_factor_failed(e)),
            (LoginView::Code(provider, retry), Ok(_)) => Ok(LoginView::CodeServer(provider, retry)),
            (LoginView::Code(provider, retry), Err(e)) => LoginView::code_again(
                provider,
                retry,
                e.context("failed to read code from pinentry"@),
            ),
            (LoginView::CodeServer(_, _), Ok(_)) => Ok(LoginView::Save),
            (LoginView::CodeServer(provider, retry), Err(e)) => LoginView::code_again(
                provider,
                retry,
                e,
            ),
            (LoginView::Save, Ok(_)) => Ok(LoginView::Sync),
            (LoginView::Save, Err(e)) => Err(e),
            (LoginView::Sync, Ok(_)) => Ok(LoginView::Unlock),
            (LoginView::Sync, Err(e)) => Err(e),
            (LoginView::Unlock, Ok(_)) => Ok(LoginView::Acknowledge),
            (LoginView::Unlock, Err(e)) => Err(e.context("failed to unlock database"@)),
            (LoginView::Acknowledge, Ok(_)) => Ok(LoginView::Done),
            (LoginView::Acknowledge, Err(e)) => Err(e),
            (LoginView::Done, Ok(_)) => Ok(LoginView::Done),
            (LoginView::Done, Err(e)) => Err(e),
        }
    }

    /// An upper bound on how much is still to be done.
    pub open spec fn rank(self) -> nat {
        match self {
            LoginView::Prepare => 18,
            LoginView::Password(retry) => 13 + 2 * retry.attempt.left(),
            LoginView::Server(retry) => 12 + 2 * retry.attempt.left(),
            LoginView::Email(_) => 11,
            LoginView::DeviceCode(retry) => 6 + 2 * retry.attempt.left(),
            LoginView::DeviceServer(retry) => 5 + 2 * retry.attempt.left(),
            LoginView::Code(_, retry) => 6 + 2 * retry.attempt.left(),
            LoginView::CodeServer(_, retry) => 5 + 2 * retry.attempt.left(),
            LoginView::Save => 4,
            LoginView::Sync => 3,
            LoginView::Unlock => 2,
            LoginView::Acknowledge => 1,
            LoginView::Done => 0,
        }
    }
}

/// A step of a login or its failure by its view.
pub open spec fn login_view(res: Result<Login, Failure>) -> Result<LoginView, FailureView> {
    match res {
        Ok(login) => Ok(login@),
        Err(e) => Err(e@),
    }
}

/// The login after a question for the master password, or a login with it, that failed.
fn password_again(retry: Retry, failure: Failure) -> (res: Result<Login, Failure>)
    ensures
        login_view(res) == LoginView::password_again(retry@, failure@),
{
    match retry.after(failure) {
        Ok(next) => Ok(Login::Password(next)),
        Err(e) => Err(e.context("failed to log in to bitwarden instance")),
    }
}

/// The final failure of a login, in these words in front of what went wrong.
fn final_failure(words: &str, failure: Failure) -> (res: Failure)
    ensures
        res@ == login_failed(FailureView::other(words@ + failure@.shown())),
        failure.messages@.len() > 0 ==> res@.messages == seq![
            "failed to log in to bitwarden instance"@,
            words@ + failure.messages@[0]@,
        ],
{
    let shown = failure.shown();
    Failure::other(words.to_owned().concat(shown.as_str())).context(
        "failed to log in to bitwarden instance",
    )
}

/// The login after a question for the code for a new device, or a login with it, that failed.
fn device_code_again(retry: Retry, failure: Failure) -> (res: Result<Login, Failure>)
    ensures
        login_view(res) == LoginView::device_code_again(retry@, failure@),
{
    match retry.after(failure) {
        Ok(next) => Ok(Login::DeviceCode(next)),
        Err(e) => Err(final_failure("new device verification failed: ", e)),
    }
}

/// The login after a question for the code of a second factor, or a login with it, that failed.
fn code_again(provider: TwoFactorProviderType, retry: Retry, failure: Failure) -> (res: Result<
    Login,
    Failure,
>)
    ensures
        login_view(res) == LoginView::code_again(provider, retry@, failure@),
{
    match retry.after(failure) {
        Ok(next) => Ok(Login::Code(provider, next)),
        Err(e) => Err(final_failure("2FA verification failed: ", e)),
    }
}

/// The login where the server wants a second factor.
pub fn two_factor_required(
    providers: Vec<TwoFactorProviderType>,
    sso_email_2fa_session_token: Option<String>,
) -> (res: Result<Login, Failure>)
    ensures
        login_view(res) == LoginView::second_factor(
            providers@,
            text_of(sso_email_2fa_session_token),
        ),
        if providers@.contains(TwoFactorProviderType::Authenticator) {
            res matches Ok(Login::Code(provider, next)) && provider is Authenticator
                && next.attempt is First && next.shown is None
        } else if providers@.contains(TwoFactorProviderType::Yubikey) {
            res matches Ok(Login::Code(provider, next)) && provider is Yubikey
                && next.attempt is First && next.shown is None
        } else if providers@.contains(TwoFactorProviderType::Email) {
            match sso_email_2fa_session_token {
                Some(token) => res matches Ok(Login::Email(used)) && used@ == token@,
                None => res matches Ok(Login::Code(provider, next)) && provider is Email
                    && next.attempt is First && next.shown is None,
            }
        } else {
            res matches Err(e) && e@.messages == seq![
                "failed to log in to bitwarden instance"@,
                "2FA verification failed: "@ + unsupported_message(providers@),
            ]
        },
{
    let provider = match choose_provider(&providers) {
        Some(provider) => provider,
        None => {
            let failure = Failure::other(unsupported_two_factor(&providers));
            return Err(final_failure("2FA verification failed: ", failure));
        },
    };
    if provider == TwoFactorProviderType::Email {
        if let Some(token) = sso_email_2fa_session_token {
            return Ok(Login::Email(token));
        }
    }
    Ok(Login::Code(provider, Retry::first()))
}

impl Login {
    /// How a login starts.
    pub fn start(needs_login: bool) -> (res: Login)
        ensures
            res@ == LoginView::start(needs_login),
            needs_login ==> res is Prepare,
            !needs_login ==> res is Acknowledge,
    {
        if needs_login {
            Login::Prepare
        } else {
            Login::Acknowledge
        }
    }

    /// The login after its next thing went so. A failure to read an answer comes as pinentry
    /// reports it; what was asked for is added here.
    pub fn after(self, outcome: Result<(), Failure>) -> (res: Result<Login, Failure>)
        ensures
            login_view(res) == self@.after(step_view(outcome)),
            outcome is Ok ==> (res matches Ok(next) && match self {
                Login::Prepare => next matches Login::Password(asked)
                    && asked.attempt is First && asked.shown is None,
                Login::Password(retry) => next == Login::Server(retry),
                Login::DeviceCode(retry) => next == Login::DeviceServer(retry),
                Login::Email(_) => next matches Login::Code(provider, asked) && provider is Email
                    && asked.attempt is First && asked.shown is None,
                Login::Code(provider, retry) => next == Login::CodeServer(provider, retry),
                Login::Server(_) | Login::DeviceServer(_) | Login::CodeServer(_, _) => next is Save,
                Login::Save => next is Sync,
                Login::Sync => next is Unlock,
                Login::Unlock => next is Acknowledge,
                Login::Acknowledge | Login::Done => next is Done,
            }),
            outcome matches Err(failure) ==> match self {
                Login::Prepare | Login::Save | Login::Sync | Login::Acknowledge | Login::Done => res
                    matches Err(e) && e@ == failure@,
                Login::Unlock => res matches Err(e) && e@.error == failure@.error && e@.messages
                    == seq!["failed to unlock database"@] + failure@.messages,
                Login::Password(retry) => match retry@.after(failure@) {
                    Ok(again) => res matches Ok(Login::Password(next)) && next@ == again,
                    Err(_) => res matches Err(e) && e@.error == failure@.error && e@.messages
                        == seq![
                        "failed to log in to bitwarden instance"@,
                        "failed to read password from pinentry"@,
                    ] + failure@.messages,
                },
                Login::Server(retry) => match failure.error {
                    Error::NewDeviceVerificationRequired => res matches Ok(Login::DeviceCode(next))
                        && next.attempt is First && next.shown is None,
                    Error::TwoFactorRequired { providers, sso_email_2fa_session_token } => {
                        if providers@.contains(TwoFactorProviderType::Authenticator) {
                            res matches Ok(Login::Code(provider, next)) && provider is Authenticator
                                && next.attempt is First && next.shown is None
                        } else if providers@.contains(TwoFactorProviderType::Yubikey) {
                            res matches Ok(Login::Code(provider, next)) && provider is Yubikey
                                && next.attempt is First && next.shown is None
                        } else if providers@.contains(TwoFactorProviderType::Email) {
                            match sso_email_2fa_session_token {
                                Some(token) => res matches Ok(Login::Email(used)) && used@ == token@,
                                None => res matches Ok(Login::Code(provider, next)) && provider is Email
                                    && next.attempt is First && next.shown is None,
                            }
                        } else {
                            res matches Err(e) && e@.messages == seq![
                                "failed to log in to bitwarden instance"@,
                                "2FA verification failed: "@ + unsupported_message(providers@),
                            ]
                        }
                    },
                    _ => match retry@.after(failure@) {
                        Ok(again) => res matches Ok(Login::Password(next)) && next@ == again,
                        Err(_) => res matches Err(e) && e@.error == failure@.error && e@.messages
                            == seq!["failed to log in to bitwarden instance"@] + failure@.messages,
                    },
                },
                Login::DeviceCode(retry) => match retry@.after(failure@) {
                    Ok(again) => res matches Ok(Login::DeviceCode(next)) && next@ == again,
                    Err(_) => res matches Err(e) && e@.messages == seq![
                        "failed to log in to bitwarden instance"@,
                        "new device verification failed: "@
                            + "failed to read new device verification code from pinentry"@,
                    ],
                },
                Login::DeviceServer(retry) => match retry@.after(failure@) {
                    Ok(again) => res matches Ok(Login::DeviceCode(next)) && next@ == again,
                    Err(_) => res matches Err(e) && e@.messages == seq![
                        "failed to log in to bitwarden instance"@,
                        "new device verification failed: "@ + failure@.shown(),
                    ],
                },
                Login::Email(_) => res matches Err(e) && e@.messages == seq![
                    "failed to log in to bitwarden instance"@,
                    "2FA verification failed: "@ + failure@.shown(),
                ],
                Login::Code(provider, retry) => match retry@.after(failure@) {
                    Ok(again) => res matches Ok(Login::Code(used, next)) && used == provider
                        && next@ == again,
                    Err(_) => res matches Err(e) && e@.messages == seq![
                        "failed to log in to bitwarden instance"@,
                        "2FA verification failed: "@ + "failed to read code from pinentry"@,
                    ],
                },
                Login::CodeServer(provider, retry) => match retry@.after(failure@) {
                    Ok(again) => res matches Ok(Login::Code(used, next)) && used == provider
                        && next@ == again,
                    Err(_) => res matches Err(e) && e@.messages == seq![
                        "failed to log in to bitwarden instance"@,
                        "2FA verification failed: "@ + failure@.shown(),
                    ],
                },
            },
    {
        let failure = match outcome {
            Ok(_) => {
                return Ok(
                    match self {
                        Login::Prepare => Login::Password(Retry::first()),
                        Login::Password(retry) => Login::Server(retry),
                        Login::Server(_) => Login::Save,
                        Login::DeviceCode(retry) => Login::DeviceServer(retry),
                        Login::DeviceServer(_) => Login::Save,
                        Login::Email(_) => Login::Code(
                            TwoFactorProviderType::Email,
                            Retry::first(),
                        ),
                        Login::Code(provider, retry) => Login::CodeServer(provider, retry),
                        Login::CodeServer(_, _) => Login::Save,
                        Login::Save => Login::Sync,
                        Login::Sync => Login::Unlock,
                        Login::Unlock => Login::Acknowledge,
                        Login::Acknowledge => Login::Done,
                        Login::Done => Login::Done,
                    },
                );
            },
            Err(failure) => failure,
        };
        match self {
            Login::Password(retry) => password_again(
                retry,
                failure.context("failed to read password from pinentry"),
            ),
            Login::Server(retry) => match failure.error {
                Error::NewDeviceVerificationRequired => Ok(Login::DeviceCode(Retry::first())),
                Error::TwoFactorRequired { providers, sso_email_2fa_session_token } =>
                    two_factor_required(providers, sso_email_2fa_session_token),
                error => password_again(retry, Failure { error, messages: failure.messages }),
            },
            Login::DeviceCode(retry) => device_code_again(
                retry,
                failure.context("failed to read new device verification code from pinentry"),
            ),
            Login::DeviceServer(retry) => device_code_again(retry, failure),
            Login::Email(_) => Err(final_failure("2FA verification failed: ", failure)),
            Login::Code(provider, retry) => code_again(
                provider,
                retry,
                failure.context("failed to read code from pinentry"),
            ),
            Login::CodeServer(provider, retry) => code_again(provider, retry, failure),
            Login::Unlock => Err(failure.context("failed to unlock database")),
            Login::Prepare | Login::Save | Login::Sync | Login::Acknowledge | Login::Done => Err(
                failure,
            ),
        }
    }
}

/// What a login comes to where the things that it does go like this, one after the other.
pub open spec fn login_run(login: LoginView, outcomes: Seq<Result<(), FailureView>>) -> Result<
    LoginView,
    FailureView,
>
    decreases outcomes.len(),
{
    if outcomes.len() == 0 || login is Done {
        Ok(login)
    } else {
        match login.after(outcomes[0]) {
            Ok(next) => login_run(next, outcomes.skip(1)),
            Err(e) => Err(e),
        }
    }
}

/// Every step brings a login nearer to its end.
pub proof fn law_login_advances(login: LoginView, outcome: Result<(), FailureView>)
    requires
        !(login is Done),
    ensures
        login.after(outcome) matches Ok(next) ==> next.rank() < login.rank(),
{
    law_login_does_things_in_order(login, outcome);
}

/// However it goes, a login comes to an end: it fails, or it is done after as many steps as its
/// rank says, which are never more than 18.
pub proof fn law_login_ends(login: LoginView, outcomes: Seq<Result<(), FailureView>>)
    requires
        outcomes.len() >= login.rank(),
    ensures
        login_run(login, outcomes) is Err || login_run(login, outcomes) == Ok::<
            LoginView,
            FailureView,
        >(LoginView::Done),
        login.rank() <= 18,
    decreases outcomes.len(),
{
    if !(login is Done) {
        law_login_advances(login, outcomes[0]);
        if login.after(outcomes[0]) is Ok {
            law_login_ends(login.after(outcomes[0])->Ok_0, outcomes.skip(1));
        }
    }
}

/// A session is kept only where the server has accepted a login: with the password alone, with
/// the code for a new device, or with the code of a second factor.
pub proof fn law_session_is_kept_only_when_accepted(
    login: LoginView,
    outcome: Result<(), FailureView>,
)
    ensures
        login.after(outcome) == Ok::<LoginView, FailureView>(LoginView::Save) ==> {
            &&& outcome is Ok
            &&& login is Server || login is DeviceServer || login is CodeServer
        },
{
}

/// The program that asked is told that it is done only after the session was saved, the vault
/// was fetched, and the vault was unlocked, in this order.
pub proof fn law_login_is_acknowledged_last(login: LoginView, outcome: Result<(), FailureView>)
    ensures
        login.after(outcome) == Ok::<LoginView, FailureView>(LoginView::Acknowledge) ==> {
            &&& outcome is Ok
            &&& login is Unlock
        },
        login.after(outcome) == Ok::<LoginView, FailureView>(LoginView::Unlock) ==> {
            &&& outcome is Ok
            &&& login is Sync
        },
        login.after(outcome) == Ok::<LoginView, FailureView>(LoginView::Sync) ==> {
            &&& outcome is Ok
            &&& login is Save
        },
{
}

/// The master password is never asked for again once the server has asked for a code.
pub proof fn law_a_failed_code_is_final(login: LoginView, outcome: Result<(), FailureView>)
    requires
        login is DeviceCode || login is DeviceServer || login is Email || login is Code
            || login is CodeServer,
    ensures
        !(login.after(outcome) matches Ok(next) && (next is Password || next is Server
            || next is Prepare)),
{
}

/// A login does a thing only where the thing that belongs before it was done: it asks for the
/// password first, shows the server what was typed and nothing else, asks for a code only where
/// the server wants one, with the second factor that the server offers, and asks again only
/// where an attempt was refused and another is left. A thing that succeeded never fails a login.
pub proof fn law_login_does_things_in_order(login: LoginView, outcome: Result<(), FailureView>)
    ensures
        outcome is Ok ==> login.after(outcome) is Ok,
        login.after(outcome) matches Ok(next) ==> match next {
            LoginView::Prepare => false,
            LoginView::Password(asked) => {
                ||| login is Prepare && outcome is Ok && asked.attempt is First
                ||| outcome is Err && match login {
                    LoginView::Password(retry) => asked.attempt.left() + 1 == retry.attempt.left(),
                    LoginView::Server(retry) => asked.attempt.left() + 1 == retry.attempt.left(),
                    _ => false,
                }
            },
            LoginView::Server(asked) => login == LoginView::Password(asked) && outcome is Ok,
            LoginView::DeviceCode(asked) => outcome matches Err(e) && match login {
                LoginView::Server(_) => e.error is NewDeviceVerificationRequired
                    && asked.attempt is First,
                LoginView::DeviceCode(retry) => asked.attempt.left() + 1 == retry.attempt.left(),
                LoginView::DeviceServer(retry) => asked.attempt.left() + 1 == retry.attempt.left(),
                _ => false,
            },
            LoginView::DeviceServer(asked) => login == LoginView::DeviceCode(asked)
                && outcome is Ok,
            LoginView::Email(token) => login is Server && (outcome matches Err(e) && e.error
                matches ErrorView::TwoFactorRequired { providers, sso_email_2fa_session_token }
                && sso_email_2fa_session_token == Some(token) && providers.contains(
                TwoFactorProviderType::Email,
            ) && !providers.contains(TwoFactorProviderType::Authenticator) && !providers.contains(
                TwoFactorProviderType::Yubikey,
            )),
            LoginView::Code(provider, asked) => match login {
                LoginView::Email(_) => outcome is Ok && provider is Email && asked.attempt is First,
                LoginView::Server(_) => asked.attempt is First && (outcome matches Err(e)
                    && e.error matches ErrorView::TwoFactorRequired { providers, .. }
                    && providers.contains(provider)),
                LoginView::Code(used, retry) => outcome is Err && provider == used
                    && asked.attempt.left() + 1 == retry.attempt.left(),
                LoginView::CodeServer(used, retry) => outcome is Err && provider == used
                    && asked.attempt.left() + 1 == retry.attempt.left(),
                _ => false,
            },
            LoginView::CodeServer(provider, asked) => login == LoginView::Code(provider, asked)
                && outcome is Ok,
            LoginView::Save => (login is Server || login is DeviceServer || login is CodeServer)
                && outcome is Ok,
            LoginView::Sync => login is Save && outcome is Ok,
            LoginView::Unlock => login is Sync && outcome is Ok,
            LoginView::Acknowledge => login is Unlock && outcome is Ok,
            LoginView::Done => (login is Acknowledge || login is Done) && outcome is Ok,
        },
{
}

/// A login that cannot be brought to its end says so, and a login that fails before anything was
/// asked for, or after the session was opened, hands on the failure that it met.
pub proof fn law_failed_logins_say_so(login: LoginView, failure: FailureView)
    ensures
        login.after(Err(failure)) matches Err(e) ==> match login {
            LoginView::Prepare
            | LoginView::Save
            | LoginView::Sync
            | LoginView::Acknowledge
            | LoginView::Done => e == failure,
            LoginView::Unlock => e.error == failure.error && e.shown()
                == "failed to unlock database"@ && e.messages.skip(1) == failure.messages,
            _ => e.shown() == "failed to log in to bitwarden instance"@,
        },
{
    if let Err(e) = login.after(Err(failure)) {
        if login is Unlock {
            assert(e.messages.skip(1) =~= failure.messages);
        }
    }
}

/// Whether a run of a login comes to a step of this kind on its way.
pub open spec fn login_comes_to(
    login: LoginView,
    outcomes: Seq<Result<(), FailureView>>,
    wanted: spec_fn(LoginView, Result<(), FailureView>) -> bool,
) -> bool
    decreases outcomes.len(),
{
    outcomes.len() > 0 && {
        ||| wanted(login, outcomes[0])
        ||| login.after(outcomes[0]) matches Ok(next) && login_comes_to(
            next,
            outcomes.skip(1),
            wanted,
        )
    }
}

/// A login that was needed comes to the point where the program is told only along a run on
/// which the server accepted it, the session was saved, the vault was fetched and it was unlocked.
pub proof fn law_login_is_complete(outcomes: Seq<Result<(), FailureView>>)
    ensures
        login_run(LoginView::start(true), outcomes) matches Ok(end) ==> (end is Acknowledge || end
            is Done) ==> {
            let start = LoginView::start(true);
            &&& login_comes_to(
                start,
                outcomes,
                |login: LoginView, outcome: Result<(), FailureView>|
                    outcome is Ok && (login is Server || login is DeviceServer || login
                        is CodeServer),
            )
            &&& login_comes_to(
                start,
                outcomes,
                |login: LoginView, outcome: Result<(), FailureView>| outcome is Ok && login is Save,
            )
            &&& login_comes_to(
                start,
                outcomes,
                |login: LoginView, outcome: Result<(), FailureView>| outcome is Ok && login is Sync,
            )
            &&& login_comes_to(
                start,
                outcomes,
                |login: LoginView, outcome: Result<(), FailureView>|
                    outcome is Ok && login is Unlock,
            )
        },
{
    let accepted = |login: LoginView, outcome: Result<(), FailureView>|
        outcome is Ok && (login is Server || login is DeviceServer || login is CodeServer);
    let saved = |login: LoginView, outcome: Result<(), FailureView>| outcome is Ok && login is Save;
    let fetched = |login: LoginView, outcome: Result<(), FailureView>|
        outcome is Ok && login is Sync;
    let unlocked = |login: LoginView, outcome: Result<(), FailureView>|
        outcome is Ok && login is Unlock;
    lemma_login_comes_to(LoginView::start(true), outcomes, 4, accepted);
    lemma_login_comes_to(LoginView::start(true), outcomes, 3, saved);
    lemma_login_comes_to(LoginView::start(true), outcomes, 2, fetched);
    lemma_login_comes_to(LoginView::start(true), outcomes, 1, unlocked);
}

/// A run of a login passes a rank only by a step of the kind that leads there.
proof fn lemma_login_comes_to(
    login: LoginView,
    outcomes: Seq<Result<(), FailureView>>,
    rank: nat,
    wanted: spec_fn(LoginView, Result<(), FailureView>) -> bool,
)
    requires
        login.rank() > rank,
        forall|step: LoginView, outcome: Result<(), FailureView>|
            #![trigger step.after(outcome)]
            step.rank() > rank && (step.after(outcome) matches Ok(next) && next.rank() <= rank)
                ==> wanted(step, outcome),
    ensures
        login_run(login, outcomes) matches Ok(end) ==> end.rank() <= rank ==> login_comes_to(
            login,
            outcomes,
            wanted,
        ),
    decreases outcomes.len(),
{
    if outcomes.len() > 0 && !(login is Done) {
        if let Ok(next) = login.after(outcomes[0]) {
            if next.rank() > rank {
                lemma_login_comes_to(next, outcomes.skip(1), rank, wanted);
            }
        }
    }
}

/// What a registration does next.
#[derive(Clone, Debug, PartialEq, Eq)]
pub enum Register {
    /// Find out which host and account it is for.
    Prepare,
    /// Ask for the identifier of the API key.
    ClientId(Retry),
    /// Ask for the secret of the API key.
    ClientSecret(Retry),
    /// Register with the API key.
    Server(Retry),
    /// Tell the program that asked that it is done.
    Acknowledge,
    /// Nothing.
    Done,
}

/// What a [`Register`] says.
#[verifier::ext_equal]
pub enum RegisterView {
    Prepare,
    ClientId(RetryView),
    ClientSecret(RetryView),
    Server(RetryView),
    Acknowledge,
    Done,
}

impl View for Register {
    type V = RegisterView;

    open spec fn view(&self) -> RegisterView {
        match *self {
            Register::Prepare => RegisterView::Prepare,
            Register::ClientId(retry) => RegisterView::ClientId(retry@),
            Register::ClientSecret(retry) => RegisterView::ClientSecret(retry@),
            Register::Server(retry) => RegisterView::Server(retry@),
            Register::Acknowledge => RegisterView::Acknowledge,
            Register::Done => RegisterView::Done,
        }
    }
}

impl RegisterView {
    /// How a registration starts.
    pub open spec fn start(needs_login: bool) -> RegisterView {
        if needs_login {
            RegisterView::Prepare
        } else {
            RegisterView::Acknowledge
        }
    }

    /// The registration after an attempt that failed: it asks for the whole key again, or is
    /// over.
    pub open spec fn again(retry: RetryView, failure: FailureView) -> Result<
        RegisterView,
        FailureView,
    > {
        match retry.after(failure) {
            Ok(next) => Ok(RegisterView::ClientId(next)),
            Err(e) => Err(login_failed(e)),
        }
    }

    /// The registration after its next thing went so.
    pub open spec fn after(self, outcome: Result<(), FailureView>) -> Result<
        RegisterView,
        FailureView,
    > {
        match (self, outcome) {
            (RegisterView::Prepare, Ok(_)) => Ok(RegisterView::ClientId(RetryView::first())),
            (RegisterView::Prepare, Err(e)) => Err(e),
            (RegisterView::ClientId(retry), Ok(_)) => Ok(RegisterView::ClientSecret(retry)),
            (RegisterView::ClientId(retry), Err(e)) => RegisterView::again(
                retry,
                e.context("failed to read client_id from pinentry"@),
            ),
            (RegisterView::ClientSecret(retry), Ok(_)) => Ok(RegisterView::Server(retry)),
            (RegisterView::ClientSecret(retry), Err(e)) => RegisterView::again(
                retry,
                e.context("failed to read client_secret from pinentry"@),
            ),
            (RegisterView::Server(_), Ok(_)) => Ok(RegisterView::Acknowledge),
            (RegisterView::Server(retry), Err(e)) => RegisterView::again(retry, e),
            (RegisterView::Acknowledge, Ok(_)) => Ok(RegisterView::Done),
            (RegisterView::Acknowledge, Err(e)) => Err(e),
            (RegisterView::Done, Ok(_)) => Ok(RegisterView::Done),
            (RegisterView::Done, Err(e)) => Err(e),
        }
    }

    /// An upper bound on how much is still to be done.
    pub open spec fn rank(self) -> nat {
        match self {
            RegisterView::Prepare => 11,
            RegisterView::ClientId(retry) => 4 + 3 * retry.attempt.left(),
            RegisterView::ClientSecret(retry) => 3 + 3 * retry.attempt.left(),
            RegisterView::Server(retry) => 2 + 3 * retry.attempt.left(),
            RegisterView::Acknowledge => 1,
            RegisterView::Done => 0,
        }
    }
}

/// A step of a registration or its failure by its view.
pub open spec fn register_view(res: Result<Register, Failure>) -> Result<
    RegisterView,
    FailureView,
> {
    match res {
        Ok(register) => Ok(register@),
        Err(e) => Err(e@),
    }
}

/// The registration after an attempt that failed.
fn register_again(retry: Retry, failure: Failure) -> (res: Result<Register, Failure>)
    ensures
        register_view(res) == RegisterView::again(retry@, failure@),
{
    match retry.after(failure) {
        Ok(next) => Ok(Register::ClientId(next)),
        Err(e) => Err(e.context("failed to log in to bitwarden instance")),
    }
}

impl Register {
    /// How a registration starts.
    pub fn start(needs_login: bool) -> (res: Register)
        ensures
            res@ == RegisterView::start(needs_login),
            needs_login ==> res is Prepare,
            !needs_login ==> res is Acknowledge,
    {
        if needs_login {
            Register::Prepare
        } else {
            Register::Acknowledge
        }
    }

    /// The registration after its next thing went so.
    pub fn after(self, outcome: Result<(), Failure>) -> (res: Result<Register, Failure>)
        ensures
            register_view(res) == self@.after(step_view(outcome)),
            outcome is Ok ==> (res matches Ok(next) && match self {
                Register::Prepare => next matches Register::ClientId(asked)
                    && asked.attempt is First && asked.shown is None,
                Register::ClientId(retry) => next == Register::ClientSecret(retry),
                Register::ClientSecret(retry) => next == Register::Server(retry),
                Register::Server(_) => next is Acknowledge,
                Register::Acknowledge | Register::Done => next is Done,
            }),
            outcome matches Err(failure) ==> match self {
                Register::Prepare | Register::Acknowledge | Register::Done => res matches Err(e)
                    && e@ == failure@,
                Register::ClientId(retry) => match retry@.after(failure@) {
                    Ok(again) => res matches Ok(Register::ClientId(next)) && next@ == again,
                    Err(_) => res matches Err(e) && e@.error == failure@.error && e@.messages
                        == seq![
                        "failed to log in to bitwarden instance"@,
                        "failed to read client_id from pinentry"@,
                    ] + failure@.messages,
                },
                Register::ClientSecret(retry) => match retry@.after(failure@) {
                    Ok(again) => res matches Ok(Register::ClientId(next)) && next@ == again,
                    Err(_) => res matches Err(e) && e@.error == failure@.error && e@.messages
                        == seq![
                        "failed to log in to bitwarden instance"@,
                        "failed to read client_secret from pinentry"@,
                    ] + failure@.messages,
                },
                Register::Server(retry) => match retry@.after(failure@) {
                    Ok(again) => res matches Ok(Register::ClientId(next)) && next@ == again,
                    Err(_) => res matches Err(e) && e@.error == failure@.error && e@.messages
                        == seq!["failed to log in to bitwarden instance"@] + failure@.messages,
                },
            },
    {
        match (self, outcome) {
            (Register::Prepare, Ok(_)) => Ok(Register::ClientId(Retry::first())),
            (Register::ClientId(retry), Ok(_)) => Ok(Register::ClientSecret(retry)),
            (Register::ClientId(retry), Err(e)) => register_again(
                retry,
                e.context("failed to read client_id from pinentry"),
            ),
            (Register::ClientSecret(retry), Ok(_)) => Ok(Register::Server(retry)),
            (Register::ClientSecret(retry), Err(e)) => register_again(
                retry,
                e.context("failed to read client_secret from pinentry"),
            ),
            (Register::Server(_), Ok(_)) => Ok(Register::Acknowledge),
            (Register::Server(retry), Err(e)) => register_again(retry, e),
            (Register::Acknowledge, Ok(_)) => Ok(Register::Done),
            (Register::Done, Ok(_)) => Ok(Register::Done),
            (Register::Prepare | Register::Acknowledge | Register::Done, Err(e)) => Err(e),
        }
    }
}

/// Every step brings a registration nearer to its end, and it is acknowledged only where the
/// server has accepted it.
pub proof fn law_registration_advances(register: RegisterView, outcome: Result<(), FailureView>)
    requires
        !(register is Done),
    ensures
        register.after(outcome) matches Ok(next) ==> {
            &&& next.rank() < register.rank()
            &&& next is Acknowledge ==> register is Server && outcome is Ok
        },
{
}

/// A registration asks for the identifier, then for the secret, then shows both to the server.
/// Where any of it is refused and an attempt is left, it asks for the identifier again. A thing
/// that succeeded never fails it.
pub proof fn law_registration_does_things_in_order(
    register: RegisterView,
    outcome: Result<(), FailureView>,
)
    ensures
        outcome is Ok ==> register.after(outcome) is Ok,
        register.after(outcome) matches Ok(next) ==> match next {
            RegisterView::Prepare => false,
            RegisterView::ClientId(asked) => {
                ||| register is Prepare && outcome is Ok && asked.attempt is First
                ||| outcome is Err && match register {
                    RegisterView::ClientId(retry) => asked.attempt.left() + 1
                        == retry.attempt.left(),
                    RegisterView::ClientSecret(retry) => asked.attempt.left() + 1
                        == retry.attempt.left(),
                    RegisterView::Server(retry) => asked.attempt.left() + 1
                        == retry.attempt.left(),
                    _ => false,
                }
            },
            RegisterView::ClientSecret(asked) => register == RegisterView::ClientId(asked)
                && outcome is Ok,
            RegisterView::Server(asked) => register == RegisterView::ClientSecret(asked)
                && outcome is Ok,
            RegisterView::Acknowledge => register is Server && outcome is Ok,
            RegisterView::Done => (register is Acknowledge || register is Done) && outcome is Ok,
        },
{
}

/// What a registration comes to where the things that it does go like this, one after the other.
pub open spec fn register_run(
    register: RegisterView,
    outcomes: Seq<Result<(), FailureView>>,
) -> Result<RegisterView, FailureView>
    decreases outcomes.len(),
{
    if outcomes.len() == 0 || register is Done {
        Ok(register)
    } else {
        match register.after(outcomes[0]) {
            Ok(next) => register_run(next, outcomes.skip(1)),
            Err(e) => Err(e),
        }
    }
}

/// However it goes, a registration comes to an end after as many steps as its rank says, which
/// are never more than 11.
pub proof fn law_registration_ends(
    register: RegisterView,
    outcomes: Seq<Result<(), FailureView>>,
)
    requires
        outcomes.len() >= register.rank(),
    ensures
        register_run(register, outcomes) is Err || register_run(register, outcomes) == Ok::<
            RegisterView,
            FailureView,
        >(RegisterView::Done),
        register.rank() <= 11,
    decreases outcomes.len(),
{
    if !(register is Done) {
        law_registration_advances(register, outcomes[0]);
        if register.after(outcomes[0]) is Ok {
            law_registration_ends(register.after(outcomes[0])->Ok_0, outcomes.skip(1));
        }
    }
}

/// What unlocking the vault does next.
#[derive(Clone, Debug, PartialEq, Eq)]
pub enum Unlock {
    /// Ask for the master password.
    Password(Retry),
    /// Unlock the vault with it.
    TryUnlock(Retry),
    /// Nothing.
    Done,
}

/// What an [`Unlock`] says.
#[verifier::ext_equal]
pub enum UnlockView {
    Password(RetryView),
    TryUnlock(RetryView),
    Done,
}

impl View for Unlock {
    type V = UnlockView;

    open spec fn view(&self) -> UnlockView {
        match *self {
            Unlock::Password(retry) => UnlockView::Password(retry@),
            Unlock::TryUnlock(retry) => UnlockView::TryUnlock(retry@),
            Unlock::Done => UnlockView::Done,
        }
    }
}

impl UnlockView {
    /// How unlocking starts.
    pub open spec fn start(needed: bool) -> UnlockView {
        if needed {
            UnlockView::Password(RetryView::first())
        } else {
            UnlockView::Done
        }
    }

    /// Unlocking after an attempt that failed.
    pub open spec fn again(retry: RetryView, failure: FailureView) -> Result<
        UnlockView,
        FailureView,
    > {
        match retry.after(failure) {
            Ok(next) => Ok(UnlockView::Password(next)),
            Err(e) => Err(e.context("failed to unlock database"@)),
        }
    }

    /// Unlocking after its next thing went so.
    pub open spec fn after(self, outcome: Result<(), FailureView>) -> Result<
        UnlockView,
        FailureView,
    > {
        match (self, outcome) {
            (UnlockView::Password(retry), Ok(_)) => Ok(UnlockView::TryUnlock(retry)),
            (UnlockView::Password(retry), Err(e)) => UnlockView::again(
                retry,
                e.context("failed to read password from pinentry"@),
            ),
            (UnlockView::TryUnlock(_), Ok(_)) => Ok(UnlockView::Done),
            (UnlockView::TryUnlock(retry), Err(e)) => UnlockView::again(retry, e),
            (UnlockView::Done, Ok(_)) => Ok(UnlockView::Done),
            (UnlockView::Done, Err(e)) => Err(e),
        }
    }

    /// An upper bound on how much is still to be done.
    pub open spec fn rank(self) -> nat {
        match self {
            UnlockView::Password(retry) => 2 + 2 * retry.attempt.left(),
            UnlockView::TryUnlock(retry) => 1 + 2 * retry.attempt.left(),
            UnlockView::Done => 0,
        }
    }
}

/// A step of unlocking or its failure by its view.
pub open spec fn unlock_view(res: Result<Unlock, Failure>) -> Result<UnlockView, FailureView> {
    match res {
        Ok(unlock) => Ok(unlock@),
        Err(e) => Err(e@),
    }
}

/// Unlocking after an attempt that failed.
fn unlock_again(retry: Retry, failure: Failure) -> (res: Result<Unlock, Failure>)
    ensures
        unlock_view(res) == UnlockView::again(retry@, failure@),
{
    match retry.after(failure) {
        Ok(next) => Ok(Unlock::Password(next)),
        Err(e) => Err(e.context("failed to unlock database")),
    }
}

impl Unlock {
    /// How unlocking starts.
    pub fn start(needed: bool) -> (res: Unlock)
        ensures
            res@ == UnlockView::start(needed),
            needed ==> (res matches Unlock::Password(asked)
                && asked.attempt is First && asked.shown is None),
            !needed ==> res is Done,
    {
        if needed {
            Unlock::Password(Retry::first())
        } else {
            Unlock::Done
        }
    }

    /// Unlocking after its next thing went so.
    pub fn after(self, outcome: Result<(), Failure>) -> (res: Result<Unlock, Failure>)
        ensures
            unlock_view(res) == self@.after(step_view(outcome)),
            outcome is Ok ==> (res matches Ok(next) && match self {
                Unlock::Password(retry) => next == Unlock::TryUnlock(retry),
                Unlock::TryUnlock(_) | Unlock::Done => next is Done,
            }),
            outcome matches Err(failure) ==> match self {
                Unlock::Done => res matches Err(e) && e@ == failure@,
                Unlock::Password(retry) => match retry@.after(failure@) {
                    Ok(again) => res matches Ok(Unlock::Password(next)) && next@ == again,
                    Err(_) => res matches Err(e) && e@.error == failure@.error && e@.messages
                        == seq![
                        "failed to unlock database"@,
                        "failed to read password from pinentry"@,
                    ] + failure@.messages,
                },
                Unlock::TryUnlock(retry) => match retry@.after(failure@) {
                    Ok(again) => res matches Ok(Unlock::Password(next)) && next@ == again,
                    Err(_) => res matches Err(e) && e@.error == failure@.error && e@.messages
                        == seq!["failed to unlock database"@] + failure@.messages,
                },
            },
    {
        match (self, outcome) {
            (Unlock::Password(retry), Ok(_)) => Ok(Unlock::TryUnlock(retry)),
            (Unlock::Password(retry), Err(e)) => unlock_again(
                retry,
                e.context("failed to read password from pinentry"),
            ),
            (Unlock::TryUnlock(_), Ok(_)) => Ok(Unlock::Done),
            (Unlock::TryUnlock(retry), Err(e)) => unlock_again(retry, e),
            (Unlock::Done, Ok(_)) => Ok(Unlock::Done),
            (Unlock::Done, Err(e)) => Err(e),
        }
    }
}

/// Unlocking asks for the password, then tries it, and asks again only where it was refused and
/// an attempt is left. A thing that succeeded never fails it.
pub proof fn law_unlocking_does_things_in_order(
    unlock: UnlockView,
    outcome: Result<(), FailureView>,
)
    ensures
        outcome is Ok ==> unlock.after(outcome) is Ok,
        unlock.after(outcome) matches Ok(next) ==> match next {
            UnlockView::Password(asked) => outcome is Err && match unlock {
                UnlockView::Password(retry) => asked.attempt.left() + 1 == retry.attempt.left(),
                UnlockView::TryUnlock(retry) => asked.attempt.left() + 1 == retry.attempt.left(),
                UnlockView::Done => false,
            },
            UnlockView::TryUnlock(asked) => unlock == UnlockView::Password(asked) && outcome is Ok,
            UnlockView::Done => (unlock is TryUnlock || unlock is Done) && outcome is Ok,
        },
{
}

/// What unlocking comes to where the things that it does go like this, one after the other.
pub open spec fn unlock_run(unlock: UnlockView, outcomes: Seq<Result<(), FailureView>>) -> Result<
    UnlockView,
    FailureView,
>
    decreases outcomes.len(),
{
    if outcomes.len() == 0 || unlock is Done {
        Ok(unlock)
    } else {
        match unlock.after(outcomes[0]) {
            Ok(next) => unlock_run(next, outcomes.skip(1)),
            Err(e) => Err(e),
        }
    }
}

/// However it goes, unlocking comes to an end after three questions and three attempts at most.
pub proof fn law_unlocking_ends(unlock: UnlockView, outcomes: Seq<Result<(), FailureView>>)
    requires
        outcomes.len() >= unlock.rank(),
    ensures
        unlock_run(unlock, outcomes) is Err || unlock_run(unlock, outcomes) == Ok::<
            UnlockView,
            FailureView,
        >(UnlockView::Done),
        unlock.rank() <= 6,
    decreases outcomes.len(),
{
    if !(unlock is Done) {
        law_unlocking_advances(unlock, outcomes[0]);
        if unlock.after(outcomes[0]) is Ok {
            law_unlocking_ends(unlock.after(outcomes[0])->Ok_0, outcomes.skip(1));
        }
    }
}

/// Every step brings unlocking nearer to its end, and the vault is unlocked only with a
/// password that was accepted.
pub proof fn law_unlocking_advances(unlock: UnlockView, outcome: Result<(), FailureView>)
    requires
        !(unlock is Done),
    ensures
        unlock.after(outcome) matches Ok(next) ==> {
            &&& next.rank() < unlock.rank()
            &&& next is Done ==> unlock is TryUnlock && outcome is Ok
        },
{
}

} // verus!
