use rbw::api::TwoFactorProviderType;
use rbw::api::TwoFactorProviderType::{
    Authenticator, Duo, Email, OrganizationDuo, Remember, U2f, WebAuthn, Yubikey,
};
use rbw::error::{Error, Failure};
use rbw::login::{
    choose_provider, two_factor_required, unsupported_two_factor, Login, Register, Unlock,
};
use rbw::prompt::{code_text, Prompt};
use rbw::retry::{Attempt, Retry};

fn refused(message: &str) -> Failure {
    Failure::new(
        Error::IncorrectPassword {
            message: message.to_string(),
        },
        message.to_string(),
    )
}

fn cancelled() -> Failure {
    Failure::new(Error::PinentryCancelled, "pinentry cancelled".to_string())
}

fn wants_second_factor(
    providers: &[TwoFactorProviderType],
    token: Option<&str>,
) -> Failure {
    Failure::new(
        Error::TwoFactorRequired {
            providers: providers.to_vec(),
            sso_email_2fa_session_token: token.map(str::to_string),
        },
        "two factor required".to_string(),
    )
}

fn wants_new_device_code() -> Failure {
    Failure::new(
        Error::NewDeviceVerificationRequired,
        "new device verification required".to_string(),
    )
}

fn retry(attempt: Attempt, shown: &str) -> Retry {
    Retry {
        attempt,
        shown: Some(shown.to_string()),
    }
}

#[test]
fn failures_carry_their_messages() {
    let failure = Failure::other("inner".to_string()).context("middle").context("outer");
    assert_eq!(failure.messages, ["outer", "middle", "inner"]);
    assert_eq!(failure.shown(), "outer");
    assert_eq!(failure.chain(), "outer: middle: inner");
    assert_eq!(Failure::other("alone".to_string()).chain(), "alone");
    assert_eq!(
        failure.error,
        Error::Other {
            message: "inner".to_string()
        }
    );
}

#[test]
fn refused_passwords_are_asked_for_three_times() {
    let second = Retry::first().after(refused("wrong")).unwrap();
    assert_eq!(second, retry(Attempt::Second, "wrong (attempt 2/3)"));
    let last = second.after(refused("still wrong")).unwrap();
    assert_eq!(last, retry(Attempt::Last, "still wrong (attempt 3/3)"));
    assert_eq!(last.after(refused("enough")), Err(refused("enough")));
}

#[test]
fn refused_codes_are_asked_for_again() {
    assert_eq!(
        Retry::first().after(wants_second_factor(&[], None)),
        Ok(retry(Attempt::Second, "TOTP code is not a number (attempt 2/3)"))
    );
}

#[test]
fn other_failures_are_final() {
    assert_eq!(Retry::first().after(cancelled()), Err(cancelled()));
    let told = refused("wrong").context("context");
    assert!(Retry::first().after(told).is_ok());
}

#[test]
fn first_supported_provider_is_chosen() {
    assert_eq!(choose_provider(&vec![Email, Yubikey, Authenticator]), Some(Authenticator));
    assert_eq!(choose_provider(&vec![Email, Yubikey]), Some(Yubikey));
    assert_eq!(choose_provider(&vec![Duo, Email]), Some(Email));
    assert_eq!(choose_provider(&vec![Duo, WebAuthn]), None);
    assert_eq!(choose_provider(&vec![]), None);
}

#[test]
fn unsupported_providers_are_named() {
    assert_eq!(unsupported_two_factor(&vec![]), "unsupported two factor methods: []");
    assert_eq!(
        unsupported_two_factor(&vec![Duo, U2f, WebAuthn]),
        "unsupported two factor methods: [Duo, U2f, WebAuthn]"
    );
    assert_eq!(
        unsupported_two_factor(&vec![Authenticator, Email, Yubikey, Remember, OrganizationDuo]),
        "unsupported two factor methods: \
         [Authenticator, Email, Yubikey, Remember, OrganizationDuo]"
    );
}

fn run(mut login: Login, steps: usize) -> Login {
    for _ in 0..steps {
        login = login.after(Ok(())).unwrap();
    }
    login
}

#[test]
fn login_with_the_password_alone() {
    let mut login = Login::start(true);
    let expected = [
        Login::Prepare,
        Login::Password(Retry::first()),
        Login::Server(Retry::first()),
        Login::Save,
        Login::Sync,
        Login::Unlock,
        Login::Acknowledge,
        Login::Done,
        Login::Done,
    ];
    for step in expected {
        assert_eq!(login, step);
        login = login.after(Ok(())).unwrap();
    }
}

#[test]
fn login_with_a_session_is_only_acknowledged() {
    assert_eq!(Login::start(false), Login::Acknowledge);
    assert_eq!(run(Login::start(false), 1), Login::Done);
}

#[test]
fn refused_login_asks_again() {
    let mut login = run(Login::start(true), 2);
    for shown in ["no (attempt 2/3)", "no (attempt 3/3)"] {
        login = login.after(Err(refused("no"))).unwrap();
        let Login::Password(again) = &login else {
            panic!("the password is not asked for");
        };
        assert_eq!(again.shown.as_deref(), Some(shown));
        login = login.after(Ok(())).unwrap();
    }
    let failure = login.after(Err(refused("no"))).unwrap_err();
    assert_eq!(failure.messages, ["failed to log in to bitwarden instance", "no"]);
    assert!(matches!(failure.error, Error::IncorrectPassword { .. }));
}

#[test]
fn dismissed_question_ends_the_login() {
    let failure = run(Login::start(true), 1).after(Err(cancelled())).unwrap_err();
    assert_eq!(
        failure.messages,
        [
            "failed to log in to bitwarden instance",
            "failed to read password from pinentry",
            "pinentry cancelled"
        ]
    );
    assert_eq!(failure.error, Error::PinentryCancelled);
}

#[test]
fn login_with_an_authenticator() {
    let login = run(Login::start(true), 2)
        .after(Err(wants_second_factor(
            &[Email, Authenticator],
            Some("token"),
        )))
        .unwrap();
    assert_eq!(
        login,
        Login::Code(Authenticator, Retry::first())
    );
    let login = run(login, 1);
    assert_eq!(
        login,
        Login::CodeServer(Authenticator, Retry::first())
    );
    assert_eq!(run(login, 1), Login::Save);
}

#[test]
fn login_with_a_mailed_code() {
    let providers = vec![Email];
    let login = two_factor_required(providers.clone(), Some("token".to_string())).unwrap();
    assert_eq!(login, Login::Email("token".to_string()));
    assert_eq!(
        run(login, 1),
        Login::Code(Email, Retry::first())
    );
    assert_eq!(
        two_factor_required(providers, None),
        Ok(Login::Code(Email, Retry::first()))
    );
}

#[test]
fn unsupported_second_factor_ends_the_login() {
    let failure = run(Login::start(true), 2)
        .after(Err(wants_second_factor(&[Duo], None)))
        .unwrap_err();
    assert_eq!(
        failure.messages,
        [
            "failed to log in to bitwarden instance",
            "2FA verification failed: unsupported two factor methods: [Duo]"
        ]
    );
}

#[test]
fn mail_that_cannot_be_sent_ends_the_login() {
    let failure = Login::Email("token".to_string())
        .after(Err(Failure::other("no mail".to_string())))
        .unwrap_err();
    assert_eq!(
        failure.messages,
        [
            "failed to log in to bitwarden instance",
            "2FA verification failed: no mail"
        ]
    );
}

#[test]
fn refused_code_asks_for_the_code_again() {
    let provider = Authenticator;
    let mut login = Login::CodeServer(provider, Retry::first());
    login = login.after(Err(wants_second_factor(&[provider], None))).unwrap();
    assert_eq!(
        login,
        Login::Code(
            provider,
            retry(Attempt::Second, "TOTP code is not a number (attempt 2/3)")
        )
    );
    login = run(login, 1).after(Err(refused("bad"))).unwrap();
    let failure = run(login, 1).after(Err(refused("bad"))).unwrap_err();
    assert_eq!(
        failure.messages,
        [
            "failed to log in to bitwarden instance",
            "2FA verification failed: bad"
        ]
    );
    assert!(matches!(failure.error, Error::Other { .. }));
}

#[test]
fn dismissed_code_ends_the_login() {
    let failure = Login::Code(Yubikey, Retry::first())
        .after(Err(cancelled()))
        .unwrap_err();
    assert_eq!(
        failure.messages,
        [
            "failed to log in to bitwarden instance",
            "2FA verification failed: failed to read code from pinentry"
        ]
    );
}

#[test]
fn login_from_a_new_device() {
    let login = run(Login::start(true), 2).after(Err(wants_new_device_code())).unwrap();
    assert_eq!(login, Login::DeviceCode(Retry::first()));
    let login = run(login, 1);
    assert_eq!(login, Login::DeviceServer(Retry::first()));
    let again = login.after(Err(refused("bad code"))).unwrap();
    assert_eq!(
        again,
        Login::DeviceCode(retry(Attempt::Second, "bad code (attempt 2/3)"))
    );
    assert_eq!(run(again, 2), Login::Save);
    let failure = Login::DeviceCode(Retry::first()).after(Err(cancelled())).unwrap_err();
    assert_eq!(
        failure.messages,
        [
            "failed to log in to bitwarden instance",
            "new device verification failed: \
             failed to read new device verification code from pinentry"
        ]
    );
}

#[test]
fn late_failures_end_the_login() {
    for login in [Login::Prepare, Login::Save, Login::Sync, Login::Acknowledge] {
        assert_eq!(login.after(Err(cancelled())), Err(cancelled()));
    }
    let failure = Login::Unlock.after(Err(refused("x"))).unwrap_err();
    assert_eq!(failure.messages, ["failed to unlock database", "x"]);
}

#[test]
fn login_takes_eighteen_steps_at_most() {
    let provider = Email;
    let mut login = Login::start(true);
    let mut steps = 0;
    while login != Login::Done {
        let outcome = match &login {
            Login::Server(retry) if retry.attempt == Attempt::Last => {
                Err(wants_second_factor(&[provider], Some("token")))
            }
            Login::Server(_) => Err(refused("x")),
            Login::CodeServer(_, retry) if retry.attempt != Attempt::Last => Err(refused("x")),
            _ => Ok(()),
        };
        login = login.after(outcome).unwrap();
        steps += 1;
    }
    assert_eq!(steps, 18);
}

#[test]
fn registration() {
    let mut register = Register::start(true);
    for step in [
        Register::Prepare,
        Register::ClientId(Retry::first()),
        Register::ClientSecret(Retry::first()),
        Register::Server(Retry::first()),
        Register::Acknowledge,
        Register::Done,
    ] {
        assert_eq!(register, step);
        register = register.after(Ok(())).unwrap();
    }
    assert_eq!(Register::start(false), Register::Acknowledge);
}

#[test]
fn refused_registration_asks_for_the_whole_key() {
    let again = Register::Server(Retry::first()).after(Err(refused("no"))).unwrap();
    assert_eq!(again, Register::ClientId(retry(Attempt::Second, "no (attempt 2/3)")));
    let failure = Register::ClientSecret(Retry::first()).after(Err(cancelled())).unwrap_err();
    assert_eq!(
        failure.messages,
        [
            "failed to log in to bitwarden instance",
            "failed to read client_secret from pinentry",
            "pinentry cancelled"
        ]
    );
    let failure = Register::ClientId(Retry::first()).after(Err(cancelled())).unwrap_err();
    assert_eq!(failure.messages[1], "failed to read client_id from pinentry");
    assert_eq!(Register::Prepare.after(Err(cancelled())), Err(cancelled()));
}

#[test]
fn unlocking() {
    assert_eq!(Unlock::start(false), Unlock::Done);
    let unlock = Unlock::start(true).after(Ok(())).unwrap();
    assert_eq!(unlock, Unlock::TryUnlock(Retry::first()));
    assert_eq!(unlock.after(Ok(())), Ok(Unlock::Done));
    let again = Unlock::TryUnlock(Retry::first()).after(Err(refused("no"))).unwrap();
    assert_eq!(again, Unlock::Password(retry(Attempt::Second, "no (attempt 2/3)")));
    let failure = again.after(Err(cancelled())).unwrap_err();
    assert_eq!(
        failure.messages,
        [
            "failed to unlock database",
            "failed to read password from pinentry",
            "pinentry cancelled"
        ]
    );
}

#[test]
fn questions_for_secrets() {
    let id = Prompt::client_id("host", None);
    assert_eq!(
        id.getpin(),
        [
            "SETTITLE rbw",
            "SETPROMPT Log in to host",
            "SETDESC API key client__id",
            "GETPIN"
        ]
    );
    assert!(!id.grab);
    let secret = Prompt::client_secret("host", Some("no (attempt 2/3)".to_string()));
    assert_eq!(
        secret.getpin(),
        [
            "SETTITLE rbw",
            "SETPROMPT Log in to host",
            "SETDESC API key client__secret",
            "SETERROR no (attempt 2/3)",
            "GETPIN"
        ]
    );
    let password = Prompt::login_password("host", None);
    assert_eq!(password.prompt, "Log in to host");
    assert_eq!(password.desc, "Master Password");
    assert!(password.grab);
    assert_eq!(
        Prompt::unlock_password("rbw-work", None).prompt,
        "Unlock the local database for 'rbw-work'"
    );
    assert_eq!(
        Prompt::reprompt_password(None).prompt,
        "Accessing this entry requires the master password"
    );
    let code = Prompt::code("Email Code", "Enter the code.", false, None);
    assert_eq!((code.desc.as_str(), code.prompt.as_str()), ("Email Code", "Enter the code."));
    assert!(!code.grab);
    let otp = Prompt::new_device_otp(None);
    assert_eq!(otp.desc, "New Device Verification");
    assert_eq!(
        otp.prompt,
        "Enter the code that was emailed to you to verify this device."
    );
}

#[test]
fn codes_are_text() {
    assert_eq!(code_text(b"123456", "x".to_string()), Ok("123456".to_string()));
    let failure = code_text(b"\xff", "invalid utf-8 sequence".to_string()).unwrap_err();
    assert_eq!(
        failure.messages,
        ["code was not valid utf8", "invalid utf-8 sequence"]
    );
    assert_eq!(failure.error, Error::InvalidUtf8);
}
