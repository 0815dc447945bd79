use rbw::agent::{
    decrypt_cipher, decryption_keys, host_of, Agent, Clipboard, Decrypt, DecryptStep, Response,
    Sync, SyncStep,
};
use rbw::error::{Error, Failure};
use rbw::login::{Login, Register, Unlock};
use rbw::retry::Retry;
use rbw::vault::Db;

fn agent() -> Agent {
    Agent {
        db: Db {
            access_token: Some("tok".to_string()),
            refresh_token: Some("ref".to_string()),
            protected_key: None,
            protected_private_key: None,
            protected_org_keys: vec![],
            entries: vec![],
        },
        unlocked: true,
        master_password_reprompt: vec![],
        confirm_ssh: false,
        base_url: "https://vault.example.org:8443/api".to_string(),
        notifications_url: "https://notifications.example.org".to_string(),
    }
}

fn digest_of_abc() -> Vec<u8> {
    vec![
        0xba, 0x78, 0x16, 0xbf, 0x8f, 0x01, 0xcf, 0xea, 0x41, 0x41, 0x40, 0xde, 0x5d, 0xae, 0x22,
        0x23, 0xb0, 0x03, 0x61, 0xa3, 0x96, 0x17, 0x7a, 0x9c, 0xb4, 0x10, 0xff, 0x61, 0xf2, 0x00,
        0x15, 0xad,
    ]
}

fn refused() -> Failure {
    Failure::new(
        Error::IncorrectPassword {
            message: "no".to_string(),
        },
        "no".to_string(),
    )
}

fn broken() -> Failure {
    Failure::other("broken".to_string())
}

#[test]
fn host_of_the_base_url() {
    assert_eq!(agent().get_host(), Ok("vault.example.org".to_string()));
    let hostless = Agent {
        base_url: "data:text/plain,x".to_string(),
        ..agent()
    };
    assert_eq!(
        hostless.get_host().unwrap_err().messages,
        ["couldn't find host in rbw base url data:text/plain,x"]
    );
    let no_url = Agent {
        base_url: "vault".to_string(),
        ..agent()
    };
    assert_eq!(
        no_url.get_host().unwrap_err().messages,
        ["failed to parse base url", "relative URL without a base"]
    );
}

#[test]
fn host_of_a_parsed_url() {
    assert_eq!(host_of("u", Ok(Some("h".to_string()))), Ok("h".to_string()));
    assert_eq!(
        host_of("u", Ok(None)).unwrap_err().messages,
        ["couldn't find host in rbw base url u"]
    );
    assert_eq!(
        host_of("u", Err("e".to_string())).unwrap_err().messages,
        ["failed to parse base url", "e"]
    );
}

#[test]
fn flows_start_where_needed() {
    assert_eq!(agent().login(true), Login::Prepare);
    assert_eq!(agent().login(false), Login::Acknowledge);
    assert_eq!(agent().register(true), Register::Prepare);
    assert_eq!(agent().register(false), Register::Acknowledge);
    assert_eq!(agent().unlock(), Unlock::Done);
    let locked = Agent {
        unlocked: false,
        ..agent()
    };
    assert_eq!(locked.unlock(), Unlock::Password(Retry::first()));
}

#[test]
fn locking() {
    let mut agent = agent();
    assert_eq!(agent.check_lock(), Ok(Response::Ack));
    assert_eq!(agent.lock(), Response::Ack);
    assert!(agent.needs_unlock());
    assert_eq!(
        agent.check_lock(),
        Err(Failure::other("agent is locked".to_string()))
    );
    assert_eq!(agent.db.access_token.as_deref(), Some("tok"));
    agent.set_keys();
    assert_eq!(agent.check_lock(), Ok(Response::Ack));
}

#[test]
fn protected_keys_are_needed_to_unlock() {
    assert_eq!(agent().try_unlock(), Err(Error::UnavailableDbProtectedKeys));
    let mut agent = agent();
    agent.db.protected_key = Some("k".to_string());
    assert_eq!(agent.try_unlock(), Err(Error::UnavailableDbProtectedKeys));
    agent.db.protected_private_key = Some("p".to_string());
    assert_eq!(
        agent.try_unlock(),
        Ok((&"k".to_string(), &"p".to_string(), &vec![]))
    );
}

#[test]
fn sync_in_order() {
    let loaded = Ok((Some("a".to_string()), Some("r".to_string())));
    let sync = agent().sync(loaded, true).unwrap();
    assert_eq!(
        sync.step,
        SyncStep::Fetch {
            access_token: "a".to_string(),
            refresh_token: "r".to_string(),
        }
    );
    let mut step = sync;
    for expected in [
        SyncStep::Save,
        SyncStep::Subscribe,
        SyncStep::Acknowledge,
        SyncStep::Done,
    ] {
        step = step.after(Ok(())).unwrap();
        assert_eq!(step.step, expected);
    }
}

#[test]
fn sync_without_tokens_fails() {
    let token = || Some("t".to_string());
    assert_eq!(
        agent().sync(Ok((None, token())), true),
        Err(Failure::other("failed to find access token in db".to_string()))
    );
    assert_eq!(
        agent().sync(Ok((token(), None)), true),
        Err(Failure::other("failed to find refresh token in db".to_string()))
    );
    assert_eq!(
        agent().sync(Ok((None, None)), true),
        Err(Failure::other("failed to find access token in db".to_string()))
    );
    assert_eq!(agent().sync(Err(broken()), true), Err(broken()));
}

#[test]
fn failed_subscription_does_not_fail_the_sync() {
    let subscribe = |reply: bool| Sync {
        step: SyncStep::Subscribe,
        reply,
    };
    assert_eq!(
        subscribe(true).after(Err(broken())).unwrap().step,
        SyncStep::Acknowledge
    );
    assert_eq!(subscribe(false).after(Err(broken())).unwrap().step, SyncStep::Done);
}

#[test]
fn failed_sync() {
    let step = |step: SyncStep| Sync { step, reply: true };
    let fetch = step(SyncStep::Fetch {
        access_token: "a".to_string(),
        refresh_token: "r".to_string(),
    });
    assert_eq!(
        fetch.after(Err(broken())).unwrap_err().messages,
        ["failed to sync database from server", "broken"]
    );
    assert_eq!(step(SyncStep::Save).after(Err(broken())), Err(broken()));
    assert_eq!(step(SyncStep::Acknowledge).after(Err(broken())), Err(broken()));
}

fn steps(agent: &Agent, mut decrypt: Decrypt) -> Vec<DecryptStep> {
    let mut seen = vec![decrypt.step.clone()];
    while decrypt.step != DecryptStep::Done {
        decrypt = decrypt.after(agent, Ok(())).unwrap();
        seen.push(decrypt.step.clone());
    }
    seen
}

#[test]
fn decryption_in_order() {
    let agent = agent();
    assert_eq!(
        steps(&agent, agent.decrypt("abc", None)),
        [
            DecryptStep::Initialize,
            DecryptStep::FindKeys,
            DecryptStep::Parse,
            DecryptStep::Decrypt,
            DecryptStep::Done
        ]
    );
    assert_eq!(
        steps(&agent, agent.decrypt("abc", Some("key"))),
        [
            DecryptStep::Initialize,
            DecryptStep::FindKeys,
            DecryptStep::ParseEntryKey,
            DecryptStep::DecryptEntryKey,
            DecryptStep::Parse,
            DecryptStep::Decrypt,
            DecryptStep::Done
        ]
    );
}

#[test]
fn marked_secrets_take_the_password() {
    let agent = Agent {
        master_password_reprompt: vec![vec![1; 32], digest_of_abc()],
        ..agent()
    };
    assert!(agent.maybe_reprompt_password("abc"));
    assert!(!agent.maybe_reprompt_password("abd"));
    assert!(agent.is_marked(&[1; 32]));
    assert!(!agent.is_marked(b"abc"));
    let reprompt = |unlock: Unlock| DecryptStep::Reprompt(unlock);
    assert_eq!(
        steps(&agent, agent.decrypt("abc", None)),
        [
            DecryptStep::Initialize,
            DecryptStep::FindKeys,
            reprompt(Unlock::Password(Retry::first())),
            reprompt(Unlock::TryUnlock(Retry::first())),
            DecryptStep::Parse,
            DecryptStep::Decrypt,
            DecryptStep::Done
        ]
    );
    assert!(!steps(&agent, agent.decrypt("abd", None))
        .iter()
        .any(|step| matches!(step, DecryptStep::Reprompt(_))));
}

#[test]
fn refused_password_is_asked_for_again_before_a_secret() {
    let at = |unlock: Unlock| Decrypt {
        cipherstring: "abc".to_string(),
        has_entry_key: false,
        step: DecryptStep::Reprompt(unlock),
    };
    let again = at(Unlock::TryUnlock(Retry::first()))
        .after_step(true, Err(refused()))
        .unwrap();
    assert!(matches!(again.step, DecryptStep::Reprompt(Unlock::Password(_))));
    let failure = at(Unlock::Password(Retry::first()))
        .after_step(true, Err(broken()))
        .unwrap_err();
    assert_eq!(
        failure.messages,
        [
            "failed to unlock database",
            "failed to read password from pinentry",
            "broken"
        ]
    );
}

#[test]
fn failed_decryption() {
    let messages = |step: DecryptStep| {
        let decrypt = Decrypt {
            cipherstring: "abc".to_string(),
            has_entry_key: true,
            step,
        };
        decrypt.after_step(false, Err(broken())).unwrap_err().messages
    };
    assert_eq!(messages(DecryptStep::FindKeys), ["broken"]);
    assert_eq!(
        messages(DecryptStep::ParseEntryKey),
        ["failed to parse individual item encryption key", "broken"]
    );
    assert_eq!(
        messages(DecryptStep::DecryptEntryKey),
        ["failed to decrypt individual item encryption key", "broken"]
    );
    assert_eq!(
        messages(DecryptStep::Parse),
        ["failed to parse encrypted secret", "broken"]
    );
    assert_eq!(
        messages(DecryptStep::Decrypt),
        ["failed to decrypt encrypted secret", "broken"]
    );
}

#[test]
fn keys_are_needed_to_decrypt() {
    assert_eq!(decryption_keys(true), Ok(()));
    assert_eq!(
        decryption_keys(false).unwrap_err().messages,
        ["failed to find decryption keys in in-memory state"]
    );
}

#[test]
fn decrypted_secrets_are_text() {
    assert_eq!(
        decrypt_cipher("gehe\u{ef}m".as_bytes(), "x".to_string()),
        Ok("gehe\u{ef}m".to_string())
    );
    assert_eq!(
        decrypt_cipher(b"\xff", "invalid utf-8".to_string()).unwrap_err().messages,
        ["failed to parse decrypted secret", "invalid utf-8"]
    );
}

#[test]
fn decrypted_secrets_are_sent() {
    assert_eq!(
        agent().decrypted(Ok("secret".to_string())),
        Ok(Response::Decrypt {
            plaintext: "secret".to_string()
        })
    );
    assert_eq!(agent().decrypted(Err(broken())), Err(broken()));
}

#[test]
fn encryption() {
    assert_eq!(
        agent().encrypt(Some(Ok("2.x".to_string()))),
        Ok(Response::Encrypt {
            cipherstring: "2.x".to_string()
        })
    );
    assert_eq!(
        agent().encrypt(None).unwrap_err().messages,
        ["failed to find encryption keys in in-memory state"]
    );
    assert_eq!(
        agent().encrypt(Some(Err(broken()))).unwrap_err().messages,
        ["failed to encrypt plaintext secret", "broken"]
    );
}

#[test]
fn clipboard() {
    assert_eq!(
        agent().clipboard_store(Clipboard::Unsupported),
        Ok(Response::Error {
            error: "clipboard not supported".to_string()
        })
    );
    assert_eq!(agent().clipboard_store(Clipboard::Missing), Ok(Response::Ack));
    assert_eq!(agent().clipboard_store(Clipboard::Stored), Ok(Response::Ack));
    assert_eq!(
        agent()
            .clipboard_store(Clipboard::Failed("busy".to_string()))
            .unwrap_err()
            .messages,
        ["couldn't store value to clipboard: busy"]
    );
}

#[test]
fn notifications() {
    assert_eq!(agent().subscribe_to_notifications(true), Ok(None));
    assert_eq!(
        agent().subscribe_to_notifications(false),
        Ok(Some(
            "wss://notifications.example.org/hub?access_token=tok".to_string()
        ))
    );
    let mut agent = agent();
    agent.notifications_url = "http://h/https://x".to_string();
    assert_eq!(
        agent.subscribe_to_notifications(false),
        Ok(Some("http://h/wss://x/hub?access_token=tok".to_string()))
    );
    agent.db.access_token = None;
    assert_eq!(
        agent.subscribe_to_notifications(false).unwrap_err().messages,
        ["Error getting access token"]
    );
}
