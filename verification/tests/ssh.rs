use rbw::agent::{Agent, Entry, EntryData};
use rbw::crypto::PrivateKey;
use rbw::error::{Error, Failure};
use rbw::ssh_agent::{
    with_algorithm, AgentError, Signature, SignatureAlgorithm, Signing, SshAgent, SshIdentity,
};
use rbw::ssh_keys::{compare_key, compare_text, found_key, found_text, KeySearch, Secret};
use rbw::vault::Db;

const ED25519: &[&str] = &[
    "b3BlbnNzaC1rZXktdjEAAAAABG5vbmUAAAAEbm9uZQAAAAAAAAABAAAAMwAAAAtzc2gtZW",
    "QyNTUxOQAAACCFujT49KfvCIr/X9Px4TyAdXirfdpdXkyUFkIkHkYkKgAAAJCoS9miqEvZ",
    "ogAAAAtzc2gtZWQyNTUxOQAAACCFujT49KfvCIr/X9Px4TyAdXirfdpdXkyUFkIkHkYkKg",
    "AAAEB4VGVz5KWuPY3rE9YIVqsngcCWU8f86UbQM4gaSehL0YW6NPj0p+8Iiv9f0/HhPIB1",
    "eKt92l1eTJQWQiQeRiQqAAAAB2VkQHRlc3QBAgMEBQY=",
];

const RSA: &[&str] = &[
    "b3BlbnNzaC1rZXktdjEAAAAABG5vbmUAAAAEbm9uZQAAAAAAAAABAAAAlwAAAAdzc2gtcn",
    "NhAAAAAwEAAQAAAIEAtukVDQn28Pv0gq550Sh8Tp1PRcVn7zQOpQHG/Eftqet/59yRX2A5",
    "kwyw1tkzRX8Am8FfrhKVfyfQAeojsYKJq7mslSf9zv7Izaz89MqMxtkbhxyWPgZeJd4RAr",
    "Rr9aC3BTgggutOpKHxxQVvbe4xmquZ0uCKl1p1VrpaNl3g2rUAAAIAagl6OGoJejgAAAAH",
    "c3NoLXJzYQAAAIEAtukVDQn28Pv0gq550Sh8Tp1PRcVn7zQOpQHG/Eftqet/59yRX2A5kw",
    "yw1tkzRX8Am8FfrhKVfyfQAeojsYKJq7mslSf9zv7Izaz89MqMxtkbhxyWPgZeJd4RArRr",
    "9aC3BTgggutOpKHxxQVvbe4xmquZ0uCKl1p1VrpaNl3g2rUAAAADAQABAAAAgF5o0k/Hm+",
    "lo8xzct83IqtjdA4TMzse9w+1RjIa9DaQOBRgFVhe3kCAhhclvlLJDSmoalqs/tmBKiWfj",
    "lYbTDQFxrmn79vNUK7Zosbx4UfpS3mqEuACMXHIBmWl4aOKfh/aOqSE3Pqi87EZDmbhsqY",
    "0pvBc58Waq9RCH54bgpCeFAAAAQQCOyqqRBuNCUYte0Ur3YxxgTxozaMv+eXkp7FYhNlSj",
    "AIbQyQzJeI8JB498WPipRkC/i61uPIetBGtqO4qBRd64AAAAQQDgVBjHhfi/P1ZmnjPbT0",
    "WYTrxvPkEndBZj39s3s5qOZZZzMg28lX+ad1C93ajXxsi7+6fcBY6gai1Io6aSml/PAAAA",
    "QQDQvAOa6HfQlVnJhWTqcFVvn+k4YKiZZyum/503D/RECt5mH3nhHXrxgjHdTQHwNP+Tcj",
    "yPUXBfzkY3uEBBAlo7AAAACHJzYUB0ZXN0AQI=",
];

const ECDSA: &[&str] = &[
    "b3BlbnNzaC1rZXktdjEAAAAABG5vbmUAAAAEbm9uZQAAAAAAAAABAAAAaAAAABNlY2RzYS",
    "1zaGEyLW5pc3RwMjU2AAAACG5pc3RwMjU2AAAAQQTrGqt7Ii++v8RqvPpuSwAAGNfQatGj",
    "DR7p4mJxD7sNwDkrveJrAhxNJvdqYnDPiO5ZnkydW6aYDOfSfEh6RRVlAAAAoCrnNkMq5z",
    "ZDAAAAE2VjZHNhLXNoYTItbmlzdHAyNTYAAAAIbmlzdHAyNTYAAABBBOsaq3siL76/xGq8",
    "+m5LAAAY19Bq0aMNHuniYnEPuw3AOSu94msCHE0m92picM+I7lmeTJ1bppgM59J8SHpFFW",
    "UAAAAhAK6XUak8lcM6gtsWW9oh+eYt+FUADHh5rCLxmZvucOI9AAAAB2VjQHRlc3Q=",
];

const ED25519_PUBLIC: &str =
    "ssh-ed25519 AAAAC3NzaC1lZDI1NTE5AAAAIIW6NPj0p+8Iiv9f0/HhPIB1eKt92l1eTJQWQiQeRiQq ed@test";

const RSA_PUBLIC: &str = "ssh-rsa AAAAB3NzaC1yc2EAAAADAQABAAAAgQC26RUNCfbw+/SCrnnRKHxOnU9FxWfvNA6lAcb8R+2p63/n3JFfYDmTDLDW2TNFfwCbwV+uEpV/J9AB6iOxgomruayVJ/3O/sjNrPz0yozG2RuHHJY+Bl4l3hECtGv1oLcFOCCC606kofHFBW9t7jGaq5nS4IqXWnVWulo2XeDatQ== rsa@test";

const DATA: &[u8] = b"data to sign";

fn openssh(body: &[&str]) -> String {
    let label = "OPENSSH PRIVATE KEY";
    let mut text = format!("-----BEGIN {label}-----\n");
    for line in body {
        text.push_str(line);
        text.push('\n');
    }
    text + &format!("-----END {label}-----\n")
}

fn hex(bytes: &[u8]) -> String {
    bytes.iter().map(|b| format!("{b:02x}")).collect()
}

fn agent(entries: Vec<Entry>, confirm_ssh: bool) -> Agent {
    Agent {
        db: Db {
            access_token: None,
            refresh_token: None,
            protected_key: None,
            protected_private_key: None,
            protected_org_keys: vec![],
            entries,
        },
        unlocked: true,
        master_password_reprompt: vec![],
        confirm_ssh,
        base_url: "https://api.example.org".to_string(),
        notifications_url: "https://notifications.example.org".to_string(),
    }
}

fn ssh_entry(public: Option<&str>, private: Option<&str>, key: Option<&str>) -> Entry {
    Entry {
        key: key.map(str::to_string),
        org_id: None,
        data: EntryData::SshKey {
            public_key: public.map(str::to_string),
            private_key: private.map(str::to_string),
        },
    }
}

fn secret(cipherstring: &str, entry_key: Option<&str>) -> Secret {
    Secret {
        cipherstring: cipherstring.to_string(),
        entry_key: entry_key.map(str::to_string),
        org_id: None,
    }
}

fn sign(key: &PrivateKey, data: &[u8], flags: u32) -> Result<Signature, AgentError> {
    SshAgent::sign(&Signing::Ready(key.clone()), data, flags)
}

fn other(message: &str) -> AgentError {
    AgentError::Other {
        message: message.to_string(),
    }
}

#[test]
fn ed25519_signature_is_deterministic() {
    let key = found_text(&openssh(ED25519)).unwrap();
    let signature = sign(&key, DATA, 0).unwrap();
    assert_eq!(signature.algorithm, "ssh-ed25519");
    assert_eq!(
        hex(&signature.bytes),
        "d60076f2418b5f4d32a5c4c77d0ba1b5c3ac3563816d1aedb52ab7f0f750f54bff3ac4d9cdf4e77e8f9f7474ad7ff7aa3cb74cb096b8287813d5e8977d79f00c"
    );
    assert_eq!(sign(&key, DATA, 6), Ok(signature));
}

#[test]
fn rsa_signature_with_sha512() {
    let key = found_text(&openssh(RSA)).unwrap();
    let signature = sign(&key, DATA, 4).unwrap();
    assert_eq!(signature.algorithm, "rsa-sha2-512");
    assert_eq!(
        hex(&signature.bytes),
        "164ebeae46a147d79acb5ba545793fc85fa3371b0d31dd066134a4cbf71dc0a5bc9c4d41439b9cae0c14a615dd469bcd29a5fa7e715b0f4707b8268c02c22c861540eed64c45d8791252c76d4b443bc612fa4e27c72b5a0c012ac10e3199948a2df5704b81705f8a6b04cf45d95910f2727426f40804736f2d537d7b3923feae"
    );
}

#[test]
fn rsa_signature_with_sha256() {
    let key = found_text(&openssh(RSA)).unwrap();
    let signature = sign(&key, DATA, 2).unwrap();
    assert_eq!(signature.algorithm, "rsa-sha2-256");
    assert_eq!(
        hex(&signature.bytes),
        "33f30a7ca5733d67be22fe3fd67442f259bc34191b4c83fa15d0b307b926c56d328d07724ddfc8e76da48e4bdc35903f962bbb50fd1cf540250378c514553c96cab5c632a35272ff37ede7ef9b1445b7291ec9785f8f30c0c91cc422d41701c4ea4e18a29eb50f4be80f69b527d512d8ad56d84b7a37f8ead06244a2238246a7"
    );
}

#[test]
fn rsa_signature_without_flags_is_refused() {
    let key = found_text(&openssh(RSA)).unwrap();
    assert_eq!(sign(&key, DATA, 0), Err(other("length invalid")));
    assert_eq!(sign(&key, DATA, 1), Err(other("length invalid")));
}

#[test]
fn rsa_signature_prefers_sha512() {
    let key = found_text(&openssh(RSA)).unwrap();
    let both = sign(&key, DATA, 6);
    assert_eq!(both, sign(&key, DATA, 4));
    assert_eq!(both.unwrap().algorithm, "rsa-sha2-512");
}

#[test]
fn rsa_key_of_equal_factors_is_refused() {
    let key = PrivateKey::Rsa {
        p: vec![7],
        q: vec![7],
        e: vec![1, 0, 1],
    };
    assert!(key.is_usable());
    for flags in [0, 2, 4] {
        assert_eq!(sign(&key, DATA, flags), Err(other("invalid prime value")));
    }
}

#[test]
fn rsa_key_of_unlike_factors_is_not_usable() {
    let key = |p: Vec<u8>, q: Vec<u8>| PrivateKey::Rsa { p, q, e: vec![3] };
    assert!(!key(vec![], vec![7]).is_usable());
    assert!(!key(vec![7], vec![0, 0]).is_usable());
    assert!(key(vec![0], vec![]).is_usable());
    assert!(key(vec![0, 5], vec![7]).is_usable());
    assert!(key(vec![3], vec![0, 1, 1]).is_usable());
    assert!(key(vec![1; 9], vec![3]).is_usable());
    assert!(key(vec![3], vec![1, 0xff, 0xff, 0xff]).is_usable());
    assert!(key(vec![3], vec![0, 3, 0, 0, 0, 0]).is_usable());
    assert!(!key(vec![3], vec![3, 0, 0, 0, 1]).is_usable());
    assert!(!key(vec![0, 0, 3], vec![4, 0, 0, 0, 0]).is_usable());
    assert!(!key(vec![0xff, 0xff], vec![1, 0, 0, 0, 0, 0, 0]).is_usable());
    assert!(PrivateKey::Ed25519 { keypair: [0; 64] }.is_usable());
}

#[test]
fn other_keys_cannot_sign() {
    let key = found_text(&openssh(ECDSA)).unwrap();
    let PrivateKey::Unsupported { description } = &key else {
        panic!("not an unsupported key");
    };
    assert!(description.contains("Ecdsa"));
    assert_eq!(
        sign(&key, DATA, 0),
        Err(other(&format!("Unsupported key type: {description}")))
    );
}

#[test]
fn ed25519_pair_that_does_not_match_cannot_sign() {
    let key = PrivateKey::Ed25519 { keypair: [1; 64] };
    assert!(matches!(sign(&key, DATA, 0), Err(AgentError::Other { .. })));
}

#[test]
fn private_keys_are_read() {
    assert!(matches!(found_text(&openssh(ED25519)), Ok(PrivateKey::Ed25519 { .. })));
    let Ok(PrivateKey::Rsa { e, p, q }) = found_text(&openssh(RSA)) else {
        panic!("not an RSA key");
    };
    assert_eq!(e, [1, 0, 1]);
    assert_eq!((p.len(), q.len()), (65, 65));
    assert!(found_text("no key").is_err());
    let failure = found_key(Err("no key".to_string())).unwrap_err();
    assert_eq!(failure.messages, ["no key"]);
}

#[test]
fn identities_are_listed_without_comments() {
    let agent = SshAgent::new(agent(vec![], false));
    let identities = agent
        .request_identities(Ok(vec![ED25519_PUBLIC.to_string(), RSA_PUBLIC.to_string()]))
        .unwrap();
    assert_eq!(identities.len(), 2);
    assert_eq!(
        hex(&identities[0].pubkey),
        "0000000b7373682d656432353531390000002085ba34f8f4a7ef088aff5fd3f1e13c807578ab7dda5d5e4c941642241e46242a"
    );
    assert_eq!(identities[0].comment, "");
    assert_eq!(&identities[1].pubkey[..11], b"\0\0\0\x07ssh-rsa");
}

#[test]
fn first_bad_identity_fails_the_list() {
    let agent = SshAgent::new(agent(vec![], false));
    let keys = vec![
        ED25519_PUBLIC.to_string(),
        "ssh-ed25519 ????".to_string(),
        RSA_PUBLIC.to_string(),
    ];
    assert!(matches!(agent.request_identities(Ok(keys)), Err(AgentError::Other { .. })));
    let failure = Failure::other("inner".to_string()).context("outer");
    assert_eq!(agent.request_identities(Err(failure)), Err(other("outer: inner")));
}

#[test]
fn identities_of_read_keys() {
    let identity = |pubkey: Vec<u8>| SshIdentity {
        pubkey,
        comment: String::new(),
    };
    assert_eq!(
        rbw::ssh_agent::identities(vec![Ok(vec![1]), Ok(vec![2, 3])]),
        Ok(vec![identity(vec![1]), identity(vec![2, 3])])
    );
    assert_eq!(
        rbw::ssh_agent::identities(vec![
            Ok(vec![1]),
            Err("first".to_string()),
            Err("second".to_string())
        ]),
        Err(other("first"))
    );
}

#[test]
fn signature_gets_its_algorithm() {
    let signature = |algorithm: &str, bytes: Vec<u8>| Signature {
        algorithm: algorithm.to_string(),
        bytes,
    };
    assert_eq!(
        with_algorithm(SignatureAlgorithm::RsaSha512, Ok(vec![1, 2])),
        Ok(signature("rsa-sha2-512", vec![1, 2]))
    );
    assert_eq!(
        with_algorithm(SignatureAlgorithm::RsaSha256, Ok(vec![])),
        Ok(signature("rsa-sha2-256", vec![]))
    );
    assert_eq!(
        with_algorithm(SignatureAlgorithm::Ed25519, Ok(vec![7; 64])),
        Ok(signature("ssh-ed25519", vec![7; 64]))
    );
}

#[test]
fn signature_that_cannot_be_sent_is_refused() {
    let invalid = || Err(other("length invalid"));
    assert_eq!(with_algorithm(SignatureAlgorithm::Ed25519, Ok(vec![7; 63])), invalid());
    assert_eq!(with_algorithm(SignatureAlgorithm::RsaSha1, Ok(vec![7; 128])), invalid());
    assert_eq!(
        with_algorithm(SignatureAlgorithm::RsaSha1, Err("why".to_string())),
        Err(other("why"))
    );
}

fn some_key() -> PrivateKey {
    PrivateKey::Unsupported {
        description: "some key".to_string(),
    }
}

#[test]
fn confirmation_is_asked_for_where_wanted() {
    let free = SshAgent::new(agent(vec![], false)).found(Ok(some_key())).unwrap();
    assert_eq!(free, Signing::Ready(some_key()));
    assert_eq!(free.question(), None);
    assert!(free.is_ready());
    let asked = SshAgent::new(agent(vec![], true)).found(Ok(some_key())).unwrap();
    assert_eq!(asked, Signing::Confirm(some_key()));
    assert!(!asked.is_ready());
    assert_eq!(
        asked.question().unwrap(),
        ["SETTITLE rbw", "SETDESC Allow SSH key use?", "CONFIRM"]
    );
}

#[test]
fn unconfirmed_use_is_refused() {
    let asked = || Signing::Confirm(some_key());
    assert_eq!(asked().answered(Ok(true)), Ok(Signing::Ready(some_key())));
    assert_eq!(asked().answered(Ok(false)), Err(other("User did not confirm")));
    assert_eq!(
        asked().answered(Err(Error::PinentryCancelled)),
        Err(AgentError::Failure)
    );
}

#[test]
fn missing_key_is_told() {
    let failure = Failure::other("No matching private key found".to_string());
    assert_eq!(
        SshAgent::new(agent(vec![], true)).found(Err(failure)),
        Err(other("No matching private key found"))
    );
}

#[test]
fn public_halves_are_listed_in_order() {
    let plain = Entry {
        key: None,
        org_id: None,
        data: EntryData::Other,
    };
    let agent = agent(
        vec![
            ssh_entry(Some("a"), None, None),
            plain,
            ssh_entry(None, Some("x"), None),
            ssh_entry(Some("b"), Some("y"), Some("k")),
        ],
        false,
    );
    let listing = agent.get_ssh_public_keys();
    assert_eq!(listing.secrets, [secret("a", None), secret("b", Some("k"))]);
    assert_eq!(listing.next(), Some(&secret("a", None)));
    let listing = listing.decrypted(Ok("first".to_string())).unwrap();
    assert_eq!(listing.next(), Some(&secret("b", Some("k"))));
    let failure = Failure::other("locked".to_string());
    assert_eq!(listing.clone().decrypted(Err(failure.clone())), Err(failure));
    let listing = listing.decrypted(Ok("second".to_string())).unwrap();
    assert_eq!(listing.next(), None);
    assert_eq!(listing.keys, ["first", "second"]);
}

#[test]
fn only_whole_keys_are_searched() {
    let agent = agent(
        vec![
            ssh_entry(Some("a"), None, None),
            ssh_entry(Some("b"), Some("y"), Some("k")),
            ssh_entry(None, Some("z"), None),
        ],
        false,
    );
    let (pairs, search) = agent.find_ssh_private_key();
    assert_eq!(pairs.len(), 1);
    assert_eq!(pairs[0].public, secret("b", Some("k")));
    assert_eq!(pairs[0].private, secret("y", Some("k")));
    assert_eq!(search, KeySearch::Public(0));
}

#[test]
fn empty_vault_has_no_private_key() {
    let (pairs, search) = agent(vec![], false).find_ssh_private_key();
    assert!(pairs.is_empty());
    assert_eq!(
        search,
        KeySearch::Missing(Failure::other("No matching private key found".to_string()))
    );
}

#[test]
fn search_stops_at_the_first_match() {
    assert_eq!(compare_key(3, 0, b"k", Ok(b"x".to_vec())), Ok(KeySearch::Public(1)));
    assert_eq!(compare_key(3, 1, b"k", Ok(b"k".to_vec())), Ok(KeySearch::Private(1)));
    assert!(matches!(
        compare_key(3, 2, b"k", Ok(b"x".to_vec())),
        Ok(KeySearch::Missing(_))
    ));
    let failure = compare_key(3, 0, b"k", Err("bad".to_string())).unwrap_err();
    assert_eq!(failure.messages, ["bad"]);
}

#[test]
fn search_reads_public_keys() {
    let agent = SshAgent::new(agent(vec![], false));
    let wanted = agent
        .request_identities(Ok(vec![ED25519_PUBLIC.to_string()]))
        .unwrap()
        .remove(0)
        .pubkey;
    assert_eq!(compare_text(2, 0, &wanted, RSA_PUBLIC), Ok(KeySearch::Public(1)));
    assert_eq!(compare_text(2, 1, &wanted, ED25519_PUBLIC), Ok(KeySearch::Private(1)));
    let renamed = ED25519_PUBLIC.replace("ed@test", "another comment");
    assert_eq!(compare_text(2, 1, &wanted, &renamed), Ok(KeySearch::Private(1)));
    assert!(compare_text(2, 0, &wanted, "no key").is_err());
}
