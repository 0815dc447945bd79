use rbw::api::{
    ConnectRefreshTokenRes, ConnectTokenAuth, ConnectTokenReq, ConnectTokenRes, CryptoParameters, FoldersResData,
    EditedEntry, PreloginRes, TwoFactorProviderType,
};
use rbw::client::{
    check_answer, error_for_status, only_ok, parsed_identity, Body, Client, ErrorBody, HttpRequest, Method, SsoCode,
    StatusCheck,
};
use rbw::error::Error;
use rbw::vault::{collect_entries, folder_names, vault_of, Db, SyncRes, Vault};

fn client() -> Client {
    Client::new(
        "https://api.example.org",
        "https://identity.example.org",
        "https://vault.example.org",
        None,
    )
}

fn pairs(list: &[(&str, &str)]) -> Vec<(String, String)> {
    list.iter()
        .map(|(name, value)| (name.to_string(), value.to_string()))
        .collect()
}

fn request<P>(method: Method, url: &str, headers: &[(&str, &str)], body: Body<P>) -> HttpRequest<P> {
    HttpRequest {
        method,
        url: url.to_string(),
        headers: pairs(headers),
        body,
    }
}

fn token_body<P>(body: Body<P>) -> ConnectTokenReq {
    match body {
        Body::Token(req) => req,
        _ => panic!("no request for a token"),
    }
}

#[test]
fn client_keeps_its_urls() {
    let client = Client::new("a", "b", "c", Some(b"/cert.pem"));
    assert_eq!(client.api_url("/x"), "a/x");
    assert_eq!(client.identity_url("/y"), "b/y");
    assert_eq!(client.ui_url, "c");
    assert_eq!(client.client_cert_path, Some(b"/cert.pem".to_vec()));
}

fn with_certificate() -> Client {
    Client::new("a", "b", "c", Some(b"/cert.pem"))
}

fn config_error(read: Option<Result<Vec<u8>, String>>) -> Option<Error> {
    with_certificate().reqwest_client("rbw", "1", read).err()
}

fn pem(labels: &[&str]) -> Vec<u8> {
    labels
        .iter()
        .map(|label| format!("-----BEGIN {label}-----\nMAA=\n-----END {label}-----\n"))
        .collect::<String>()
        .into_bytes()
}

fn whole_pem() -> Vec<u8> {
    pem(&["CERTIFICATE", "PRIVATE KEY"])
}

fn presented() -> Vec<(String, String)> {
    pairs(&[
        ("Bitwarden-Client-Name", "cli"),
        ("Bitwarden-Client-Version", "2024.12.0"),
        ("Device-Type", "8"),
    ])
}

#[test]
fn client_presents_itself() {
    let Ok(config) = client().reqwest_client("rbw", "1.15.0", None) else {
        panic!("no certificate is needed");
    };
    assert_eq!(config.default_headers, presented());
    assert_eq!(config.user_agent, "rbw/1.15.0");
    assert!(config.identity.is_none());
}

#[test]
fn client_shows_its_certificate() {
    let read = Some(Ok(whole_pem()));
    let Ok(config) = with_certificate().reqwest_client("rbw", "1", read) else {
        panic!("the certificate is refused");
    };
    assert_eq!(config.default_headers, presented());
    assert!(config.identity.is_some());
}

#[test]
fn client_without_a_path_shows_no_certificate() {
    let identity = client().client_identity(Some(Ok(whole_pem())));
    assert!(matches!(identity, Ok(None)));
    assert!(matches!(with_certificate().client_identity(None), Ok(None)));
}

#[test]
fn unreadable_certificate_is_named() {
    assert_eq!(
        config_error(Some(Err("no such file".to_string()))),
        Some(Error::LoadClientCert {
            file: b"/cert.pem".to_vec(),
            message: "no such file".to_string(),
        })
    );
}

#[test]
fn file_that_is_no_certificate_is_refused() {
    for bytes in [
        vec![],
        b"no certificate".to_vec(),
        pem(&["CERTIFICATE"]),
        pem(&["PRIVATE KEY"]),
    ] {
        assert_eq!(
            config_error(Some(Ok(bytes))),
            Some(Error::CreateReqwestClient {
                message: "builder error".to_string()
            })
        );
    }
}

#[test]
fn parsed_certificate_is_kept() {
    assert!(matches!(
        parsed_identity(Err("why".to_string())),
        Err(Error::CreateReqwestClient { message }) if message == "why"
    ));
}

#[test]
fn prelogin_request() {
    let call = client().prelogin("me@example.org");
    assert_eq!(
        call.request,
        request(
            Method::Post,
            "https://identity.example.org/accounts/prelogin",
            &[],
            Body::Json(pairs(&[("email", "me@example.org")])),
        )
    );
    assert_eq!(call.check, StatusCheck::Any);
}

#[test]
fn prelogin_answer() {
    let res = PreloginRes {
        kdf: 1,
        kdf_iterations: 3,
        kdf_memory: Some(64),
        kdf_parallelism: None,
    };
    assert_eq!(
        res.crypto_parameters(),
        CryptoParameters {
            kdf: 1,
            iterations: 3,
            memory: Some(64),
            parallelism: None,
        }
    );
}

#[test]
fn register_request() {
    let call = client().register("me@example.org", "device", b"user.id", b"secret");
    assert_eq!(call.check, StatusCheck::ConnectToken);
    assert_eq!(call.request.method, Method::Post);
    assert_eq!(call.request.url, "https://identity.example.org/connect/token");
    assert!(call.request.headers.is_empty());
    assert_eq!(
        token_body(call.request.body),
        ConnectTokenReq {
            auth: ConnectTokenAuth::ClientCredentials {
                username: "me@example.org".to_string(),
                client_secret: "secret".to_string(),
            },
            grant_type: "client_credentials".to_string(),
            scope: "api".to_string(),
            client_id: "user.id".to_string(),
            device_type: 8,
            device_identifier: "device".to_string(),
            device_name: "rbw".to_string(),
            device_push_token: String::new(),
            two_factor_token: None,
            two_factor_provider: None,
            new_device_otp: None,
        }
    );
}

#[test]
fn login_request_with_password() {
    let call = client().login("me@example.org", None, "device", &[0xfb, 0xff], None, None, None);
    assert_eq!(call.check, StatusCheck::ConnectToken);
    assert_eq!(call.request.url, "https://identity.example.org/connect/token");
    assert_eq!(
        call.request.headers,
        pairs(&[("auth-email", "bWVAZXhhbXBsZS5vcmc")])
    );
    assert_eq!(
        token_body(call.request.body),
        ConnectTokenReq {
            auth: ConnectTokenAuth::Password {
                username: "me@example.org".to_string(),
                password: "+/8=".to_string(),
            },
            grant_type: "password".to_string(),
            scope: "api offline_access".to_string(),
            client_id: "cli".to_string(),
            device_type: 8,
            device_identifier: "device".to_string(),
            device_name: "rbw".to_string(),
            device_push_token: String::new(),
            two_factor_token: None,
            two_factor_provider: None,
            new_device_otp: None,
        }
    );
}

#[test]
fn login_request_with_sso_and_second_factor() {
    let sso = SsoCode {
        code: "code".to_string(),
        code_verifier: "verifier".to_string(),
        callback_url: "http://localhost:8065".to_string(),
    };
    let call = client().login(
        "me@example.org",
        Some(&sso),
        "device",
        b"hash",
        Some("123456"),
        Some(TwoFactorProviderType::Yubikey),
        Some("otp"),
    );
    let req = token_body(call.request.body);
    assert_eq!(
        req.auth,
        ConnectTokenAuth::AuthCode {
            code: "code".to_string(),
            code_verifier: "verifier".to_string(),
            redirect_uri: "http://localhost:8065".to_string(),
        }
    );
    assert_eq!(req.grant_type, "authorization_code");
    assert_eq!(req.scope, "api offline_access");
    assert_eq!(req.two_factor_token.as_deref(), Some("123456"));
    assert_eq!(req.two_factor_provider, Some(3));
    assert_eq!(req.new_device_otp.as_deref(), Some("otp"));
}

#[test]
fn provider_codes() {
    assert_eq!(TwoFactorProviderType::Authenticator.code(), 0);
    assert_eq!(TwoFactorProviderType::Email.code(), 1);
    assert_eq!(TwoFactorProviderType::Duo.code(), 2);
    assert_eq!(TwoFactorProviderType::Yubikey.code(), 3);
    assert_eq!(TwoFactorProviderType::U2f.code(), 4);
    assert_eq!(TwoFactorProviderType::Remember.code(), 5);
    assert_eq!(TwoFactorProviderType::OrganizationDuo.code(), 6);
    assert_eq!(TwoFactorProviderType::WebAuthn.code(), 7);
}

#[test]
fn login_answer() {
    let res = ConnectTokenRes {
        access_token: "a".to_string(),
        refresh_token: "r".to_string(),
        key: "k".to_string(),
    };
    assert_eq!(
        res.tokens(),
        ("a".to_string(), "r".to_string(), "k".to_string())
    );
}

#[test]
fn send_email_login_request() {
    let call = client().send_email_login("me@example.org", "device", "session");
    assert_eq!(
        call.request,
        request(
            Method::Post,
            "https://api.example.org/two-factor/send-email-login",
            &[("auth-email", "bWVAZXhhbXBsZS5vcmc")],
            Body::Json(pairs(&[
                ("email", "me@example.org"),
                ("DeviceIdentifier", "device"),
                ("SsoEmail2faSessionToken", "session"),
            ])),
        )
    );
    assert_eq!(call.check, StatusCheck::OnlyOk);
}

#[test]
fn sync_request() {
    let call = client().sync("tok");
    assert_eq!(
        call.request,
        request(
            Method::Get,
            "https://api.example.org/sync",
            &[
                ("Authorization", "Bearer tok"),
                ("Bitwarden-Client-Version", "2024.12.0"),
            ],
            Body::Empty,
        )
    );
    assert_eq!(call.check, StatusCheck::NoError);
}

#[test]
fn exchange_refresh_token_request() {
    let call = client().exchange_refresh_token("refresh");
    assert_eq!(
        call.request,
        request(
            Method::Post,
            "https://identity.example.org/connect/token",
            &[],
            Body::Form(pairs(&[
                ("grant_type", "refresh_token"),
                ("client_id", "cli"),
                ("refresh_token", "refresh"),
            ])),
        )
    );
    assert_eq!(call.check, StatusCheck::Any);
    assert_eq!(client().exchange_refresh_token_async("refresh"), call);
}

#[test]
fn add_request() {
    let call = client().add("tok", "name", 1, 42u8, Some("notes"), None);
    assert_eq!(call.request.method, Method::Post);
    assert_eq!(call.request.url, "https://api.example.org/ciphers");
    assert_eq!(call.request.headers, pairs(&[("Authorization", "Bearer tok")]));
    assert_eq!(call.check, StatusCheck::NoError);
    let Body::Payload(entry) = call.request.body else {
        panic!("no payload");
    };
    assert_eq!(entry.ty, 1);
    assert_eq!(entry.name, "name");
    assert_eq!(entry.notes.as_deref(), Some("notes"));
    assert_eq!(entry.folder_id, None);
    assert_eq!(entry.data, 42);
}

#[test]
fn edit_request() {
    let entry = EditedEntry {
        id: "id-1".to_string(),
        fields: "entry",
    };
    let call = client().edit("tok", entry);
    assert_eq!(
        call.request,
        request(
            Method::Put,
            "https://api.example.org/ciphers/id-1",
            &[("Authorization", "Bearer tok")],
            Body::Payload("entry"),
        )
    );
    assert_eq!(call.check, StatusCheck::NoError);
}

#[test]
fn remove_request() {
    let call = client().remove("tok", "id-1");
    assert_eq!(
        call.request,
        request(
            Method::Delete,
            "https://api.example.org/ciphers/id-1",
            &[("Authorization", "Bearer tok")],
            Body::Empty,
        )
    );
    assert_eq!(call.check, StatusCheck::NoError);
}

#[test]
fn folder_requests() {
    let list = client().folders("tok");
    assert_eq!(
        list.request,
        request(
            Method::Get,
            "https://api.example.org/folders",
            &[("Authorization", "Bearer tok")],
            Body::Empty,
        )
    );
    assert_eq!(list.check, StatusCheck::NoError);
    let make = client().create_folder("tok", "name");
    assert_eq!(
        make.request,
        request(
            Method::Post,
            "https://api.example.org/folders",
            &[("Authorization", "Bearer tok")],
            Body::Json(pairs(&[("name", "name")])),
        )
    );
    assert_eq!(make.check, StatusCheck::NoError);
}

#[test]
fn refresh_answer() {
    let res = ConnectRefreshTokenRes {
        access_token: "new".to_string(),
    };
    assert_eq!(res.token(), "new");
}

#[test]
fn created_folder_answer() {
    let folder = FoldersResData {
        id: "f-1".to_string(),
        name: "name".to_string(),
    };
    assert_eq!(folder.created(), "f-1");
}

#[test]
fn folder_answer() {
    let folder = |id: &str, name: &str| FoldersResData {
        id: id.to_string(),
        name: name.to_string(),
    };
    assert_eq!(
        folder_names(&vec![folder("1", "one"), folder("2", "two")]),
        pairs(&[("1", "one"), ("2", "two")])
    );
}

#[test]
fn statuses_that_are_failures() {
    assert_eq!(error_for_status(399), Ok(()));
    assert_eq!(error_for_status(400), Err(Error::Reqwest { status: 400 }));
    assert_eq!(error_for_status(599), Err(Error::Reqwest { status: 599 }));
    assert_eq!(error_for_status(600), Ok(()));
    assert_eq!(only_ok(200), Ok(()));
    assert_eq!(only_ok(204), Err(Error::RequestFailed { status: 204 }));
}

#[test]
fn answer_to_a_token_request() {
    let known = Error::IncorrectPassword {
        message: "wrong".to_string(),
    };
    let classified = || ErrorBody::Classified(Error::IncorrectPassword {
        message: "wrong".to_string(),
    });
    assert_eq!(Client::check_connect_token_res(200, classified()), Ok(()));
    assert_eq!(Client::check_connect_token_res(400, classified()), Err(known));
    for body in [ErrorBody::Unclassified, ErrorBody::Unparsed, ErrorBody::Unreadable] {
        assert_eq!(
            Client::check_connect_token_res(400, body),
            Err(Error::RequestFailed { status: 400 })
        );
    }
}

#[test]
fn answers_are_checked_as_their_requests_ask() {
    let classified = || ErrorBody::Classified(Error::NewDeviceVerificationRequired);
    assert_eq!(check_answer(StatusCheck::Any, 500, classified()), Ok(()));
    assert_eq!(
        check_answer(StatusCheck::NoError, 404, classified()),
        Err(Error::Reqwest { status: 404 })
    );
    assert_eq!(
        check_answer(StatusCheck::OnlyOk, 302, classified()),
        Err(Error::RequestFailed { status: 302 })
    );
    assert_eq!(
        check_answer(StatusCheck::ConnectToken, 400, classified()),
        Err(Error::NewDeviceVerificationRequired)
    );
}

#[test]
fn deleted_entries_are_skipped() {
    assert_eq!(
        collect_entries(vec![Ok(1), Err(Error::DeletedEntry), Ok(2)]),
        Ok(vec![1, 2])
    );
    assert_eq!(collect_entries::<u8>(vec![]), Ok(vec![]));
}

#[test]
fn first_bad_entry_fails_the_sync() {
    assert_eq!(
        collect_entries(vec![
            Ok(1),
            Err(Error::DeletedEntry),
            Err(Error::InvalidUtf8),
            Err(Error::PinentryCancelled),
        ]),
        Err(Error::InvalidUtf8)
    );
}

#[test]
fn vault_of_an_answer() {
    let res = SyncRes {
        key: "key".to_string(),
        private_key: "private".to_string(),
        organizations: pairs(&[("org", "old"), ("other", "x"), ("org", "new")]),
        ciphers: vec![Ok('a'), Err(Error::DeletedEntry)],
    };
    let vault = vault_of(res).unwrap();
    assert_eq!(vault.protected_key, "key");
    assert_eq!(vault.protected_private_key, "private");
    assert_eq!(vault.entries, ['a']);
    let mut keys = vault.protected_org_keys;
    keys.sort();
    assert_eq!(keys, pairs(&[("org", "new"), ("other", "x")]));
}

#[test]
fn sync_replaces_the_vault() {
    let mut db = Db {
        access_token: Some("a".to_string()),
        refresh_token: Some("r".to_string()),
        protected_key: None,
        protected_private_key: None,
        protected_org_keys: pairs(&[("gone", "x")]),
        entries: vec!['x', 'y'],
    };
    assert!(db.some_protected_keys().is_none());
    let vault = |entry: char| Vault {
        protected_key: "key".to_string(),
        protected_private_key: "private".to_string(),
        protected_org_keys: pairs(&[("org", "k")]),
        entries: vec![entry],
    };
    db.apply_sync(None, vault('p'));
    assert_eq!(db.access_token.as_deref(), Some("a"));
    assert_eq!(db.entries, ['p']);
    assert_eq!(
        db.some_protected_keys(),
        Some((
            &"key".to_string(),
            &"private".to_string(),
            &pairs(&[("org", "k")])
        ))
    );
    db.apply_sync(Some("b".to_string()), vault('q'));
    assert_eq!(db.access_token.as_deref(), Some("b"));
    assert_eq!(db.refresh_token.as_deref(), Some("r"));
    assert_eq!(db.entries, ['q']);
}
