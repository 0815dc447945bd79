use rbw::client::Client;
use rbw::error::Error;
use rbw::sso::{
    browser_failed, callback_url, find_free_port, handle_sso_callback, sso_query_code, tried_port, BrowserStep,
    PortSearch, SsoLogin, END_PORT, FIRST_PORT,
};

fn params(list: &[(&str, &str)]) -> Vec<(String, String)> {
    list.iter()
        .map(|(name, value)| (name.to_string(), value.to_string()))
        .collect()
}

fn callback_error(msg: &str) -> Error {
    Error::FailedToProcessSSOCallback {
        msg: msg.to_string(),
    }
}

#[test]
fn callback_with_the_state_gives_the_code() {
    let list = params(&[("code", "c0de"), ("state", "st4te")]);
    assert_eq!(sso_query_code(&list, "st4te"), Ok("c0de".to_string()));
}

#[test]
fn callback_with_an_identifier_gives_the_code() {
    let list = params(&[("code", "c0de"), ("state", "st4te_identifier=org")]);
    assert_eq!(sso_query_code(&list, "st4te"), Ok("c0de".to_string()));
}

#[test]
fn callback_without_code_fails() {
    assert_eq!(
        sso_query_code(&params(&[("state", "st4te")]), "st4te"),
        Err(callback_error("Could not obtain code from the URL"))
    );
    assert_eq!(
        sso_query_code(&params(&[]), "st4te"),
        Err(callback_error("Could not obtain code from the URL"))
    );
}

#[test]
fn callback_without_state_fails() {
    assert_eq!(
        sso_query_code(&params(&[("code", "c0de")]), "st4te"),
        Err(callback_error("Could not obtain state from the URL"))
    );
}

#[test]
fn foreign_callback_fails() {
    let list = params(&[("code", "c0de"), ("state", "st4te!")]);
    assert_eq!(
        sso_query_code(&list, "st4te"),
        Err(callback_error(
            "SSO callback states do not match, sent: st4te, received: st4te!"
        ))
    );
    let list = params(&[("code", "c0de"), ("state", "x_identifier=st4te")]);
    assert!(sso_query_code(&list, "st4te").is_err());
}

#[test]
fn later_parameters_win() {
    let list = params(&[
        ("code", "old"),
        ("state", "other"),
        ("code", "new"),
        ("state", "st4te"),
    ]);
    assert_eq!(sso_query_code(&list, "st4te"), Ok("new".to_string()));
}

#[test]
fn browser_is_told_of_success() {
    let list = params(&[("code", "c0de"), ("state", "st4te")]);
    let reply = handle_sso_callback(&list, "st4te");
    assert_eq!(reply.outcome, Ok("c0de".to_string()));
    assert_eq!(reply.status, 200);
    assert_eq!(
        reply.body,
        "<html><head><title>Success | rbw</title></head><body> \
         <h1>Successfully authenticated with rbw</h1> \
         <p>You may now close this tab and return to the terminal.</p> \
         </body></html>"
    );
}

#[test]
fn browser_is_told_of_failure() {
    let reply = handle_sso_callback(&params(&[]), "st4te");
    assert_eq!(
        reply.outcome,
        Err(callback_error("Could not obtain code from the URL"))
    );
    assert_eq!(reply.status, 400);
    assert_eq!(
        reply.body,
        "<html><head><title>Failed | rbw</title></head><body> \
         <h1>Something went wrong logging into the rbw</h1> \
         <p>You may now close this tab and return to the terminal.</p> \
         </body></html>"
    );
}

#[test]
fn lowest_free_port_is_found() {
    assert_eq!((FIRST_PORT, END_PORT), (8065, 8070));
    let mut search = find_free_port(FIRST_PORT, END_PORT);
    let mut tried = vec![];
    while let PortSearch::Try(port) = search {
        tried.push(port);
        search = tried_port(FIRST_PORT, END_PORT, port, port >= 8067);
    }
    assert_eq!(tried, [8065, 8066, 8067]);
    assert_eq!(search, PortSearch::Found(8067));
}

#[test]
fn taken_ports_fail_the_search() {
    let mut search = find_free_port(8065, 8070);
    let mut tried = 0;
    while let PortSearch::Try(port) = search {
        tried += 1;
        search = tried_port(8065, 8070, port, false);
    }
    assert_eq!(tried, 5);
    assert_eq!(
        search,
        PortSearch::Failed(Error::FailedToFindFreePort {
            range: "(8065..8070)".to_string()
        })
    );
    assert_eq!(
        find_free_port(7, 7),
        PortSearch::Failed(Error::FailedToFindFreePort {
            range: "(7..7)".to_string()
        })
    );
}

#[test]
fn secrets_are_random() {
    let first = SsoLogin::start();
    let second = SsoLogin::start();
    for secret in [
        &first.state,
        &first.code_verifier,
        &second.state,
        &second.code_verifier,
    ] {
        assert_eq!(secret.len(), 64);
        assert!(secret.chars().all(|c| c.is_ascii_alphanumeric()));
    }
    assert_ne!(first.state, second.state);
    assert_ne!(first.state, first.code_verifier);
}

#[test]
fn own_state_is_accepted() {
    let login = SsoLogin::start();
    let list = params(&[("code", "c"), ("state", &login.state)]);
    assert_eq!(sso_query_code(&list, &login.state), Ok("c".to_string()));
}

fn fixed_login() -> SsoLogin {
    SsoLogin {
        state: "st4te".to_string(),
        code_verifier: "dBjftJeZ4CVP-mB92K27uhbUJU1p1r_wW1gFWFOEjXk".to_string(),
    }
}

#[test]
fn challenge_is_the_digest_of_the_verifier() {
    assert_eq!(
        fixed_login().code_challenge(),
        "E9Melhoa2OwvFrEMTJguCHaoeK1t8URWbuGJSstw-cM"
    );
}

#[test]
fn browser_is_sent_to_the_login_page() {
    let client = Client::new("a", "b", "https://vault.example.org", None);
    assert_eq!(callback_url(8066), "http://localhost:8066");
    assert_eq!(
        fixed_login().browser_url(&client, 8066, "my-org"),
        "https://vault.example.org/#/sso?clientId=cli\
         &redirectUri=http%3A%2F%2Flocalhost%3A8066&state=st4te\
         &codeChallenge=E9Melhoa2OwvFrEMTJguCHaoeK1t8URWbuGJSstw-cM&identifier=my-org"
    );
    assert_eq!(
        fixed_login().page_url(&client, 8066, "chal", "my-org"),
        "https://vault.example.org/#/sso?clientId=cli\
         &redirectUri=http%3A%2F%2Flocalhost%3A8066&state=st4te&codeChallenge=chal\
         &identifier=my-org"
    );
}

#[test]
fn failed_steps_of_the_browser() {
    let why = || "why".to_string();
    assert_eq!(
        browser_failed(BrowserStep::Listen, why()),
        Error::CreateSSOCallbackServer { message: why() }
    );
    assert_eq!(
        browser_failed(BrowserStep::Open, why()),
        Error::FailedToOpenWebBrowser { message: why() }
    );
    assert_eq!(browser_failed(BrowserStep::Serve, why()), callback_error("why"));
}

#[test]
fn code_is_kept_with_its_verifier() {
    let sso = fixed_login()
        .obtain_sso_code(8065, Ok("c0de".to_string()))
        .unwrap();
    assert_eq!(sso.code, "c0de");
    assert_eq!(sso.code_verifier, fixed_login().code_verifier);
    assert_eq!(sso.callback_url, "http://localhost:8065");
    assert_eq!(
        fixed_login().obtain_sso_code(8065, Err(callback_error("x"))),
        Err(callback_error("x"))
    );
}
