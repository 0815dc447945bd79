//! Single sign-on: the browser is sent to the login page, and comes back to a port of this
//! machine with a code.

use rand::distr::SampleString;
use vstd::prelude::*;
use vstd::string::*;
use vstd::utf8::*;

use crate::api::ConnectTokenAuthView;
use crate::base64::{encode_url_safe_no_pad, encoded, Alphabet};
use crate::client::{login_auth, Client, SsoCode};
use crate::crypto::{sha256, sha256_digest};
use crate::error::{Error, ErrorView};
use crate::pairs::{last_value, text_pairs, text_value};
use crate::percent::{url_encode, url_encoded};
use crate::text::{
    before, decimal, decimal_string, is_before, lemma_before_is_unique, occurs_at, same_text,
};

verus! {

broadcast use vstd::string::group_string_axioms;

/// The first port that the browser may be sent back to.
pub const FIRST_PORT: u16 = 8065;

/// The first port behind those that the browser may be sent back to.
pub const END_PORT: u16 = 8070;

/// The length of the random strings that a login is recognised by.
pub const SECRET_LENGTH: usize = 64;

/// The error that a callback without the code is.
pub open spec fn callback_error(msg: Seq<char>) -> ErrorView {
    ErrorView::FailedToProcessSSOCallback { msg }
}

/// What a callback with these query parameters comes to, where `state` was sent: its code,
/// where it sends back the state, with nothing behind it but what starts at `_identifier=`.
pub open spec fn callback_code(params: Seq<(Seq<char>, Seq<char>)>, state: Seq<char>) -> Result<
    Seq<char>,
    ErrorView,
> {
    match (last_value(params, "code"@), last_value(params, "state"@)) {
        (None, _) => Err(callback_error("Could not obtain code from the URL"@)),
        (Some(_), None) => Err(callback_error("Could not obtain state from the URL"@)),
        (Some(code), Some(received)) => if is_before(received, "_identifier="@, state) {
            Ok(code)
        } else {
            Err(
                callback_error(
                    "SSO callback states do not match, sent: "@ + state + ", received: "@
                        + received,
                ),
            )
        },
    }
}

/// A code or an error by its view.
pub open spec fn code_view(res: Result<String, Error>) -> Result<Seq<char>, ErrorView> {
    match res {
        Ok(code) => Ok(code@),
        Err(e) => Err(e@),
    }
}

/// The error that a callback without the code is.
fn callback_failure(msg: String) -> (res: Error)
    ensures
        res@ == callback_error(msg@),
        res == (Error::FailedToProcessSSOCallback { msg }),
{
    Error::FailedToProcessSSOCallback { msg }
}

/// The code of a callback with these query parameters, where `state` was sent.
pub fn sso_query_code(params: &Vec<(String, String)>, state: &str) -> (res: Result<String, Error>)
    ensures
        code_view(res) == callback_code(text_pairs(params@), state@),
        match (
            last_value(text_pairs(params@), "code"@),
            last_value(text_pairs(params@), "state"@),
        ) {
            (None, _) => res matches Err(Error::FailedToProcessSSOCallback { msg }) && msg@
                == "Could not obtain code from the URL"@,
            (Some(_), None) => res matches Err(Error::FailedToProcessSSOCallback { msg }) && msg@
                == "Could not obtain state from the URL"@,
            (Some(code), Some(received)) => {
                &&& res matches Ok(given) ==> {
                    &&& given@ == code
                    &&& state@.is_prefix_of(received)
                    &&& received == state@ || occurs_at(
                        received,
                        "_identifier="@,
                        state@.len() as int,
                    )
                    &&& forall|i: int|
                        0 <= i < state@.len() ==> !occurs_at(received, "_identifier="@, i)
                }
                &&& res matches Err(e) ==> {
                    &&& !is_before(received, "_identifier="@, state@)
                    &&& e matches Error::FailedToProcessSSOCallback { msg } && msg@
                        == "SSO callback states do not match, sent: "@ + state@ + ", received: "@
                        + received
                }
            },
        },
{
    let sso_code = match text_value(params, "code") {
        Some(code) => code,
        None => {
            return Err(callback_failure("Could not obtain code from the URL".to_owned()));
        },
    };
    let received_state = match text_value(params, "state") {
        Some(received) => received,
        None => {
            return Err(callback_failure("Could not obtain state from the URL".to_owned()));
        },
    };
    proof {
        reveal_strlit("_identifier=");
    }
    let head = before(received_state.as_str(), "_identifier=");
    if !same_text(head.as_str(), state) {
        proof {
            if is_before(received_state@, "_identifier="@, state@) {
                lemma_before_is_unique(received_state@, "_identifier="@, head@, state@);
            }
        }
        let msg = "SSO callback states do not match, sent: ".to_owned().concat(state).concat(
            ", received: ",
        ).concat(received_state.as_str());
        return Err(callback_failure(msg));
    }
    Ok(sso_code)
}

/// What a callback comes to, and the page that the browser is shown.
#[derive(Debug, PartialEq, Eq)]
pub struct CallbackReply {
    pub outcome: Result<String, Error>,
    pub status: u16,
    pub body: String,
}

/// Answers a callback: the user is told whether it brought the code.
pub fn handle_sso_callback(params: &Vec<(String, String)>, state: &str) -> (res: CallbackReply)
    ensures
        code_view(res.outcome) == callback_code(text_pairs(params@), state@),
        match (
            last_value(text_pairs(params@), "code"@),
            last_value(text_pairs(params@), "state"@),
        ) {
            (None, _) => res.outcome matches Err(Error::FailedToProcessSSOCallback { msg }) && msg@
                == "Could not obtain code from the URL"@,
            (Some(_), None) => res.outcome matches Err(Error::FailedToProcessSSOCallback { msg }) && msg@
                == "Could not obtain state from the URL"@,
            (Some(code), Some(received)) => {
                &&& res.outcome matches Ok(given) ==> {
                    &&& given@ == code
                    &&& state@.is_prefix_of(received)
                    &&& received == state@ || occurs_at(
                        received,
                        "_identifier="@,
                        state@.len() as int,
                    )
                    &&& forall|i: int|
                        0 <= i < state@.len() ==> !occurs_at(received, "_identifier="@, i)
                }
                &&& res.outcome matches Err(e) ==> {
                    &&& !is_before(received, "_identifier="@, state@)
                    &&& e matches Error::FailedToProcessSSOCallback { msg } && msg@
                        == "SSO callback states do not match, sent: "@ + state@ + ", received: "@
                        + received
                }
            },
        },
        res.outcome is Ok ==> {
            &&& res.status == 200
            &&& res.body@
                == "<html><head><title>Success | rbw</title></head><body> <h1>Successfully authenticated with rbw</h1> <p>You may now close this tab and return to the terminal.</p> </body></html>"@
        },
        res.outcome is Err ==> {
            &&& res.status == 400
            &&& res.body@
                == "<html><head><title>Failed | rbw</title></head><body> <h1>Something went wrong logging into the rbw</h1> <p>You may now close this tab and return to the terminal.</p> </body></html>"@
        },
{
    match sso_query_code(params, state) {
        Ok(code) => CallbackReply {
            outcome: Ok(code),
            status: 200,
            body: "<html><head><title>Success | rbw</title></head><body> <h1>Successfully authenticated with rbw</h1> <p>You may now close this tab and return to the terminal.</p> </body></html>".to_owned(),
        },
        Err(e) => CallbackReply {
            outcome: Err(e),
            status: 400,
            body: "<html><head><title>Failed | rbw</title></head><body> <h1>Something went wrong logging into the rbw</h1> <p>You may now close this tab and return to the terminal.</p> </body></html>".to_owned(),
        },
    }
}

/// A callback that sends back another state gives no code, whatever else it holds.
pub proof fn law_foreign_callbacks_give_no_code(
    params: Seq<(Seq<char>, Seq<char>)>,
    state: Seq<char>,
)
    ensures
        callback_code(params, state) is Ok ==> {
            &&& last_value(params, "state"@) matches Some(received)
            &&& state.is_prefix_of(received)
            &&& received == state || occurs_at(received, "_identifier="@, state.len() as int)
            &&& last_value(params, "code"@) == Some(callback_code(params, state)->Ok_0)
        },
{
    if callback_code(params, state) is Ok {
        let received = last_value(params, "state"@)->Some_0;
        if received.len() == state.len() {
            assert(received.take(state.len() as int) =~= received);
        }
    }
}

/// Where the search for a free port stands.
#[derive(Clone, Debug, PartialEq, Eq)]
pub enum PortSearch {
    /// Whether this port is free is to be tried.
    Try(u16),
    /// This port is free.
    Found(u16),
    /// No port of the range is free.
    Failed(Error),
}

/// What a [`PortSearch`] says.
#[verifier::ext_equal]
pub enum PortSearchView {
    Try(u16),
    Found(u16),
    Failed(ErrorView),
}

impl View for PortSearch {
    type V = PortSearchView;

    open spec fn view(&self) -> PortSearchView {
        match *self {
            PortSearch::Try(port) => PortSearchView::Try(port),
            PortSearch::Found(port) => PortSearchView::Found(port),
            PortSearch::Failed(e) => PortSearchView::Failed(e@),
        }
    }
}

/// The error that a range without a free port is.
pub open spec fn no_free_port(bottom: u16, top: u16) -> ErrorView {
    ErrorView::FailedToFindFreePort {
        range: "("@ + decimal(bottom as nat) + ".."@ + decimal(top as nat) + ")"@,
    }
}

/// The search of the ports from `bottom` on and before `top`, at `port`.
pub open spec fn search_from(bottom: u16, top: u16, port: int) -> PortSearchView {
    if port < top {
        PortSearchView::Try(port as u16)
    } else {
        PortSearchView::Failed(no_free_port(bottom, top))
    }
}

/// The search after the port at hand was tried.
pub open spec fn search_after(bottom: u16, top: u16, port: u16, free: bool) -> PortSearchView {
    if free {
        PortSearchView::Found(port)
    } else {
        search_from(bottom, top, port + 1)
    }
}

/// The error that a range without a free port is.
fn no_port_in(bottom: u16, top: u16) -> (res: Error)
    ensures
        res@ == no_free_port(bottom, top),
        res matches Error::FailedToFindFreePort { range } && range@ == "("@ + decimal(bottom as nat)
            + ".."@ + decimal(top as nat) + ")"@,
{
    let low = decimal_string(bottom as u64);
    let high = decimal_string(top as u64);
    Error::FailedToFindFreePort {
        range: "(".to_owned().concat(low.as_str()).concat("..").concat(high.as_str()).concat(")"),
    }
}

/// Starts the search of the ports from `bottom` on and before `top`.
pub fn find_free_port(bottom: u16, top: u16) -> (res: PortSearch)
    ensures
        res@ == search_from(bottom, top, bottom as int),
        bottom < top ==> res == PortSearch::Try(bottom),
        bottom >= top ==> (res matches PortSearch::Failed(
            Error::FailedToFindFreePort { range },
        ) && range@ == "("@ + decimal(bottom as nat) + ".."@ + decimal(top as nat) + ")"@),
{
    if bottom < top {
        PortSearch::Try(bottom)
    } else {
        PortSearch::Failed(no_port_in(bottom, top))
    }
}

/// Goes on with the search after the port at hand was tried.
pub fn tried_port(bottom: u16, top: u16, port: u16, free: bool) -> (res: PortSearch)
    ensures
        res@ == search_after(bottom, top, port, free),
        free ==> res == PortSearch::Found(port),
        !free && port + 1 < top ==> (res matches PortSearch::Try(next) && next == port + 1),
        !free && port + 1 >= top ==> (res matches PortSearch::Failed(
            Error::FailedToFindFreePort { range },
        ) && range@ == "("@ + decimal(bottom as nat) + ".."@ + decimal(top as nat) + ")"@),
{
    if free {
        PortSearch::Found(port)
    } else if port < top && port + 1 < top {
        PortSearch::Try(port + 1)
    } else {
        PortSearch::Failed(no_port_in(bottom, top))
    }
}

/// What a search comes to where `free` tells which ports are free.
pub open spec fn search_result(
    bottom: u16,
    top: u16,
    search: PortSearchView,
    free: spec_fn(u16) -> bool,
) -> PortSearchView
    decreases
            match search {
                PortSearchView::Try(port) => if port < top {
                    top - port
                } else {
                    0
                },
                _ => 0,
            },
{
    match search {
        PortSearchView::Try(port) if port < top => search_result(
            bottom,
            top,
            search_after(bottom, top, port, free(port)),
            free,
        ),
        _ => search,
    }
}

/// The search finds the lowest free port of the range, and fails only where there is none.
pub proof fn law_lowest_free_port_is_found(bottom: u16, top: u16, free: spec_fn(u16) -> bool)
    ensures
        match search_result(bottom, top, search_from(bottom, top, bottom as int), free) {
            PortSearchView::Found(port) => {
                &&& bottom <= port < top
                &&& free(port)
                &&& forall|p: u16| bottom <= p < port ==> !#[trigger] free(p)
            },
            PortSearchView::Failed(e) => {
                &&& e == no_free_port(bottom, top)
                &&& e == (ErrorView::FailedToFindFreePort {
                    range: "("@ + decimal(bottom as nat) + ".."@ + decimal(top as nat) + ")"@,
                })
                &&& forall|p: u16| bottom <= p < top ==> !#[trigger] free(p)
            },
            PortSearchView::Try(_) => false,
        },
{
    lemma_search(bottom, top, bottom as int, free);
}

proof fn lemma_search(bottom: u16, top: u16, port: int, free: spec_fn(u16) -> bool)
    requires
        bottom <= port,
        port <= top || port == bottom,
        forall|p: u16| bottom <= p < port ==> !#[trigger] free(p),
    ensures
        match search_result(bottom, top, search_from(bottom, top, port), free) {
            PortSearchView::Found(found) => {
                &&& bottom <= found < top
                &&& free(found)
                &&& forall|p: u16| bottom <= p < found ==> !#[trigger] free(p)
            },
            PortSearchView::Failed(e) => {
                &&& e == no_free_port(bottom, top)
                &&& forall|p: u16| bottom <= p < top ==> !#[trigger] free(p)
            },
            PortSearchView::Try(_) => false,
        },
    decreases top - port,
{
    reveal_with_fuel(search_result, 2);
    if port < top && !free(port as u16) {
        lemma_search(bottom, top, port + 1, free);
    }
}

/// Whether a character is a letter or digit of ASCII.
pub open spec fn alphanumeric(c: char) -> bool {
    ||| '0' <= c <= '9'
    ||| 'A' <= c <= 'Z'
    ||| 'a' <= c <= 'z'
}

/// `rand::distr::Alphanumeric.sample_string` with the thread's generator gives a string of
/// ASCII letters and digits of the length asked for. Which they are is left to chance.
#[verifier::external_body]
pub(crate) fn random_alphanumeric(len: usize) -> (res: String)
    ensures
        res@.len() == len,
        forall|i: int| 0 <= i < len ==> alphanumeric(#[trigger] res@[i]),
{
    rand::distr::Alphanumeric.sample_string(&mut rand::rng(), len)
}

/// A login by single sign-on: the state that the callback is known by, and the secret that the
/// server checks the code by.
#[derive(Clone, Debug, PartialEq, Eq)]
pub struct SsoLogin {
    pub state: String,
    pub code_verifier: String,
}

/// What the server is told of a code verifier before it sees it.
pub open spec fn challenge_of(code_verifier: Seq<char>) -> Seq<char> {
    encoded(Alphabet::UrlSafe, sha256_digest(encode_utf8(code_verifier)))
}

/// What is done outside for a login by single sign-on.
#[derive(Clone, Copy, Debug, PartialEq, Eq, Structural)]
pub enum BrowserStep {
    /// Listen on the free port.
    Listen,
    /// Open the browser.
    Open,
    /// Serve the callback.
    Serve,
}

/// The error that a failed step is, for this reason.
pub open spec fn browser_error(step: BrowserStep, message: Seq<char>) -> ErrorView {
    match step {
        BrowserStep::Listen => ErrorView::CreateSSOCallbackServer { message },
        BrowserStep::Open => ErrorView::FailedToOpenWebBrowser { message },
        BrowserStep::Serve => callback_error(message),
    }
}

/// The error that a failed step is.
pub fn browser_failed(step: BrowserStep, message: String) -> (res: Error)
    ensures
        res@ == browser_error(step, message@),
        step is Listen ==> res == (Error::CreateSSOCallbackServer { message }),
        step is Open ==> res == (Error::FailedToOpenWebBrowser { message }),
        step is Serve ==> res == (Error::FailedToProcessSSOCallback { msg: message }),
{
    match step {
        BrowserStep::Listen => Error::CreateSSOCallbackServer { message },
        BrowserStep::Open => Error::FailedToOpenWebBrowser { message },
        BrowserStep::Serve => callback_failure(message),
    }
}

/// The URL that the browser is sent back to.
pub open spec fn callback_at(port: u16) -> Seq<char> {
    "http://localhost:"@ + decimal(port as nat)
}

/// The URL of the login page: a callback to this port is asked for, with this state, and a code
/// that answers this challenge.
pub open spec fn login_page(
    ui_url: Seq<char>,
    port: u16,
    state: Seq<char>,
    challenge: Seq<char>,
    sso_id: Seq<char>,
) -> Seq<char> {
    ui_url + "/#/sso?clientId="@ + "cli"@ + "&redirectUri="@ + url_encoded(callback_at(port))
        + "&state="@ + state + "&codeChallenge="@ + challenge + "&identifier="@ + sso_id
}

/// The URL that the browser is sent back to.
pub fn callback_url(port: u16) -> (res: String)
    ensures
        res@ == callback_at(port),
        res@ == "http://localhost:"@ + decimal(port as nat),
{
    let port = decimal_string(port as u64);
    "http://localhost:".to_owned().concat(port.as_str())
}

impl SsoLogin {
    /// Starts a login, with a state and a code verifier that are left to chance.
    pub fn start() -> (res: SsoLogin)
        ensures
            res.state@.len() == SECRET_LENGTH,
            res.code_verifier@.len() == SECRET_LENGTH,
            res.state@.len() == 64,
            res.code_verifier@.len() == 64,
            forall|i: int| 0 <= i < SECRET_LENGTH ==> alphanumeric(#[trigger] res.state@[i]),
            forall|i: int|
                0 <= i < SECRET_LENGTH ==> alphanumeric(#[trigger] res.code_verifier@[i]),
    {
        SsoLogin {
            state: random_alphanumeric(SECRET_LENGTH),
            code_verifier: random_alphanumeric(SECRET_LENGTH),
        }
    }

    /// What the server is told of the code verifier.
    pub fn code_challenge(&self) -> (res: String)
        ensures
            res@ == challenge_of(self.code_verifier@),
            res@ == encoded(
                Alphabet::UrlSafe,
                sha256_digest(encode_utf8(self.code_verifier@)),
            ),
    {
        encode_url_safe_no_pad(sha256(self.code_verifier.as_str().as_bytes()).as_slice())
    }

    /// The URL of the login page, by a challenge.
    pub fn page_url(&self, client: &Client, port: u16, challenge: &str, sso_id: &str) -> (res:
        String)
        ensures
            res@ == login_page(client.ui_url@, port, self.state@, challenge@, sso_id@),
            res@ == client.ui_url@ + "/#/sso?clientId=cli&redirectUri="@ + url_encoded(
                "http://localhost:"@ + decimal(port as nat),
            ) + "&state="@ + self.state@ + "&codeChallenge="@ + challenge@ + "&identifier="@ + sso_id@,
    {
        proof {
            reveal_strlit("/#/sso?clientId=");
            reveal_strlit("cli");
            reveal_strlit("&redirectUri=");
            reveal_strlit("/#/sso?clientId=cli&redirectUri=");
            assert("/#/sso?clientId="@ + "cli"@ + "&redirectUri="@
                =~= "/#/sso?clientId=cli&redirectUri="@);
        }
        let callback = callback_url(port);
        let redirect = url_encode(callback.as_str());
        client.ui_url.clone().concat("/#/sso?clientId=").concat("cli").concat(
            "&redirectUri=",
        ).concat(redirect.as_str()).concat("&state=").concat(self.state.as_str()).concat(
            "&codeChallenge=",
        ).concat(challenge).concat("&identifier=").concat(sso_id)
    }

    /// The URL that the browser is opened with, for a callback to a free port.
    pub fn browser_url(&self, client: &Client, port: u16, sso_id: &str) -> (res: String)
        ensures
            res@ == login_page(
                client.ui_url@,
                port,
                self.state@,
                challenge_of(self.code_verifier@),
                sso_id@,
            ),
            res@ == client.ui_url@ + "/#/sso?clientId=cli&redirectUri="@ + url_encoded(
                "http://localhost:"@ + decimal(port as nat),
            ) + "&state="@ + self.state@ + "&codeChallenge="@ + encoded(
                Alphabet::UrlSafe,
                sha256_digest(encode_utf8(self.code_verifier@)),
            ) + "&identifier="@ + sso_id@,
    {
        let challenge = self.code_challenge();
        self.page_url(client, port, challenge.as_str(), sso_id)
    }

    /// Ends the login with what the callback brought.
    pub fn obtain_sso_code(self, port: u16, callback: Result<String, Error>) -> (res: Result<
        SsoCode,
        Error,
    >)
        ensures
            match callback {
                Ok(code) => res matches Ok(sso) && {
                    &&& sso.code@ == code@
                    &&& sso.code_verifier@ == self.code_verifier@
                    &&& sso.callback_url@ == callback_at(port)
                    &&& sso.callback_url@ == "http://localhost:"@ + decimal(port as nat)
                },
                Err(e) => res == Err::<SsoCode, Error>(e),
            },
    {
        match callback {
            Ok(code) => Ok(
                SsoCode {
                    code,
                    code_verifier: self.code_verifier,
                    callback_url: callback_url(port),
                },
            ),
            Err(e) => Err(e),
        }
    }
}

/// A callback with the state of a login is that login's: with the state alone, or with the
/// identifier behind it that the server may add, it gives the code that it brings.
pub proof fn law_own_callbacks_give_the_code(
    params: Seq<(Seq<char>, Seq<char>)>,
    state: Seq<char>,
    code: Seq<char>,
    identifier: Seq<char>,
)
    requires
        forall|i: int| 0 <= i < state.len() ==> alphanumeric(#[trigger] state[i]),
        last_value(params, "code"@) == Some(code),
        last_value(params, "state"@) == Some(state) || last_value(params, "state"@) == Some(
            state + "_identifier="@ + identifier,
        ),
    ensures
        callback_code(params, state) == Ok::<Seq<char>, ErrorView>(code),
{
    let pattern = "_identifier="@;
    let received = last_value(params, "state"@)->0;
    reveal_strlit("_identifier=");
    assert(state =~= received.take(state.len() as int));
    assert forall|i: int| 0 <= i < state.len() implies !occurs_at(received, pattern, i) by {
        if occurs_at(received, pattern, i) {
            assert(received.subrange(i, i + pattern.len())[0] == pattern[0]);
            assert(received[i] == state[i]);
        }
    }
    if received.len() > state.len() {
        let at = state.len() as int;
        assert(received.subrange(at, at + pattern.len()) =~= pattern);
    }
}

/// The code of single sign-on is exchanged with what the login page was told of: the code
/// verifier answers the challenge of the page, and the server is told the same callback.
pub proof fn law_sso_code_answers_the_challenge(
    login: SsoLogin,
    sso: &SsoCode,
    port: u16,
    email: Seq<char>,
    ui_url: Seq<char>,
    sso_id: Seq<char>,
    password_hash: Seq<u8>,
)
    requires
        sso.code_verifier@ == login.code_verifier@,
        sso.callback_url@ == callback_at(port),
    ensures
        match login_auth(email, Some(sso), password_hash) {
            ConnectTokenAuthView::AuthCode { code, code_verifier, redirect_uri } => {
                &&& code == sso.code@
                &&& login_page(
                    ui_url,
                    port,
                    login.state@,
                    challenge_of(login.code_verifier@),
                    sso_id,
                ) == ui_url + "/#/sso?clientId="@ + "cli"@ + "&redirectUri="@ + url_encoded(
                    redirect_uri,
                ) + "&state="@ + login.state@ + "&codeChallenge="@ + challenge_of(code_verifier)
                    + "&identifier="@ + sso_id
            },
            _ => false,
        },
{
}

} // verus!
