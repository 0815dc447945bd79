//! The requests that a client makes of the server, and what it makes of the answers.

use vstd::prelude::*;
use vstd::string::*;
use vstd::utf8::*;

use crate::api::{
    CiphersPostReq, ConnectTokenAuth, ConnectTokenAuthView, ConnectTokenReq, ConnectTokenReqView,
    EditedEntry, TwoFactorProviderType,
};
use crate::base64::{encode, encode_url_safe_no_pad, encoded, Alphabet};
use crate::error::{slice_text_of, text_of, Error, ErrorView};
use crate::pairs::{last_value, text_pairs};
use crate::text::{bytes_copy, decimal, decimal_string, utf8_text};

verus! {

broadcast use vstd::string::group_string_axioms;

/// The number by which the server knows this kind of device.
pub const DEVICE_TYPE: u8 = 8;

/// What a request does to what its URL names.
#[derive(Clone, Copy, Debug, PartialEq, Eq, Structural)]
pub enum Method {
    Get,
    Post,
    Put,
    Delete,
}

/// What a request carries. A payload `P` is sent as JSON, as its maker wrote it.
#[derive(Clone, Debug, PartialEq, Eq)]
pub enum Body<P> {
    Empty,
    /// A JSON object of string fields.
    Json(Vec<(String, String)>),
    /// The fields of a form.
    Form(Vec<(String, String)>),
    /// A request for a token, as a form.
    Token(ConnectTokenReq),
    /// A payload, as JSON.
    Payload(P),
}

/// What a [`Body`] says.
#[verifier::ext_equal]
pub enum BodyView<P> {
    Empty,
    Json(Seq<(Seq<char>, Seq<char>)>),
    Form(Seq<(Seq<char>, Seq<char>)>),
    Token(ConnectTokenReqView),
    Payload(P),
}

impl<P> View for Body<P> {
    type V = BodyView<P>;

    open spec fn view(&self) -> BodyView<P> {
        match *self {
            Body::Empty => BodyView::Empty,
            Body::Json(fields) => BodyView::Json(text_pairs(fields@)),
            Body::Form(fields) => BodyView::Form(text_pairs(fields@)),
            Body::Token(req) => BodyView::Token(req@),
            Body::Payload(p) => BodyView::Payload(p),
        }
    }
}

/// A request over HTTP.
#[derive(Clone, Debug, PartialEq, Eq)]
pub struct HttpRequest<P> {
    pub method: Method,
    pub url: String,
    pub headers: Vec<(String, String)>,
    pub body: Body<P>,
}

/// What an [`HttpRequest`] says.
#[verifier::ext_equal]
pub struct HttpRequestView<P> {
    pub method: Method,
    pub url: Seq<char>,
    pub headers: Seq<(Seq<char>, Seq<char>)>,
    pub body: BodyView<P>,
}

impl<P> View for HttpRequest<P> {
    type V = HttpRequestView<P>;

    open spec fn view(&self) -> HttpRequestView<P> {
        HttpRequestView {
            method: self.method,
            url: self.url@,
            headers: text_pairs(self.headers@),
            body: self.body@,
        }
    }
}

/// A server, and how to present oneself to it.
#[derive(Clone, Debug, PartialEq, Eq)]
pub struct Client {
    pub base_url: String,
    pub identity_url: String,
    pub ui_url: String,
    pub client_cert_path: Option<Vec<u8>>,
}

/// The requests that can be made.
#[derive(Clone, Debug, PartialEq, Eq)]
pub enum ClientRequest<'a, P> {
    Prelogin(&'a str),
    ConnectToken(ConnectTokenReq),
    Login(ConnectTokenReq, &'a str),
    SendEmailLogin(&'a str, &'a str, &'a str),
    Sync(&'a str),
    ExchangeRefreshToken(&'a str),
    Add(&'a str, P),
    Edit(&'a str, &'a str, P),
    Remove(&'a str, &'a str),
    Folders(&'a str),
    CreateFolder(&'a str, &'a str),
}

/// The header that shows an access token.
pub open spec fn bearer(access_token: Seq<char>) -> (Seq<char>, Seq<char>) {
    ("Authorization"@, "Bearer "@ + access_token)
}

/// The header that names the account that a login is for.
pub open spec fn auth_email(email: Seq<char>) -> (Seq<char>, Seq<char>) {
    ("auth-email"@, encoded(Alphabet::UrlSafe, encode_utf8(email)))
}

impl<'a, P> ClientRequest<'a, P> {
    /// The request over HTTP that a client's request is.
    pub open spec fn http(self, client: &Client) -> HttpRequestView<P> {
        match self {
            ClientRequest::Prelogin(email) => HttpRequestView {
                method: Method::Post,
                url: client.identity_url@ + "/accounts/prelogin"@,
                headers: seq![],
                body: BodyView::Json(seq![("email"@, email@)]),
            },
            ClientRequest::ConnectToken(req) => HttpRequestView {
                method: Method::Post,
                url: client.identity_url@ + "/connect/token"@,
                headers: seq![],
                body: BodyView::Token(req@),
            },
            ClientRequest::Login(req, email) => HttpRequestView {
                method: Method::Post,
                url: client.identity_url@ + "/connect/token"@,
                headers: seq![auth_email(email@)],
                body: BodyView::Token(req@),
            },
            ClientRequest::SendEmailLogin(email, device_identifier, session_token) =>
                HttpRequestView {
                method: Method::Post,
                url: client.base_url@ + "/two-factor/send-email-login"@,
                headers: seq![auth_email(email@)],
                body: BodyView::Json(
                    seq![
                        ("email"@, email@),
                        ("DeviceIdentifier"@, device_identifier@),
                        ("SsoEmail2faSessionToken"@, session_token@),
                    ],
                ),
            },
            ClientRequest::Sync(access_token) => HttpRequestView {
                method: Method::Get,
                url: client.base_url@ + "/sync"@,
                headers: seq![
                    bearer(access_token@),
                    ("Bitwarden-Client-Version"@, "2024.12.0"@),
                ],
                body: BodyView::Empty,
            },
            ClientRequest::ExchangeRefreshToken(refresh_token) => HttpRequestView {
                method: Method::Post,
                url: client.identity_url@ + "/connect/token"@,
                headers: seq![],
                body: BodyView::Form(
                    seq![
                        ("grant_type"@, "refresh_token"@),
                        ("client_id"@, "cli"@),
                        ("refresh_token"@, refresh_token@),
                    ],
                ),
            },
            ClientRequest::Add(access_token, payload) => HttpRequestView {
                method: Method::Post,
                url: client.base_url@ + "/ciphers"@,
                headers: seq![bearer(access_token@)],
                body: BodyView::Payload(payload),
            },
            ClientRequest::Edit(access_token, id, payload) => HttpRequestView {
                method: Method::Put,
                url: client.base_url@ + ("/ciphers/"@ + id@),
                headers: seq![bearer(access_token@)],
                body: BodyView::Payload(payload),
            },
            ClientRequest::Remove(access_token, id) => HttpRequestView {
                method: Method::Delete,
                url: client.base_url@ + ("/ciphers/"@ + id@),
                headers: seq![bearer(access_token@)],
                body: BodyView::Empty,
            },
            ClientRequest::Folders(access_token) => HttpRequestView {
                method: Method::Get,
                url: client.base_url@ + "/folders"@,
                headers: seq![bearer(access_token@)],
                body: BodyView::Empty,
            },
            ClientRequest::CreateFolder(access_token, name) => HttpRequestView {
                method: Method::Post,
                url: client.base_url@ + "/folders"@,
                headers: seq![bearer(access_token@)],
                body: BodyView::Json(seq![("name"@, name@)]),
            },
        }
    }

    /// The request over HTTP that a client's request is.
    pub fn req(self, client: &Client) -> (res: HttpRequest<P>)
        ensures
            res@ == self.http(client),
    {
        match self {
            ClientRequest::Prelogin(email) => HttpRequest {
                method: Method::Post,
                url: client.identity_url("/accounts/prelogin"),
                headers: no_fields(),
                body: Body::Json(one_field("email", email)),
            },
            ClientRequest::ConnectToken(req) => HttpRequest {
                method: Method::Post,
                url: client.identity_url("/connect/token"),
                headers: no_fields(),
                body: Body::Token(req),
            },
            ClientRequest::Login(req, email) => HttpRequest {
                method: Method::Post,
                url: client.identity_url("/connect/token"),
                headers: auth_email_header(email),
                body: Body::Token(req),
            },
            ClientRequest::SendEmailLogin(email, device_identifier, session_token) => {
                let mut fields = one_field("email", email);
                push_field(&mut fields, "DeviceIdentifier", device_identifier);
                push_field(&mut fields, "SsoEmail2faSessionToken", session_token);
                assert(text_pairs(fields@) =~= seq![
                    ("email"@, email@),
                    ("DeviceIdentifier"@, device_identifier@),
                    ("SsoEmail2faSessionToken"@, session_token@),
                ]);
                HttpRequest {
                    method: Method::Post,
                    url: client.api_url("/two-factor/send-email-login"),
                    headers: auth_email_header(email),
                    body: Body::Json(fields),
                }
            },
            ClientRequest::Sync(access_token) => {
                let mut headers = bearer_header(access_token);
                push_field(&mut headers, "Bitwarden-Client-Version", "2024.12.0");
                assert(text_pairs(headers@) =~= seq![
                    bearer(access_token@),
                    ("Bitwarden-Client-Version"@, "2024.12.0"@),
                ]);
                HttpRequest {
                    method: Method::Get,
                    url: client.api_url("/sync"),
                    headers,
                    body: Body::Empty,
                }
            },
            ClientRequest::ExchangeRefreshToken(refresh_token) => {
                let mut fields = one_field("grant_type", "refresh_token");
                push_field(&mut fields, "client_id", "cli");
                push_field(&mut fields, "refresh_token", refresh_token);
                assert(text_pairs(fields@) =~= seq![
                    ("grant_type"@, "refresh_token"@),
                    ("client_id"@, "cli"@),
                    ("refresh_token"@, refresh_token@),
                ]);
                HttpRequest {
                    method: Method::Post,
                    url: client.identity_url("/connect/token"),
                    headers: no_fields(),
                    body: Body::Form(fields),
                }
            },
            ClientRequest::Add(access_token, payload) => HttpRequest {
                method: Method::Post,
                url: client.api_url("/ciphers"),
                headers: bearer_header(access_token),
                body: Body::Payload(payload),
            },
            ClientRequest::Edit(access_token, id, payload) => {
                let path = "/ciphers/".to_owned().concat(id);
                HttpRequest {
                    method: Method::Put,
                    url: client.api_url(path.as_str()),
                    headers: bearer_header(access_token),
                    body: Body::Payload(payload),
                }
            },
            ClientRequest::Remove(access_token, id) => {
                let path = "/ciphers/".to_owned().concat(id);
                HttpRequest {
                    method: Method::Delete,
                    url: client.api_url(path.as_str()),
                    headers: bearer_header(access_token),
                    body: Body::Empty,
                }
            },
            ClientRequest::Folders(access_token) => HttpRequest {
                method: Method::Get,
                url: client.api_url("/folders"),
                headers: bearer_header(access_token),
                body: Body::Empty,
            },
            ClientRequest::CreateFolder(access_token, name) => HttpRequest {
                method: Method::Post,
                url: client.api_url("/folders"),
                headers: bearer_header(access_token),
                body: Body::Json(one_field("name", name)),
            },
        }
    }
}

/// An empty list.
fn no_fields() -> (res: Vec<(String, String)>)
    ensures
        text_pairs(res@) == Seq::<(Seq<char>, Seq<char>)>::empty(),
{
    let fields: Vec<(String, String)> = Vec::new();
    assert(text_pairs(fields@) =~= Seq::<(Seq<char>, Seq<char>)>::empty());
    fields
}

/// Adds a named value to a list.
fn push_field(fields: &mut Vec<(String, String)>, name: &str, value: &str)
    ensures
        text_pairs(final(fields)@) == text_pairs(old(fields)@).push((name@, value@)),
{
    let ghost earlier = fields@;
    fields.push((name.to_owned(), value.to_owned()));
    assert(text_pairs(fields@) =~= text_pairs(earlier).push((name@, value@)));
}

/// A list of one named value.
fn one_field(name: &str, value: &str) -> (res: Vec<(String, String)>)
    ensures
        text_pairs(res@) == seq![(name@, value@)],
{
    let mut fields = no_fields();
    push_field(&mut fields, name, value);
    assert(text_pairs(fields@) =~= seq![(name@, value@)]);
    fields
}

/// The header that shows an access token.
fn bearer_header(access_token: &str) -> (res: Vec<(String, String)>)
    ensures
        text_pairs(res@) == seq![bearer(access_token@)],
{
    let value = "Bearer ".to_owned().concat(access_token);
    one_field("Authorization", value.as_str())
}

/// The header that names the account that a login is for.
fn auth_email_header(email: &str) -> (res: Vec<(String, String)>)
    ensures
        text_pairs(res@) == seq![auth_email(email@)],
{
    let value = encode_url_safe_no_pad(email.as_bytes());
    one_field("auth-email", value.as_str())
}

impl Client {
    /// A client of the server at these URLs; it shows the certificate at the path, where one is
    /// given.
    pub fn new(
        base_url: &str,
        identity_url: &str,
        ui_url: &str,
        client_cert_path: Option<&[u8]>,
    ) -> (res: Client)
        ensures
            res.base_url@ == base_url@,
            res.identity_url@ == identity_url@,
            res.ui_url@ == ui_url@,
            match client_cert_path {
                Some(path) => res.client_cert_path matches Some(p) && p@ == path@,
                None => res.client_cert_path is None,
            },
    {
        Client {
            base_url: base_url.to_owned(),
            identity_url: identity_url.to_owned(),
            ui_url: ui_url.to_owned(),
            client_cert_path: match client_cert_path {
                Some(path) => Some(bytes_copy(path)),
                None => None,
            },
        }
    }

    /// The URL of a part of the API.
    pub fn api_url(&self, path: &str) -> (res: String)
        ensures
            res@ == self.base_url@ + path@,
    {
        self.base_url.clone().concat(path)
    }

    /// The URL of a part of the identity service.
    pub fn identity_url(&self, path: &str) -> (res: String)
        ensures
            res@ == self.identity_url@ + path@,
    {
        self.identity_url.clone().concat(path)
    }
}

/// `reqwest::Identity`: a certificate with its private key.
#[verifier::external_type_specification]
#[verifier::external_body]
pub struct ExReqwestIdentity(reqwest::Identity);

/// The certificate and private key that `reqwest::Identity::from_pem` finds in the bytes of a
/// file, or what it says is wrong with them.
pub uninterp spec fn pem_identity(pem: Seq<u8>) -> Result<reqwest::Identity, Seq<char>>;

/// What a file was parsed to by its view.
pub open spec fn identity_view(res: Result<reqwest::Identity, String>) -> Result<
    reqwest::Identity,
    Seq<char>,
> {
    match res {
        Ok(identity) => Ok(identity),
        Err(message) => Err(message@),
    }
}

/// `reqwest::Identity::from_pem`: the identity that it gives, or what it says where it gives
/// none, depends on the bytes alone.
#[verifier::external_body]
fn identity_from_pem(pem: &[u8]) -> (res: Result<reqwest::Identity, String>)
    ensures
        identity_view(res) == pem_identity(pem@),
{
    reqwest::Identity::from_pem(pem).map_err(|e| e.to_string())
}

/// How a client presents itself: the headers of every request, the name that it goes by, and the
/// certificate that it shows, where there is one.
pub struct ClientConfig {
    pub default_headers: Vec<(String, String)>,
    pub user_agent: String,
    pub identity: Option<reqwest::Identity>,
}

/// The bytes of a file, or why it could not be read, by their views.
pub open spec fn read_view(read: Option<Result<Vec<u8>, String>>) -> Option<
    Result<Seq<u8>, Seq<char>>,
> {
    match read {
        Some(Ok(bytes)) => Some(Ok(bytes@)),
        Some(Err(message)) => Some(Err(message@)),
        None => None,
    }
}

/// The path of a certificate by its view.
pub open spec fn path_view(path: Option<Vec<u8>>) -> Option<Seq<u8>> {
    match path {
        Some(path) => Some(path@),
        None => None,
    }
}

/// The certificate that a client shows, by where that is and what was read there: none, where
/// there is no path to one, or nothing was read. A file that could not be read, or is no
/// certificate, is an error.
pub open spec fn shown_certificate(
    path: Option<Seq<u8>>,
    read: Option<Result<Seq<u8>, Seq<char>>>,
) -> Result<Option<reqwest::Identity>, ErrorView> {
    match (path, read) {
        (Some(file), Some(Err(message))) => Err(ErrorView::LoadClientCert { file, message }),
        (Some(_), Some(Ok(pem))) => certificate_outcome(pem_identity(pem)),
        _ => Ok(None),
    }
}

/// What a parsed certificate comes to.
pub open spec fn certificate_outcome(parsed: Result<reqwest::Identity, Seq<char>>) -> Result<
    Option<reqwest::Identity>,
    ErrorView,
> {
    match parsed {
        Ok(identity) => Ok(Some(identity)),
        Err(message) => Err(ErrorView::CreateReqwestClient { message }),
    }
}

/// The certificate, or an error, by its view.
pub open spec fn certificate_view(res: Result<Option<reqwest::Identity>, Error>) -> Result<
    Option<reqwest::Identity>,
    ErrorView,
> {
    match res {
        Ok(identity) => Ok(identity),
        Err(e) => Err(e@),
    }
}

/// The certificate that a file was parsed to.
pub fn parsed_identity(parsed: Result<reqwest::Identity, String>) -> (res: Result<
    Option<reqwest::Identity>,
    Error,
>)
    ensures
        certificate_view(res) == certificate_outcome(identity_view(parsed)),
        parsed matches Ok(identity) ==> (res matches Ok(Some(shown)) && shown == identity),
        parsed matches Err(reason) ==> (res matches Err(Error::CreateReqwestClient { message })
            && message@ == reason@),
{
    match parsed {
        Ok(identity) => Ok(Some(identity)),
        Err(message) => Err(Error::CreateReqwestClient { message }),
    }
}

/// The headers of every request.
pub open spec fn default_headers() -> Seq<(Seq<char>, Seq<char>)> {
    seq![
        ("Bitwarden-Client-Name"@, "cli"@),
        ("Bitwarden-Client-Version"@, "2024.12.0"@),
        ("Device-Type"@, decimal(DEVICE_TYPE as nat)),
    ]
}

/// Which statuses of an answer are failures.
#[derive(Clone, Copy, Debug, PartialEq, Eq, Structural)]
pub enum StatusCheck {
    /// None: the body tells.
    Any,
    /// Those of client and server errors.
    NoError,
    /// All but 200.
    OnlyOk,
    /// All but 200, with the reason in the body.
    ConnectToken,
}

/// A request, and which statuses of its answer are failures.
#[derive(Clone, Debug, PartialEq, Eq)]
pub struct Call<P> {
    pub request: HttpRequest<P>,
    pub check: StatusCheck,
}

impl<P> Call<P> {
    /// Whether this is the call that makes a client's request and checks its status so.
    pub open spec fn makes(
        &self,
        request: ClientRequest<'_, P>,
        client: &Client,
        check: StatusCheck,
    ) -> bool {
        &&& self.request@ == request.http(client)
        &&& self.check == check
    }
}

/// What the body of an answer says of a refused request for a token.
#[derive(Clone, Debug, PartialEq, Eq)]
pub enum ErrorBody {
    /// It could not be read.
    Unreadable,
    /// It is no error message.
    Unparsed,
    /// It is an error message that stands for no known error.
    Unclassified,
    /// It is an error message that stands for this error.
    Classified(Error),
}

/// The failure that a status is, where client and server errors are failures: the error that
/// `reqwest` makes of it, and not the one for a status other than 200.
pub open spec fn status_failure(status: u16) -> Option<ErrorView> {
    if 400 <= status < 600 {
        Some(ErrorView::Reqwest { status })
    } else {
        None
    }
}

/// The failure that a status other than 200 is.
pub open spec fn not_ok_failure(status: u16) -> Option<ErrorView> {
    if status == 200 {
        None
    } else {
        Some(ErrorView::RequestFailed { status })
    }
}

/// The failure that the answer to a request for a token is: a known error where the body names
/// one, and else no more than the status.
pub open spec fn token_failure(status: u16, body: ErrorBody) -> Option<ErrorView> {
    match body {
        ErrorBody::Classified(e) if status != 200 => Some(e@),
        _ => not_ok_failure(status),
    }
}

/// The failure of a result by its view.
pub open spec fn failure_of(res: Result<(), Error>) -> Option<ErrorView> {
    match res {
        Ok(_) => None,
        Err(e) => Some(e@),
    }
}

/// Whether a status is that of a client or server error.
pub fn error_for_status(status: u16) -> (res: Result<(), Error>)
    ensures
        failure_of(res) == status_failure(status),
        res is Err <==> 400 <= status <= 599,
        res matches Err(e) ==> e == (Error::Reqwest { status }),
{
    if 400 <= status && status < 600 {
        Err(Error::Reqwest { status })
    } else {
        Ok(())
    }
}

/// Whether a status is anything but 200.
pub fn only_ok(status: u16) -> (res: Result<(), Error>)
    ensures
        failure_of(res) == not_ok_failure(status),
        res is Err <==> status != 200,
        res matches Err(e) ==> e == (Error::RequestFailed { status }),
{
    if status == 200 {
        Ok(())
    } else {
        Err(Error::RequestFailed { status })
    }
}

/// The failure that an answer is, by the check that its request calls for.
pub open spec fn call_failure(check: StatusCheck, status: u16, body: ErrorBody) -> Option<
    ErrorView,
> {
    match check {
        StatusCheck::Any => None,
        StatusCheck::NoError => status_failure(status),
        StatusCheck::OnlyOk => not_ok_failure(status),
        StatusCheck::ConnectToken => token_failure(status, body),
    }
}

/// Whether an answer is a failure, by the check that its request calls for.
pub fn check_answer(check: StatusCheck, status: u16, body: ErrorBody) -> (res: Result<(), Error>)
    ensures
        failure_of(res) == call_failure(check, status, body),
        check is Any ==> res is Ok,
        check is NoError ==> (res is Err <==> 400 <= status <= 599),
        check is NoError ==> (res matches Err(e) ==> e == (Error::Reqwest { status })),
        check is OnlyOk || check is ConnectToken ==> (res is Err <==> status != 200),
        check is OnlyOk ==> (res matches Err(e) ==> e == (Error::RequestFailed { status })),
        check is ConnectToken ==> (res matches Err(e) ==> e == match body {
            ErrorBody::Classified(known) => known,
            _ => (Error::RequestFailed { status }),
        }),
{
    match check {
        StatusCheck::Any => Ok(()),
        StatusCheck::NoError => error_for_status(status),
        StatusCheck::OnlyOk => only_ok(status),
        StatusCheck::ConnectToken => Client::check_connect_token_res(status, body),
    }
}

/// The code that single sign-on ended with, and what the server checks it by.
#[derive(Clone, Debug, PartialEq, Eq)]
pub struct SsoCode {
    pub code: String,
    pub code_verifier: String,
    pub callback_url: String,
}

/// How a login proves who it is: by the code of single sign-on, or by the password hash.
pub open spec fn login_auth(
    email: Seq<char>,
    sso: Option<&SsoCode>,
    password_hash: Seq<u8>,
) -> ConnectTokenAuthView {
    match sso {
        Some(sso) => ConnectTokenAuthView::AuthCode {
            code: sso.code@,
            code_verifier: sso.code_verifier@,
            redirect_uri: sso.callback_url@,
        },
        None => ConnectTokenAuthView::Password {
            username: email,
            password: encoded(Alphabet::Standard, password_hash),
        },
    }
}

/// The request for a token that a login makes.
pub open spec fn login_request(
    email: Seq<char>,
    sso: Option<&SsoCode>,
    device_id: Seq<char>,
    password_hash: Seq<u8>,
    two_factor_token: Option<Seq<char>>,
    two_factor_provider: Option<TwoFactorProviderType>,
    new_device_otp: Option<Seq<char>>,
) -> ConnectTokenReqView {
    ConnectTokenReqView {
        auth: login_auth(email, sso, password_hash),
        grant_type: if sso is Some {
            "authorization_code"@
        } else {
            "password"@
        },
        scope: "api offline_access"@,
        client_id: "cli"@,
        device_type: DEVICE_TYPE as u32,
        device_identifier: device_id,
        device_name: "rbw"@,
        device_push_token: ""@,
        two_factor_token,
        two_factor_provider: match two_factor_provider {
            Some(provider) => Some(provider.spec_code()),
            None => None,
        },
        new_device_otp,
    }
}

/// The request for a token that registers a device by an API key.
pub open spec fn register_request(
    email: Seq<char>,
    device_id: Seq<char>,
    client_id: Seq<char>,
    client_secret: Seq<char>,
) -> ConnectTokenReqView {
    ConnectTokenReqView {
        auth: ConnectTokenAuthView::ClientCredentials { username: email, client_secret },
        grant_type: "client_credentials"@,
        scope: "api"@,
        client_id,
        device_type: DEVICE_TYPE as u32,
        device_identifier: device_id,
        device_name: "rbw"@,
        device_push_token: ""@,
        two_factor_token: None,
        two_factor_provider: None,
        new_device_otp: None,
    }
}

/// A copy of an optional string.
fn owned(s: Option<&str>) -> (res: Option<String>)
    ensures
        text_of(res) == slice_text_of(s),
        res is Some <==> s is Some,
        s matches Some(text) ==> res->Some_0@ == text@,
{
    match s {
        Some(x) => Some(x.to_owned()),
        None => None,
    }
}

/// What the lists of a request hold, entry by entry.
proof fn lemma_request_fields<P>(request: &HttpRequest<P>)
    ensures
        request@.headers.len() == request.headers@.len(),
        forall|i: int|
            #![trigger request.headers@[i]]
            0 <= i < request.headers@.len() ==> request@.headers[i] == (
                request.headers@[i].0@,
                request.headers@[i].1@,
            ),
        request.body matches Body::Json(fields) ==> {
            &&& request@.body is Json
            &&& request@.body->Json_0.len() == fields@.len()
            &&& forall|i: int|
                #![trigger fields@[i]]
                0 <= i < fields@.len() ==> request@.body->Json_0[i] == (fields@[i].0@, fields@[i].1@)
        },
        request.body matches Body::Form(fields) ==> {
            &&& request@.body is Form
            &&& request@.body->Form_0.len() == fields@.len()
            &&& forall|i: int|
                #![trigger fields@[i]]
                0 <= i < fields@.len() ==> request@.body->Form_0[i] == (fields@[i].0@, fields@[i].1@)
        },
{
}

/// A request for a token as it goes over HTTP.
pub open spec fn token_call(client: &Client, req: ConnectTokenReqView) -> HttpRequestView<()> {
    HttpRequestView {
        method: Method::Post,
        url: client.identity_url@ + "/connect/token"@,
        headers: seq![],
        body: BodyView::Token(req),
    }
}

impl Client {
    /// The certificate that the client shows, by what was read at its path, where it has one.
    pub fn client_identity(&self, read: Option<Result<Vec<u8>, String>>) -> (res: Result<
        Option<reqwest::Identity>,
        Error,
    >)
        ensures
            certificate_view(res) == shown_certificate(
                path_view(self.client_cert_path),
                read_view(read),
            ),
            self.client_cert_path is None || read is None ==> (res matches Ok(shown) && shown
                is None),
            self.client_cert_path matches Some(path) ==> match read {
                None => true,
                Some(Err(reason)) => res matches Err(Error::LoadClientCert { file, message })
                    && file@ == path@ && message@ == reason@,
                Some(Ok(pem)) => match pem_identity(pem@) {
                    Ok(identity) => res matches Ok(Some(shown)) && shown == identity,
                    Err(reason) => res matches Err(Error::CreateReqwestClient { message })
                        && message@ == reason,
                },
            },
    {
        match (&self.client_cert_path, read) {
            (Some(_), Some(Ok(pem))) => parsed_identity(identity_from_pem(pem.as_slice())),
            (Some(path), Some(Err(message))) => Err(
                Error::LoadClientCert { file: bytes_copy(path.as_slice()), message },
            ),
            _ => Ok(None),
        }
    }

    /// How the client presents itself, as this version of this package, by what was read at the
    /// path of its certificate, where it has one.
    pub fn reqwest_client(
        &self,
        package: &str,
        version: &str,
        read: Option<Result<Vec<u8>, String>>,
    ) -> (res: Result<ClientConfig, Error>)
        ensures
            match shown_certificate(path_view(self.client_cert_path), read_view(read)) {
                Ok(shown) => res matches Ok(config) && {
                    &&& text_pairs(config.default_headers@) == default_headers()
                    &&& config.user_agent@ == package@ + "/"@ + version@
                    &&& config.identity == shown
                },
                Err(e) => res matches Err(error) && error@ == e,
            },
            res matches Ok(config) ==> {
                &&& config.default_headers@.len() == 3
                &&& config.default_headers@[0].0@ == "Bitwarden-Client-Name"@
                &&& config.default_headers@[0].1@ == "cli"@
                &&& config.default_headers@[1].0@ == "Bitwarden-Client-Version"@
                &&& config.default_headers@[1].1@ == "2024.12.0"@
                &&& config.default_headers@[2].0@ == "Device-Type"@
                &&& config.default_headers@[2].1@ == "8"@
            },
            self.client_cert_path is None ==> (res matches Ok(config) && config.identity is None),
            self.client_cert_path matches Some(path) ==> match read {
                None => res matches Ok(config) && config.identity is None,
                Some(Err(reason)) => res matches Err(Error::LoadClientCert { file, message })
                    && file@ == path@ && message@ == reason@,
                Some(Ok(pem)) => match pem_identity(pem@) {
                    Ok(identity) => res matches Ok(config) && config.identity == Some(identity),
                    Err(reason) => res matches Err(Error::CreateReqwestClient { message })
                        && message@ == reason,
                },
            },
    {
        let identity = match self.client_identity(read) {
            Ok(identity) => identity,
            Err(e) => {
                return Err(e);
            },
        };
        let mut headers = one_field("Bitwarden-Client-Name", "cli");
        push_field(&mut headers, "Bitwarden-Client-Version", "2024.12.0");
        let device_type = decimal_string(DEVICE_TYPE as u64);
        push_field(&mut headers, "Device-Type", device_type.as_str());
        assert(text_pairs(headers@) =~= default_headers());
        proof {
            reveal_strlit("8");
            assert(decimal(DEVICE_TYPE as nat) =~= "8"@);
            assert(text_pairs(headers@)[0] == (headers@[0].0@, headers@[0].1@));
            assert(text_pairs(headers@)[1] == (headers@[1].0@, headers@[1].1@));
            assert(text_pairs(headers@)[2] == (headers@[2].0@, headers@[2].1@));
        }
        Ok(
            ClientConfig {
                default_headers: headers,
                user_agent: package.to_owned().concat("/").concat(version),
                identity,
            },
        )
    }

    /// Asks how the master key of an account is derived.
    pub fn prelogin(&self, email: &str) -> (res: Call<()>)
        ensures
            res.makes(ClientRequest::Prelogin(email), self, StatusCheck::Any),
            res.request.method == Method::Post,
            res.request.url@ == self.identity_url@ + "/accounts/prelogin"@,
            res.request.headers@.len() == 0,
            res.request.body matches Body::Json(fields) && {
                &&& fields@.len() == 1
                &&& fields@[0].0@ == "email"@
                &&& fields@[0].1@ == email@
            },
            res.check == StatusCheck::Any,
    {
        let request = ClientRequest::<()>::Prelogin(email).req(self);
        proof {
            lemma_request_fields(&request);
        }
        Call { request, check: StatusCheck::Any }
    }

    /// Whether the answer to a request for a token is a failure, and which.
    pub fn check_connect_token_res(status: u16, body: ErrorBody) -> (res: Result<(), Error>)
        ensures
            failure_of(res) == token_failure(status, body),
            res is Err <==> status != 200,
            res matches Err(e) ==> e == match body {
                ErrorBody::Classified(known) => known,
                _ => (Error::RequestFailed { status }),
            },
    {
        if status == 200 {
            return Ok(());
        }
        match body {
            ErrorBody::Classified(e) => Err(e),
            ErrorBody::Unclassified | ErrorBody::Unparsed | ErrorBody::Unreadable => Err(
                Error::RequestFailed { status },
            ),
        }
    }

    /// Registers a device by an API key, both halves of which are text.
    pub fn register(
        &self,
        email: &str,
        device_id: &str,
        client_id: &[u8],
        client_secret: &[u8],
    ) -> (res: Call<()>)
        requires
            valid_utf8(client_id@),
            valid_utf8(client_secret@),
        ensures
            res.request@ == token_call(
                self,
                register_request(
                    email@,
                    device_id@,
                    decode_utf8(client_id@),
                    decode_utf8(client_secret@),
                ),
            ),
            res.request.method == Method::Post,
            res.request.url@ == self.identity_url@ + "/connect/token"@,
            res.request.headers@.len() == 0,
            res.request.body matches Body::Token(req) && {
                &&& req.auth matches ConnectTokenAuth::ClientCredentials {
                    username,
                    client_secret: secret,
                } && username@ == email@ && secret@ == decode_utf8(client_secret@)
                &&& req.client_id@ == decode_utf8(client_id@)
                &&& req.grant_type@ == "client_credentials"@
                &&& req.scope@ == "api"@
                &&& req.device_type == 8
                &&& req.device_identifier@ == device_id@
                &&& req.device_name@ == "rbw"@
                &&& req.device_push_token@ == ""@
                &&& req.two_factor_token is None
                &&& req.two_factor_provider is None
                &&& req.new_device_otp is None
            },
            res.check == StatusCheck::ConnectToken,
    {
        let req = ConnectTokenReq {
            auth: ConnectTokenAuth::ClientCredentials {
                username: email.to_owned(),
                client_secret: utf8_text(client_secret).unwrap(),
            },
            grant_type: "client_credentials".to_owned(),
            scope: "api".to_owned(),
            client_id: utf8_text(client_id).unwrap(),
            device_type: DEVICE_TYPE as u32,
            device_identifier: device_id.to_owned(),
            device_name: "rbw".to_owned(),
            device_push_token: "".to_owned(),
            two_factor_token: None,
            two_factor_provider: None,
            new_device_otp: None,
        };
        let request = ClientRequest::<()>::ConnectToken(req).req(self);
        proof {
            lemma_request_fields(&request);
        }
        Call { request, check: StatusCheck::ConnectToken }
    }

    /// Logs in.
    pub fn login(
        &self,
        email: &str,
        sso: Option<&SsoCode>,
        device_id: &str,
        password_hash: &[u8],
        two_factor_token: Option<&str>,
        two_factor_provider: Option<TwoFactorProviderType>,
        new_device_otp: Option<&str>,
    ) -> (res: Call<()>)
        ensures
            res.request@ == (HttpRequestView {
                headers: seq![auth_email(email@)],
                ..token_call(
                    self,
                    login_request(
                        email@,
                        sso,
                        device_id@,
                        password_hash@,
                        slice_text_of(two_factor_token),
                        two_factor_provider,
                        slice_text_of(new_device_otp),
                    ),
                )
            }),
            res.request.method == Method::Post,
            res.request.url@ == self.identity_url@ + "/connect/token"@,
            res.request.headers@.len() == 1,
            res.request.headers@[0].0@ == "auth-email"@,
            res.request.headers@[0].1@ == encoded(Alphabet::UrlSafe, encode_utf8(email@)),
            res.request.body matches Body::Token(req) && {
                &&& match two_factor_token {
                    Some(given) => req.two_factor_token matches Some(sent) && sent@ == given@,
                    None => req.two_factor_token is None,
                }
                &&& match new_device_otp {
                    Some(given) => req.new_device_otp matches Some(sent) && sent@ == given@,
                    None => req.new_device_otp is None,
                }
                &&& match two_factor_provider {
                    Some(given) => req.two_factor_provider == Some(given.spec_code()),
                    None => req.two_factor_provider is None,
                }
                &&& match sso {
                    Some(sso) => req.auth matches ConnectTokenAuth::AuthCode {
                        code,
                        code_verifier,
                        redirect_uri,
                    } && code@ == sso.code@ && code_verifier@ == sso.code_verifier@
                        && redirect_uri@ == sso.callback_url@,
                    None => req.auth matches ConnectTokenAuth::Password { username, password }
                        && username@ == email@ && password@ == encoded(
                        Alphabet::Standard,
                        password_hash@,
                    ),
                }
                &&& sso is Some ==> req.grant_type@ == "authorization_code"@
                &&& sso is None ==> req.grant_type@ == "password"@
                &&& req.scope@ == "api offline_access"@
                &&& req.client_id@ == "cli"@
                &&& req.device_type == 8
                &&& req.device_identifier@ == device_id@
                &&& req.device_name@ == "rbw"@
                &&& req.device_push_token@ == ""@
            },
            res.check == StatusCheck::ConnectToken,
    {
        let (auth, grant_type) = match sso {
            Some(sso) => (
                ConnectTokenAuth::AuthCode {
                    code: sso.code.clone(),
                    code_verifier: sso.code_verifier.clone(),
                    redirect_uri: sso.callback_url.clone(),
                },
                "authorization_code",
            ),
            None => (
                ConnectTokenAuth::Password {
                    username: email.to_owned(),
                    password: encode(password_hash),
                },
                "password",
            ),
        };
        let req = ConnectTokenReq {
            auth,
            grant_type: grant_type.to_owned(),
            scope: "api offline_access".to_owned(),
            client_id: "cli".to_owned(),
            device_type: DEVICE_TYPE as u32,
            device_identifier: device_id.to_owned(),
            device_name: "rbw".to_owned(),
            device_push_token: "".to_owned(),
            two_factor_token: owned(two_factor_token),
            two_factor_provider: match two_factor_provider {
                Some(provider) => Some(provider.code()),
                None => None,
            },
            new_device_otp: owned(new_device_otp),
        };
        let request = ClientRequest::<()>::Login(req, email).req(self);
        proof {
            lemma_request_fields(&request);
        }
        Call { request, check: StatusCheck::ConnectToken }
    }

    /// Has the server mail a code for the second step of a login.
    pub fn send_email_login(
        &self,
        email: &str,
        device_id: &str,
        sso_email_2fa_session_token: &str,
    ) -> (res: Call<()>)
        ensures
            res.makes(
                ClientRequest::SendEmailLogin(email, device_id, sso_email_2fa_session_token),
                self,
                StatusCheck::OnlyOk,
            ),
            res.request.method == Method::Post,
            res.request.url@ == self.base_url@ + "/two-factor/send-email-login"@,
            res.request.headers@.len() == 1,
            res.request.headers@[0].0@ == "auth-email"@,
            res.request.headers@[0].1@ == encoded(Alphabet::UrlSafe, encode_utf8(email@)),
            res.request.body matches Body::Json(fields) && {
                &&& fields@.len() == 3
                &&& fields@[0].0@ == "email"@
                &&& fields@[0].1@ == email@
                &&& fields@[1].0@ == "DeviceIdentifier"@
                &&& fields@[1].1@ == device_id@
                &&& fields@[2].0@ == "SsoEmail2faSessionToken"@
                &&& fields@[2].1@ == sso_email_2fa_session_token@
            },
            res.check == StatusCheck::OnlyOk,
    {
        let request = ClientRequest::<()>::SendEmailLogin(
            email,
            device_id,
            sso_email_2fa_session_token,
        ).req(self);
        proof {
            lemma_request_fields(&request);
        }
        Call { request, check: StatusCheck::OnlyOk }
    }

    /// Fetches the vault.
    pub fn sync(&self, access_token: &str) -> (res: Call<()>)
        ensures
            res.makes(ClientRequest::Sync(access_token), self, StatusCheck::NoError),
            res.request.method == Method::Get,
            res.request.url@ == self.base_url@ + "/sync"@,
            res.request.headers@.len() == 2,
            res.request.headers@[0].0@ == "Authorization"@,
            res.request.headers@[0].1@ == "Bearer "@ + access_token@,
            res.request.headers@[1].0@ == "Bitwarden-Client-Version"@,
            res.request.headers@[1].1@ == "2024.12.0"@,
            res.request.body is Empty,
            res.check == StatusCheck::NoError,
    {
        let request = ClientRequest::<()>::Sync(access_token).req(self);
        proof {
            lemma_request_fields(&request);
        }
        Call { request, check: StatusCheck::NoError }
    }

    /// Adds an entry of a type, with the fields of that type.
    pub fn add<D>(
        &self,
        access_token: &str,
        name: &str,
        ty: u32,
        data: D,
        notes: Option<&str>,
        folder_id: Option<&str>,
    ) -> (res: Call<CiphersPostReq<D>>)
        ensures
            res.request.body matches Body::Payload(entry) && {
                &&& entry.ty == ty
                &&& entry.name@ == name@
                &&& text_of(entry.notes) == slice_text_of(notes)
                &&& text_of(entry.folder_id) == slice_text_of(folder_id)
                &&& entry.notes is Some <==> notes is Some
                &&& notes matches Some(text) ==> entry.notes->Some_0@ == text@
                &&& entry.folder_id is Some <==> folder_id is Some
                &&& folder_id matches Some(text) ==> entry.folder_id->Some_0@ == text@
                &&& entry.data == data
                &&& res.makes(
                    ClientRequest::Add(access_token, entry),
                    self,
                    StatusCheck::NoError,
                )
            },
            res.request.method == Method::Post,
            res.request.url@ == self.base_url@ + "/ciphers"@,
            res.request.headers@.len() == 1,
            res.request.headers@[0].0@ == "Authorization"@,
            res.request.headers@[0].1@ == "Bearer "@ + access_token@,
            res.check == StatusCheck::NoError,
    {
        let entry = CiphersPostReq {
            ty,
            folder_id: owned(folder_id),
            name: name.to_owned(),
            notes: owned(notes),
            data,
        };
        let request = ClientRequest::Add(access_token, entry).req(self);
        assert(request@.body is Payload);
        proof {
            lemma_request_fields(&request);
        }
        Call { request, check: StatusCheck::NoError }
    }

    /// Puts an entry in the place of the one with its identifier.
    pub fn edit<P>(&self, access_token: &str, entry: EditedEntry<P>) -> (res: Call<P>)
        ensures
            res.request@ == (HttpRequestView {
                method: Method::Put,
                url: self.base_url@ + ("/ciphers/"@ + entry.id@),
                headers: seq![bearer(access_token@)],
                body: BodyView::Payload(entry.fields),
            }),
            res.request.method == Method::Put,
            res.request.url@ == self.base_url@ + "/ciphers/"@ + entry.id@,
            res.request.headers@.len() == 1,
            res.request.headers@[0].0@ == "Authorization"@,
            res.request.headers@[0].1@ == "Bearer "@ + access_token@,
            res.request.body == Body::Payload(entry.fields),
            res.check == StatusCheck::NoError,
    {
        let EditedEntry { id, fields } = entry;
        let request = ClientRequest::Edit(access_token, id.as_str(), fields).req(self);
        proof {
            lemma_request_fields(&request);
        }
        Call { request, check: StatusCheck::NoError }
    }

    /// Removes an entry.
    pub fn remove(&self, access_token: &str, id: &str) -> (res: Call<()>)
        ensures
            res.makes(ClientRequest::Remove(access_token, id), self, StatusCheck::NoError),
            res.request.method == Method::Delete,
            res.request.url@ == self.base_url@ + "/ciphers/"@ + id@,
            res.request.headers@.len() == 1,
            res.request.headers@[0].0@ == "Authorization"@,
            res.request.headers@[0].1@ == "Bearer "@ + access_token@,
            res.request.body is Empty,
            res.check == StatusCheck::NoError,
    {
        let request = ClientRequest::<()>::Remove(access_token, id).req(self);
        proof {
            lemma_request_fields(&request);
        }
        Call { request, check: StatusCheck::NoError }
    }

    /// Lists the folders.
    pub fn folders(&self, access_token: &str) -> (res: Call<()>)
        ensures
            res.makes(ClientRequest::Folders(access_token), self, StatusCheck::NoError),
            res.request.method == Method::Get,
            res.request.url@ == self.base_url@ + "/folders"@,
            res.request.headers@.len() == 1,
            res.request.headers@[0].0@ == "Authorization"@,
            res.request.headers@[0].1@ == "Bearer "@ + access_token@,
            res.request.body is Empty,
            res.check == StatusCheck::NoError,
    {
        let request = ClientRequest::<()>::Folders(access_token).req(self);
        proof {
            lemma_request_fields(&request);
        }
        Call { request, check: StatusCheck::NoError }
    }

    /// Makes a folder.
    pub fn create_folder(&self, access_token: &str, name: &str) -> (res: Call<()>)
        ensures
            res.makes(ClientRequest::CreateFolder(access_token, name), self, StatusCheck::NoError),
            res.request.method == Method::Post,
            res.request.url@ == self.base_url@ + "/folders"@,
            res.request.headers@.len() == 1,
            res.request.headers@[0].0@ == "Authorization"@,
            res.request.headers@[0].1@ == "Bearer "@ + access_token@,
            res.request.body matches Body::Json(fields) && {
                &&& fields@.len() == 1
                &&& fields@[0].0@ == "name"@
                &&& fields@[0].1@ == name@
            },
            res.check == StatusCheck::NoError,
    {
        let request = ClientRequest::<()>::CreateFolder(access_token, name).req(self);
        proof {
            lemma_request_fields(&request);
        }
        Call { request, check: StatusCheck::NoError }
    }

    /// Asks for a new access token.
    pub fn exchange_refresh_token(&self, refresh_token: &str) -> (res: Call<()>)
        ensures
            res.makes(ClientRequest::ExchangeRefreshToken(refresh_token), self, StatusCheck::Any),
            res.request.method == Method::Post,
            res.request.url@ == self.identity_url@ + "/connect/token"@,
            res.request.headers@.len() == 0,
            res.request.body matches Body::Form(fields) && {
                &&& fields@.len() == 3
                &&& fields@[0].0@ == "grant_type"@
                &&& fields@[0].1@ == "refresh_token"@
                &&& fields@[1].0@ == "client_id"@
                &&& fields@[1].1@ == "cli"@
                &&& fields@[2].0@ == "refresh_token"@
                &&& fields@[2].1@ == refresh_token@
            },
            res.check == StatusCheck::Any,
    {
        let request = ClientRequest::<()>::ExchangeRefreshToken(refresh_token).req(self);
        proof {
            lemma_request_fields(&request);
        }
        Call { request, check: StatusCheck::Any }
    }

    /// Asks for a new access token: the same request, for callers that do not wait for it.
    pub fn exchange_refresh_token_async(&self, refresh_token: &str) -> (res: Call<()>)
        ensures
            res.makes(ClientRequest::ExchangeRefreshToken(refresh_token), self, StatusCheck::Any),
            res.request.method == Method::Post,
            res.request.url@ == self.identity_url@ + "/connect/token"@,
            res.request.headers@.len() == 0,
            res.request.body matches Body::Form(fields) && {
                &&& fields@.len() == 3
                &&& fields@[0].0@ == "grant_type"@
                &&& fields@[0].1@ == "refresh_token"@
                &&& fields@[1].0@ == "client_id"@
                &&& fields@[1].1@ == "cli"@
                &&& fields@[2].0@ == "refresh_token"@
                &&& fields@[2].1@ == refresh_token@
            },
            res.check == StatusCheck::Any,
    {
        self.exchange_refresh_token(refresh_token)
    }
}

/// The codes that the user typed are sent as they were given, whatever else a login is made with:
/// two logins with the same codes send the same codes, by single sign-on or by password.
pub proof fn law_codes_are_sent_as_given(
    email: Seq<char>,
    sso: Option<&SsoCode>,
    device_id: Seq<char>,
    password_hash: Seq<u8>,
    provider: Option<TwoFactorProviderType>,
    other_email: Seq<char>,
    other_sso: Option<&SsoCode>,
    other_device_id: Seq<char>,
    other_password_hash: Seq<u8>,
    other_provider: Option<TwoFactorProviderType>,
    code: Option<Seq<char>>,
    otp: Option<Seq<char>>,
)
    ensures
        ({
            let one = login_request(email, sso, device_id, password_hash, code, provider, otp);
            let other = login_request(
                other_email,
                other_sso,
                other_device_id,
                other_password_hash,
                code,
                other_provider,
                otp,
            );
            &&& one.two_factor_token == code
            &&& one.new_device_otp == otp
            &&& other.two_factor_token == one.two_factor_token
            &&& other.new_device_otp == one.new_device_otp
            &&& provider == other_provider ==> one.two_factor_provider == other.two_factor_provider
            &&& provider is None <==> one.two_factor_provider is None
            &&& one.device_identifier == device_id
        }),
{
}

/// The status 200 is a failure of no call. Those of client and server errors are failures of every
/// call that looks at the status, and where only they are, every other status is none. What the
/// server says of a refused login is told as it says it.
pub proof fn law_errors_are_failures(check: StatusCheck, status: u16, body: ErrorBody)
    ensures
        call_failure(check, 200, body) is None,
        call_failure(StatusCheck::Any, status, body) is None,
        400 <= status <= 599 && !(check is Any) ==> call_failure(check, status, body) is Some,
        call_failure(StatusCheck::NoError, status, body) is Some ==> 400 <= status <= 599,
        status != 200 ==> call_failure(StatusCheck::OnlyOk, status, body) is Some && call_failure(
            StatusCheck::ConnectToken,
            status,
            body,
        ) is Some,
        call_failure(check, status, body) matches Some(e) ==> {
            ||| check is ConnectToken && (body matches ErrorBody::Classified(known) && e == known@)
            ||| check is NoError && e == (ErrorView::Reqwest { status })
            ||| (check is OnlyOk || (check is ConnectToken && !(body is Classified))) && e == (
            ErrorView::RequestFailed { status })
        },
{
}

/// A login that is made by password shows the account and the password hash, and nothing of
/// single sign-on; one by single sign-on shows its code, and nothing of the password.
pub proof fn law_login_shows_one_proof(
    email: Seq<char>,
    sso: &SsoCode,
    password_hash: Seq<u8>,
    other_password_hash: Seq<u8>,
)
    ensures
        login_auth(email, Some(sso), password_hash) == login_auth(
            email,
            Some(sso),
            other_password_hash,
        ),
        login_auth(email, Some(sso), password_hash) is AuthCode,
        login_auth(email, None, password_hash) is Password,
        login_auth(email, None, password_hash)->Password_username == email,
{
}

/// A folder is made under the name that was asked for: the body has one field, which is called
/// `name`, and folders of other names are made with other bodies.
pub proof fn law_folder_is_made_under_its_name(
    client: &Client,
    access_token: &str,
    name: &str,
    other: &str,
)
    ensures
        ({
            let made = ClientRequest::<()>::CreateFolder(access_token, name).http(client);
            let also = ClientRequest::<()>::CreateFolder(access_token, other).http(client);
            &&& made.body matches BodyView::Json(fields) && fields.len() == 1 && last_value(
                fields,
                "name"@,
            ) == Some(name@)
            &&& made.body == also.body <==> name@ == other@
            &&& made.url == ClientRequest::<()>::Folders(access_token).http(client).url
        }),
{
    let fields = seq![("name"@, name@)];
    let others = seq![("name"@, other@)];
    assert(fields.last() == ("name"@, name@));
    assert(fields[0] == ("name"@, name@));
    assert(others[0] == ("name"@, other@));
}

/// An entry is edited and removed at the same place, which tells it from every other entry.
pub proof fn law_entries_have_their_own_places<P>(
    client: &Client,
    access_token: &str,
    id: &str,
    other_id: &str,
    payload: P,
)
    ensures
        ({
            let edit = ClientRequest::Edit(access_token, id, payload).http(client);
            let remove = ClientRequest::<P>::Remove(access_token, id).http(client);
            let other = ClientRequest::<P>::Remove(access_token, other_id).http(client);
            &&& edit.url == remove.url
            &&& edit.headers == remove.headers
            &&& edit.method != remove.method
            &&& remove.url == other.url <==> id@ == other_id@
            &&& edit.body == BodyView::Payload(payload)
        }),
{
    let base = client.base_url@ + "/ciphers/"@;
    let url = client.base_url@ + ("/ciphers/"@ + id@);
    let other = client.base_url@ + ("/ciphers/"@ + other_id@);
    assert(url.skip(base.len() as int) =~= id@);
    assert(other.skip(base.len() as int) =~= other_id@);
}

/// The token that a request is made with is the one that it shows, and requests that are made with
/// other tokens show others.
pub proof fn law_requests_show_their_own_token<P>(
    client: &Client,
    access_token: &str,
    other_token: &str,
    id: &str,
    payload: P,
)
    ensures
        ({
            let shown = ("Authorization"@, "Bearer "@ + access_token@);
            let sync = ClientRequest::<P>::Sync(access_token).http(client);
            let also = ClientRequest::<P>::Sync(other_token).http(client);
            &&& sync.headers.len() == 2 && sync.headers[0] == shown
            &&& ClientRequest::Add(access_token, payload).http(client).headers == seq![shown]
            &&& ClientRequest::Edit(access_token, id, payload).http(client).headers == seq![shown]
            &&& ClientRequest::<P>::Remove(access_token, id).http(client).headers == seq![shown]
            &&& ClientRequest::<P>::Folders(access_token).http(client).headers == seq![shown]
            &&& ClientRequest::<P>::CreateFolder(access_token, id).http(client).headers
                == seq![shown]
            &&& sync.headers == also.headers <==> access_token@ == other_token@
        }),
{
    let sync = ClientRequest::<P>::Sync(access_token).http(client);
    let also = ClientRequest::<P>::Sync(other_token).http(client);
    let n = "Bearer "@.len() as int;
    assert(sync.headers[0].1.skip(n) =~= access_token@);
    assert(also.headers[0].1.skip(n) =~= other_token@);
}

/// What a request before a login carries is found under the name that the server looks for it by.
pub proof fn law_fields_are_found_by_name<P>(
    client: &Client,
    email: &str,
    device_id: &str,
    token: &str,
)
    ensures
        ({
            let prelogin = ClientRequest::<P>::Prelogin(email).http(client);
            let mail = ClientRequest::<P>::SendEmailLogin(email, device_id, token).http(client);
            let exchange = ClientRequest::<P>::ExchangeRefreshToken(token).http(client);
            &&& prelogin.body matches BodyView::Json(fields) && fields.len() == 1 && last_value(
                fields,
                "email"@,
            ) == Some(email@)
            &&& mail.body matches BodyView::Json(fields) && fields.len() == 3 && last_value(
                fields,
                "email"@,
            ) == Some(email@) && last_value(fields, "DeviceIdentifier"@) == Some(device_id@)
                && last_value(fields, "SsoEmail2faSessionToken"@) == Some(token@)
            &&& exchange.body matches BodyView::Form(fields) && fields.len() == 3 && last_value(
                fields,
                "refresh_token"@,
            ) == Some(token@) && last_value(fields, "grant_type"@) == Some("refresh_token"@)
                && last_value(fields, "client_id"@) == Some("cli"@)
            &&& client.identity_url@.is_prefix_of(prelogin.url)
            &&& client.identity_url@.is_prefix_of(exchange.url)
            &&& client.base_url@.is_prefix_of(mail.url)
        }),
{
    reveal_strlit("email");
    reveal_strlit("DeviceIdentifier");
    reveal_strlit("SsoEmail2faSessionToken");
    reveal_strlit("grant_type");
    reveal_strlit("client_id");
    reveal_strlit("refresh_token");
    assert("email"@.len() == 5);
    assert("DeviceIdentifier"@.len() == 16);
    assert("SsoEmail2faSessionToken"@.len() == 23);
    assert("grant_type"@.len() == 10);
    assert("client_id"@.len() == 9);
    assert("refresh_token"@.len() == 13);
    reveal_with_fuel(last_value, 4);
    let prelogin = ClientRequest::<P>::Prelogin(email).http(client);
    let mail = ClientRequest::<P>::SendEmailLogin(email, device_id, token).http(client);
    let exchange = ClientRequest::<P>::ExchangeRefreshToken(token).http(client);
    let n = client.identity_url@.len() as int;
    assert(prelogin.url.take(n) =~= client.identity_url@);
    assert(exchange.url.take(n) =~= client.identity_url@);
    assert(mail.url.take(client.base_url@.len() as int) =~= client.base_url@);
    let fields = mail.body->Json_0;
    assert(fields.drop_last() =~= fields.take(2));
    assert(fields.drop_last().drop_last() =~= fields.take(1));
    assert(fields[0] == ("email"@, email@));
    let form = exchange.body->Form_0;
    assert(form.drop_last() =~= form.take(2));
    assert(form.drop_last().drop_last() =~= form.take(1));
    assert(form[0] == ("grant_type"@, "refresh_token"@));
}

/// Whether a request shows an access token.
pub open spec fn shows_token<P>(request: HttpRequestView<P>) -> bool {
    exists|i: int|
        0 <= i < request.headers.len() && (#[trigger] request.headers[i]).0 == "Authorization"@
}

/// Access tokens are shown to the API alone, and to it in every request that reads or changes
/// the vault.
pub proof fn law_access_tokens_go_to_the_api<P>(request: ClientRequest<'_, P>, client: &Client)
    ensures
        shows_token(request.http(client)) <==> match request {
            ClientRequest::Prelogin(_) | ClientRequest::ConnectToken(_) | ClientRequest::Login(
                _,
                _,
            ) | ClientRequest::SendEmailLogin(_, _, _) | ClientRequest::ExchangeRefreshToken(_) =>
                false,
            _ => true,
        },
        shows_token(request.http(client)) ==> client.base_url@.is_prefix_of(
            request.http(client).url,
        ),
{
    let http = request.http(client);
    reveal_strlit("Authorization");
    reveal_strlit("auth-email");
    assert("Authorization"@.len() != "auth-email"@.len());
    assert(client.base_url@ =~= (http.url).take(client.base_url@.len() as int) || !(request is Sync
        || request is Add || request is Edit || request is Remove || request is Folders
        || request is CreateFolder));
    if http.headers.len() > 0 {
        let name = http.headers[0].0;
        assert(name == "Authorization"@ || name == "auth-email"@);
    }
}

} // verus!
