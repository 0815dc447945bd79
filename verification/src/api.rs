//! The values that are exchanged with the server.

use vstd::prelude::*;
use vstd::string::*;

use crate::error::text_of;

verus! {

/// The kinds of second factor that the server knows.
#[derive(Clone, Copy, Debug, PartialEq, Eq, Structural)]
pub enum TwoFactorProviderType {
    Authenticator,
    Email,
    Duo,
    Yubikey,
    U2f,
    Remember,
    OrganizationDuo,
    WebAuthn,
}

impl TwoFactorProviderType {
    /// The number by which the server knows the kind.
    pub open spec fn spec_code(self) -> u32 {
        match self {
            TwoFactorProviderType::Authenticator => 0,
            TwoFactorProviderType::Email => 1,
            TwoFactorProviderType::Duo => 2,
            TwoFactorProviderType::Yubikey => 3,
            TwoFactorProviderType::U2f => 4,
            TwoFactorProviderType::Remember => 5,
            TwoFactorProviderType::OrganizationDuo => 6,
            TwoFactorProviderType::WebAuthn => 7,
        }
    }

    /// The number by which the server knows the kind.
    pub fn code(self) -> (res: u32)
        ensures
            res == self.spec_code(),
            self is Authenticator <==> res == 0,
            self is Email <==> res == 1,
            self is Duo <==> res == 2,
            self is Yubikey <==> res == 3,
            self is U2f <==> res == 4,
            self is Remember <==> res == 5,
            self is OrganizationDuo <==> res == 6,
            self is WebAuthn <==> res == 7,
    {
        match self {
            TwoFactorProviderType::Authenticator => 0,
            TwoFactorProviderType::Email => 1,
            TwoFactorProviderType::Duo => 2,
            TwoFactorProviderType::Yubikey => 3,
            TwoFactorProviderType::U2f => 4,
            TwoFactorProviderType::Remember => 5,
            TwoFactorProviderType::OrganizationDuo => 6,
            TwoFactorProviderType::WebAuthn => 7,
        }
    }
}

/// How a client proves who it is when it asks for a token.
#[derive(Clone, Debug, PartialEq, Eq)]
pub enum ConnectTokenAuth {
    Password { username: String, password: String },
    AuthCode { code: String, code_verifier: String, redirect_uri: String },
    ClientCredentials { username: String, client_secret: String },
}

/// What a [`ConnectTokenAuth`] says.
#[verifier::ext_equal]
pub enum ConnectTokenAuthView {
    Password { username: Seq<char>, password: Seq<char> },
    AuthCode { code: Seq<char>, code_verifier: Seq<char>, redirect_uri: Seq<char> },
    ClientCredentials { username: Seq<char>, client_secret: Seq<char> },
}

impl View for ConnectTokenAuth {
    type V = ConnectTokenAuthView;

    open spec fn view(&self) -> ConnectTokenAuthView {
        match *self {
            ConnectTokenAuth::Password { username, password } => ConnectTokenAuthView::Password {
                username: username@,
                password: password@,
            },
            ConnectTokenAuth::AuthCode { code, code_verifier, redirect_uri } =>
                ConnectTokenAuthView::AuthCode {
                code: code@,
                code_verifier: code_verifier@,
                redirect_uri: redirect_uri@,
            },
            ConnectTokenAuth::ClientCredentials { username, client_secret } =>
                ConnectTokenAuthView::ClientCredentials {
                username: username@,
                client_secret: client_secret@,
            },
        }
    }
}

/// A request for a token.
#[derive(Clone, Debug, PartialEq, Eq)]
pub struct ConnectTokenReq {
    pub auth: ConnectTokenAuth,
    pub grant_type: String,
    pub scope: String,
    pub client_id: String,
    pub device_type: u32,
    pub device_identifier: String,
    pub device_name: String,
    pub device_push_token: String,
    pub two_factor_token: Option<String>,
    pub two_factor_provider: Option<u32>,
    pub new_device_otp: Option<String>,
}

/// What a [`ConnectTokenReq`] says.
#[verifier::ext_equal]
pub struct ConnectTokenReqView {
    pub auth: ConnectTokenAuthView,
    pub grant_type: Seq<char>,
    pub scope: Seq<char>,
    pub client_id: Seq<char>,
    pub device_type: u32,
    pub device_identifier: Seq<char>,
    pub device_name: Seq<char>,
    pub device_push_token: Seq<char>,
    pub two_factor_token: Option<Seq<char>>,
    pub two_factor_provider: Option<u32>,
    pub new_device_otp: Option<Seq<char>>,
}

impl View for ConnectTokenReq {
    type V = ConnectTokenReqView;

    open spec fn view(&self) -> ConnectTokenReqView {
        ConnectTokenReqView {
            auth: self.auth@,
            grant_type: self.grant_type@,
            scope: self.scope@,
            client_id: self.client_id@,
            device_type: self.device_type,
            device_identifier: self.device_identifier@,
            device_name: self.device_name@,
            device_push_token: self.device_push_token@,
            two_factor_token: text_of(self.two_factor_token),
            two_factor_provider: self.two_factor_provider,
            new_device_otp: text_of(self.new_device_otp),
        }
    }
}

/// A request to add an entry. The entry's own fields, `data`, are carried through.
#[derive(Clone, Debug, PartialEq, Eq)]
pub struct CiphersPostReq<D> {
    pub ty: u32,
    pub folder_id: Option<String>,
    pub name: String,
    pub notes: Option<String>,
    pub data: D,
}

/// What the server says of how the master key is derived.
#[derive(Clone, Copy, Debug, PartialEq, Eq)]
pub struct PreloginRes {
    pub kdf: u32,
    pub kdf_iterations: u32,
    pub kdf_memory: Option<u32>,
    pub kdf_parallelism: Option<u32>,
}

/// How the master key is derived.
#[derive(Clone, Copy, Debug, PartialEq, Eq)]
pub struct CryptoParameters {
    pub kdf: u32,
    pub iterations: u32,
    pub memory: Option<u32>,
    pub parallelism: Option<u32>,
}

/// A folder, as the server lists it.
#[derive(Clone, Debug, PartialEq, Eq)]
pub struct FoldersResData {
    pub id: String,
    pub name: String,
}

/// What the server answers to an accepted login.
#[derive(Clone, Debug, PartialEq, Eq)]
pub struct ConnectTokenRes {
    pub access_token: String,
    pub refresh_token: String,
    pub key: String,
}

/// What the server answers to a request for a new access token.
#[derive(Clone, Debug, PartialEq, Eq)]
pub struct ConnectRefreshTokenRes {
    pub access_token: String,
}

/// An entry that was edited: its identifier, and the fields that are sent in place of the old.
#[derive(Clone, Debug, PartialEq, Eq)]
pub struct EditedEntry<P> {
    pub id: String,
    pub fields: P,
}

} // verus!
