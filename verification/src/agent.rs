//! The agent: what it holds, and what it decides on each request.

use vstd::prelude::*;
use vstd::string::*;
use vstd::utf8::*;

use crate::crypto::{sha256, sha256_digest};
use crate::error::{step_view, text_of, Error, ErrorView, Failure, FailureView};
use crate::login::{Login, LoginView, Register, RegisterView, Unlock, UnlockView};
use crate::text::{
    is_before, law_first_occurrence_is_replaced_first, occurs_at, replace_all, replaced,
    same_bytes, utf8_text,
};
use crate::vault::Db;

verus! {

broadcast use vstd::string::group_string_axioms;

/// The fields of an entry of the vault, as far as the agent reads them.
#[derive(Clone, Debug, PartialEq, Eq)]
pub enum EntryData {
    /// An SSH key: its two halves, each of them encrypted.
    SshKey { public_key: Option<String>, private_key: Option<String> },
    /// Anything else.
    Other,
}

/// An entry of the vault: the key that it is encrypted with, where it has its own, the
/// organization that it belongs to, where it belongs to one, and its fields.
#[derive(Clone, Debug, PartialEq, Eq)]
pub struct Entry {
    pub key: Option<String>,
    pub org_id: Option<String>,
    pub data: EntryData,
}

/// What the program that asked is told.
#[derive(Clone, Debug, PartialEq, Eq)]
pub enum Response {
    Ack,
    Error { error: String },
    Decrypt { plaintext: String },
    Encrypt { cipherstring: String },
}

/// What a [`Response`] says.
#[verifier::ext_equal]
pub enum ResponseView {
    Ack,
    Error { error: Seq<char> },
    Decrypt { plaintext: Seq<char> },
    Encrypt { cipherstring: Seq<char> },
}

impl View for Response {
    type V = ResponseView;

    open spec fn view(&self) -> ResponseView {
        match *self {
            Response::Ack => ResponseView::Ack,
            Response::Error { error } => ResponseView::Error { error: error@ },
            Response::Decrypt { plaintext } => ResponseView::Decrypt { plaintext: plaintext@ },
            Response::Encrypt { cipherstring } => ResponseView::Encrypt {
                cipherstring: cipherstring@,
            },
        }
    }
}

/// A response or a failure by its view.
pub open spec fn response_view(res: Result<Response, Failure>) -> Result<
    ResponseView,
    FailureView,
> {
    match res {
        Ok(response) => Ok(response@),
        Err(e) => Err(e@),
    }
}

/// A text or a failure by its view.
pub open spec fn text_view(res: Result<String, Failure>) -> Result<Seq<char>, FailureView> {
    match res {
        Ok(text) => Ok(text@),
        Err(e) => Err(e@),
    }
}

/// What the host of a URL is: `reqwest::Url::parse` and, on what it gives, `host_str`. The
/// error is the message of a text that is no URL.
pub uninterp spec fn url_host(url: Seq<char>) -> Result<Option<Seq<char>>, Seq<char>>;

/// The host of a URL by its view.
pub open spec fn host_view(res: Result<Option<String>, String>) -> Result<
    Option<Seq<char>>,
    Seq<char>,
> {
    match res {
        Ok(host) => Ok(text_of(host)),
        Err(message) => Err(message@),
    }
}

/// `reqwest::Url::parse` and, on what it gives, `host_str`: the result depends on the text
/// alone.
#[verifier::external_body]
fn parse_host(url: &str) -> (res: Result<Option<String>, String>)
    ensures
        host_view(res) == url_host(url@),
{
    let url = reqwest::Url::parse(url).map_err(|e| e.to_string())?;
    Ok(url.host_str().map(str::to_string))
}

/// What is made of a base URL with this host.
pub open spec fn host_outcome(
    base_url: Seq<char>,
    host: Result<Option<Seq<char>>, Seq<char>>,
) -> Result<Seq<char>, FailureView> {
    match host {
        Ok(Some(host)) => Ok(host),
        Ok(None) => Err(
            FailureView::other("couldn't find host in rbw base url "@ + base_url),
        ),
        Err(message) => Err(FailureView::other(message).context("failed to parse base url"@)),
    }
}

/// The host that is logged in to, by what the base URL was parsed to.
pub fn host_of(base_url: &str, host: Result<Option<String>, String>) -> (res: Result<
    String,
    Failure,
>)
    ensures
        text_view(res) == host_outcome(base_url@, host_view(host)),
        host matches Ok(Some(name)) ==> (res matches Ok(text) && text@ == name@),
        host matches Ok(None) ==> (res matches Err(e) && e@ == FailureView::other(
            "couldn't find host in rbw base url "@ + base_url@,
        )),
        host matches Err(message) ==> (res matches Err(e) && e@ == FailureView::other(
            message@,
        ).context("failed to parse base url"@)),
{
    match host {
        Ok(Some(host)) => Ok(host),
        Ok(None) => Err(
            Failure::other("couldn't find host in rbw base url ".to_owned().concat(base_url)),
        ),
        Err(message) => Err(Failure::other(message).context("failed to parse base url")),
    }
}

/// What a store to the clipboard came to.
#[derive(Clone, Debug, PartialEq, Eq)]
pub enum Clipboard {
    /// The agent was built without a clipboard.
    Unsupported,
    /// There is no clipboard to store to.
    Missing,
    /// The text was stored.
    Stored,
    /// The text could not be stored, for this reason.
    Failed(String),
}

/// What the agent holds.
pub struct Agent {
    /// What is kept of the account.
    pub db: Db<Entry>,
    /// Whether the keys of the vault are in memory.
    pub unlocked: bool,
    /// The digests of the secrets that are marked to be shown only after the master password
    /// was given again.
    pub master_password_reprompt: Vec<Vec<u8>>,
    /// Whether the user is to confirm each use of an SSH key.
    pub confirm_ssh: bool,
    /// The URL of the server.
    pub base_url: String,
    /// The URL of its notifications.
    pub notifications_url: String,
}

/// Where the notifications of an access token are subscribed to.
pub open spec fn websocket_url(notifications_url: Seq<char>, access_token: Seq<char>) -> Seq<char> {
    replaced(
        notifications_url + "/hub?access_token="@ + access_token,
        "https://"@,
        "wss://"@,
    )
}

impl Agent {
    /// Whether a digest is that of a secret that is marked for the master password.
    pub open spec fn marked(&self, digest: Seq<u8>) -> bool {
        exists|i: int|
            0 <= i < self.master_password_reprompt@.len()
                && #[trigger] self.master_password_reprompt@[i]@ == digest
    }

    /// The host that is logged in to.
    pub fn get_host(&self) -> (res: Result<String, Failure>)
        ensures
            text_view(res) == host_outcome(self.base_url@, url_host(self.base_url@)),
    {
        let host = parse_host(self.base_url.as_str());
        host_of(self.base_url.as_str(), host)
    }

    /// Starts a registration.
    pub fn register(&self, needs_login: bool) -> (res: Register)
        ensures
            res@ == RegisterView::start(needs_login),
            needs_login ==> res is Prepare,
            !needs_login ==> res is Acknowledge,
    {
        Register::start(needs_login)
    }

    /// Starts a login.
    pub fn login(&self, needs_login: bool) -> (res: Login)
        ensures
            res@ == LoginView::start(needs_login),
            needs_login ==> res is Prepare,
            !needs_login ==> res is Acknowledge,
    {
        Login::start(needs_login)
    }

    /// Whether the vault has to be unlocked before anything can be decrypted.
    pub fn needs_unlock(&self) -> (res: bool)
        ensures
            res == !self.unlocked,
    {
        !self.unlocked
    }

    /// Starts unlocking, where it is needed.
    pub fn unlock(&self) -> (res: Unlock)
        ensures
            res@ == UnlockView::start(!self.unlocked),
            self.unlocked <==> res is Done,
            !self.unlocked ==> (res matches Unlock::Password(asked) && asked.attempt is First
                && asked.shown is None),
    {
        Unlock::start(self.needs_unlock())
    }

    /// Notes that the keys of the vault are in memory.
    pub fn set_keys(&mut self)
        ensures
            *final(self) == (Agent { unlocked: true, ..*old(self) }),
    {
        self.unlocked = true;
    }

    /// Forgets the keys.
    pub fn lock(&mut self) -> (res: Response)
        ensures
            *final(self) == (Agent { unlocked: false, ..*old(self) }),
            res@ == ResponseView::Ack,
            res is Ack,
    {
        self.unlocked = false;
        Response::Ack
    }

    /// Tells whether the vault is unlocked.
    pub fn check_lock(&self) -> (res: Result<Response, Failure>)
        ensures
            response_view(res) == if self.unlocked {
                Ok(ResponseView::Ack)
            } else {
                Err(FailureView::other("agent is locked"@))
            },
            self.unlocked ==> res == Ok::<Response, Failure>(Response::Ack),
            !self.unlocked ==> (res matches Err(e) && e.messages@.len() == 1 && e.messages@[0]@
                == "agent is locked"@),
    {
        if self.needs_unlock() {
            Err(Failure::other("agent is locked".to_owned()))
        } else {
            Ok(Response::Ack)
        }
    }

    /// Whether a secret, by the digest of its encrypted form, is marked for the master password.
    pub fn is_marked(&self, digest: &[u8]) -> (res: bool)
        ensures
            res == self.marked(digest@),
            res <==> exists|i: int|
                0 <= i < self.master_password_reprompt@.len()
                    && #[trigger] self.master_password_reprompt@[i]@ == digest@,
    {
        let marks = &self.master_password_reprompt;
        let mut i: usize = 0;
        while i < marks.len()
            invariant
                i <= marks.len(),
                marks@ == self.master_password_reprompt@,
                forall|j: int| 0 <= j < i ==> (#[trigger] marks@[j])@ != digest@,
            decreases marks.len() - i,
        {
            if same_bytes(marks[i].as_slice(), digest) {
                return true;
            }
            i = i + 1;
        }
        false
    }

    /// Whether the master password is to be asked for before a secret is shown.
    pub fn maybe_reprompt_password(&self, cipherstring: &str) -> (res: bool)
        ensures
            res == self.marked(sha256_digest(encode_utf8(cipherstring@))),
            res <==> exists|i: int|
                0 <= i < self.master_password_reprompt@.len()
                    && #[trigger] self.master_password_reprompt@[i]@ == sha256_digest(
                    encode_utf8(cipherstring@),
                ),
    {
        let digest = sha256(cipherstring.as_bytes());
        self.is_marked(digest.as_slice())
    }

    /// Starts to decrypt a secret, which may be encrypted with the key of its entry.
    pub fn decrypt(&self, cipherstring: &str, entry_key: Option<&str>) -> (res: Decrypt)
        ensures
            res@ == DecryptView::start(cipherstring@, entry_key is Some),
            res.cipherstring@ == cipherstring@,
            res.has_entry_key <==> entry_key is Some,
            res.step is Initialize,
    {
        Decrypt {
            cipherstring: cipherstring.to_owned(),
            has_entry_key: entry_key.is_some(),
            step: DecryptStep::Initialize,
        }
    }

    /// Answers with a decrypted secret.
    pub fn decrypted(&self, plaintext: Result<String, Failure>) -> (res: Result<Response, Failure>)
        ensures
            response_view(res) == match text_view(plaintext) {
                Ok(plaintext) => Ok(ResponseView::Decrypt { plaintext }),
                Err(e) => Err(e),
            },
            plaintext matches Ok(text) ==> res == Ok::<Response, Failure>(
                Response::Decrypt { plaintext: text },
            ),
            plaintext matches Err(e) ==> res == Err::<Response, Failure>(e),
    {
        match plaintext {
            Ok(plaintext) => Ok(Response::Decrypt { plaintext }),
            Err(e) => Err(e),
        }
    }

    /// Answers with an encrypted secret. There is none where there are no keys to encrypt with.
    pub fn encrypt(&self, encrypted: Option<Result<String, Failure>>) -> (res: Result<
        Response,
        Failure,
    >)
        ensures
            response_view(res) == match encrypted {
                None => Err(
                    FailureView::other("failed to find encryption keys in in-memory state"@),
                ),
                Some(Ok(cipherstring)) => Ok(
                    ResponseView::Encrypt { cipherstring: cipherstring@ },
                ),
                Some(Err(e)) => Err(e@.context("failed to encrypt plaintext secret"@)),
            },
            encrypted matches Some(Ok(text)) ==> res == Ok::<Response, Failure>(
                Response::Encrypt { cipherstring: text },
            ),
            encrypted matches Some(Err(e)) ==> (res matches Err(f) && f.error == e.error
                && f.messages@[0]@ == "failed to encrypt plaintext secret"@ && f.messages@.skip(1)
                == e.messages@),
            encrypted is None ==> res is Err,
    {
        match encrypted {
            None => Err(
                Failure::other("failed to find encryption keys in in-memory state".to_owned()),
            ),
            Some(Ok(cipherstring)) => Ok(Response::Encrypt { cipherstring }),
            Some(Err(e)) => Err(e.context("failed to encrypt plaintext secret")),
        }
    }

    /// Answers to a store to the clipboard: a clipboard that is not there is no failure.
    pub fn clipboard_store(&self, clipboard: Clipboard) -> (res: Result<Response, Failure>)
        ensures
            response_view(res) == match clipboard {
                Clipboard::Unsupported => Ok(
                    ResponseView::Error { error: "clipboard not supported"@ },
                ),
                Clipboard::Missing => Ok(ResponseView::Ack),
                Clipboard::Stored => Ok(ResponseView::Ack),
                Clipboard::Failed(reason) => Err(
                    FailureView::other("couldn't store value to clipboard: "@ + reason@),
                ),
            },
            clipboard is Unsupported ==> (res matches Ok(Response::Error { error }) && error@
                == "clipboard not supported"@),
            clipboard is Missing || clipboard is Stored ==> res == Ok::<Response, Failure>(
                Response::Ack,
            ),
            clipboard is Failed ==> res is Err,
    {
        match clipboard {
            Clipboard::Unsupported => Ok(
                Response::Error { error: "clipboard not supported".to_owned() },
            ),
            Clipboard::Missing | Clipboard::Stored => Ok(Response::Ack),
            Clipboard::Failed(reason) => Err(
                Failure::other(
                    "couldn't store value to clipboard: ".to_owned().concat(reason.as_str()),
                ),
            ),
        }
    }

    /// The keys that the master password unlocks.
    pub fn try_unlock(&self) -> (res: Result<(&String, &String, &Vec<(String, String)>), Error>)
        ensures
            match (self.db.protected_key, self.db.protected_private_key) {
                (Some(key), Some(private_key)) => res == Ok::<_, Error>(
                    (&key, &private_key, &self.db.protected_org_keys),
                ),
                _ => res matches Err(e) && e@ == ErrorView::UnavailableDbProtectedKeys,
            },
    {
        match self.db.some_protected_keys() {
            Some(keys) => Ok(keys),
            None => Err(Error::UnavailableDbProtectedKeys),
        }
    }

    /// Where to subscribe to notifications: nowhere, where that was done before.
    pub fn subscribe_to_notifications(&self, connected: bool) -> (res: Result<
        Option<String>,
        Failure,
    >)
        ensures
            connected ==> res == Ok::<Option<String>, Failure>(None),
            !connected ==> match self.db.access_token {
                Some(token) => res matches Ok(Some(url)) && url@ == websocket_url(
                    self.notifications_url@,
                    token@,
                ),
                None => res matches Err(e) && e@ == FailureView::other(
                    "Error getting access token"@,
                ),
            },
            !connected ==> (self.db.access_token matches Some(token) ==> (res matches Ok(Some(url))
                && url@ == replaced(
                self.notifications_url@ + "/hub?access_token="@ + token@,
                "https://"@,
                "wss://"@,
            ))),
    {
        if connected {
            return Ok(None);
        }
        match &self.db.access_token {
            Some(token) => {
                let url = self.notifications_url.clone().concat("/hub?access_token=").concat(
                    token.as_str(),
                );
                proof {
                    reveal_strlit("https://");
                }
                Ok(Some(replace_all(url.as_str(), "https://", "wss://")))
            },
            None => Err(Failure::other("Error getting access token".to_owned())),
        }
    }

    /// Starts a sync, by the tokens of the database on disk or the failure to load it; `reply`
    /// tells whether a program waits for it.
    pub fn sync(
        &self,
        loaded: Result<(Option<String>, Option<String>), Failure>,
        reply: bool,
    ) -> (res: Result<Sync, Failure>)
        ensures
            sync_view(res) == match loaded {
                Ok(tokens) => SyncView::start(text_of(tokens.0), text_of(tokens.1), reply),
                Err(e) => Err(e@),
            },
            res matches Ok(sync) ==> sync.reply == reply,
            loaded matches Ok((Some(access), Some(refresh))) ==> (res matches Ok(sync) && (
            sync.step matches SyncStep::Fetch { access_token, refresh_token } && access_token@
                == access@ && refresh_token@ == refresh@)),
            loaded matches Ok((None, _)) ==> (res matches Err(e) && e.messages@.len() == 1
                && e.messages@[0]@ == "failed to find access token in db"@),
            loaded matches Ok((Some(_), None)) ==> (res matches Err(e) && e.messages@.len() == 1
                && e.messages@[0]@ == "failed to find refresh token in db"@),
            loaded matches Err(e) ==> res == Err::<Sync, Failure>(e),
    {
        match loaded {
            Ok((Some(access_token), Some(refresh_token))) => Ok(
                Sync { step: SyncStep::Fetch { access_token, refresh_token }, reply },
            ),
            Ok((None, _)) => Err(
                Failure::other("failed to find access token in db".to_owned()),
            ),
            Ok((_, None)) => Err(
                Failure::other("failed to find refresh token in db".to_owned()),
            ),
            Err(e) => Err(e),
        }
    }
}

/// What a sync does next.
#[derive(Clone, Debug, PartialEq, Eq)]
pub enum SyncStep {
    /// Fetch the vault with these tokens.
    Fetch { access_token: String, refresh_token: String },
    /// Note which secrets are marked for the master password, keep the vault, and save it.
    Save,
    /// Subscribe to notifications.
    Subscribe,
    /// Tell the program that asked that it is done.
    Acknowledge,
    /// Nothing.
    Done,
}

/// A sync: what it does next, and whether a program waits for it.
#[derive(Clone, Debug, PartialEq, Eq)]
pub struct Sync {
    pub step: SyncStep,
    pub reply: bool,
}

/// What a [`SyncStep`] says.
#[verifier::ext_equal]
pub enum SyncStepView {
    Fetch { access_token: Seq<char>, refresh_token: Seq<char> },
    Save,
    Subscribe,
    Acknowledge,
    Done,
}

/// What a [`Sync`] says.
#[verifier::ext_equal]
pub struct SyncView {
    pub step: SyncStepView,
    pub reply: bool,
}

impl View for Sync {
    type V = SyncView;

    open spec fn view(&self) -> SyncView {
        SyncView {
            step: match self.step {
                SyncStep::Fetch { access_token, refresh_token } => SyncStepView::Fetch {
                    access_token: access_token@,
                    refresh_token: refresh_token@,
                },
                SyncStep::Save => SyncStepView::Save,
                SyncStep::Subscribe => SyncStepView::Subscribe,
                SyncStep::Acknowledge => SyncStepView::Acknowledge,
                SyncStep::Done => SyncStepView::Done,
            },
            reply: self.reply,
        }
    }
}

/// A step of a sync or its failure by its view.
pub open spec fn sync_view(res: Result<Sync, Failure>) -> Result<SyncView, FailureView> {
    match res {
        Ok(sync) => Ok(sync@),
        Err(e) => Err(e@),
    }
}

impl SyncView {
    /// How a sync starts: it takes both tokens.
    pub open spec fn start(
        access_token: Option<Seq<char>>,
        refresh_token: Option<Seq<char>>,
        reply: bool,
    ) -> Result<SyncView, FailureView> {
        match (access_token, refresh_token) {
            (None, _) => Err(FailureView::other("failed to find access token in db"@)),
            (_, None) => Err(FailureView::other("failed to find refresh token in db"@)),
            (Some(access_token), Some(refresh_token)) => Ok(
                SyncView { step: SyncStepView::Fetch { access_token, refresh_token }, reply },
            ),
        }
    }

    /// The sync after its next thing went so. It does not matter whether the subscription to
    /// notifications succeeds.
    pub open spec fn after(self, outcome: Result<(), FailureView>) -> Result<
        SyncView,
        FailureView,
    > {
        let reply = self.reply;
        match (self.step, outcome) {
            (SyncStepView::Fetch { .. }, Ok(_)) => Ok(SyncView { step: SyncStepView::Save, reply }),
            (SyncStepView::Fetch { .. }, Err(e)) => Err(
                e.context("failed to sync database from server"@),
            ),
            (SyncStepView::Save, Ok(_)) => Ok(SyncView { step: SyncStepView::Subscribe, reply }),
            (SyncStepView::Save, Err(e)) => Err(e),
            (SyncStepView::Subscribe, _) => Ok(
                SyncView {
                    step: if reply {
                        SyncStepView::Acknowledge
                    } else {
                        SyncStepView::Done
                    },
                    reply,
                },
            ),
            (SyncStepView::Acknowledge, Ok(_)) => Ok(SyncView { step: SyncStepView::Done, reply }),
            (SyncStepView::Acknowledge, Err(e)) => Err(e),
            (SyncStepView::Done, Ok(_)) => Ok(self),
            (SyncStepView::Done, Err(e)) => Err(e),
        }
    }
}

impl Sync {
    /// The sync after its next thing went so.
    pub fn after(self, outcome: Result<(), Failure>) -> (res: Result<Sync, Failure>)
        ensures
            sync_view(res) == self@.after(step_view(outcome)),
            res matches Ok(next) ==> next.reply == self.reply,
            outcome is Ok ==> (res matches Ok(next) && match self.step {
                SyncStep::Fetch { .. } => next.step is Save,
                SyncStep::Save => next.step is Subscribe,
                SyncStep::Subscribe => if self.reply {
                    next.step is Acknowledge
                } else {
                    next.step is Done
                },
                SyncStep::Acknowledge | SyncStep::Done => next.step is Done,
            }),
            outcome matches Err(e) ==> match self.step {
                SyncStep::Fetch { .. } => res matches Err(f) && f.error == e.error
                    && f.messages@[0]@ == "failed to sync database from server"@
                    && f.messages@.skip(1) == e.messages@,
                SyncStep::Subscribe => res matches Ok(next) && if self.reply {
                    next.step is Acknowledge
                } else {
                    next.step is Done
                },
                SyncStep::Save | SyncStep::Acknowledge | SyncStep::Done => res == Err::<
                    Sync,
                    Failure,
                >(e),
            },
    {
        let reply = self.reply;
        match (self.step, outcome) {
            (SyncStep::Fetch { .. }, Ok(_)) => Ok(Sync { step: SyncStep::Save, reply }),
            (SyncStep::Fetch { .. }, Err(e)) => Err(
                e.context("failed to sync database from server"),
            ),
            (SyncStep::Save, Ok(_)) => Ok(Sync { step: SyncStep::Subscribe, reply }),
            (SyncStep::Subscribe, _) => Ok(
                Sync {
                    step: if reply {
                        SyncStep::Acknowledge
                    } else {
                        SyncStep::Done
                    },
                    reply,
                },
            ),
            (SyncStep::Acknowledge | SyncStep::Done, Ok(_)) => Ok(
                Sync { step: SyncStep::Done, reply },
            ),
            (SyncStep::Save | SyncStep::Acknowledge | SyncStep::Done, Err(e)) => Err(e),
        }
    }
}

/// A subscription goes to the server of the notifications over a secure web socket, with the
/// token that it is made with.
pub proof fn law_notifications_come_over_a_web_socket(rest: Seq<char>, access_token: Seq<char>)
    requires
        forall|i: int|
            i > 0 ==> !occurs_at(
                "https://"@ + rest + "/hub?access_token="@ + access_token,
                "https://"@,
                i,
            ),
    ensures
        websocket_url("https://"@ + rest, access_token) == "wss://"@ + rest
            + "/hub?access_token="@ + access_token,
{
    let url = "https://"@ + rest + "/hub?access_token="@ + access_token;
    let tail = rest + "/hub?access_token="@ + access_token;
    reveal_strlit("https://");
    let none = Seq::<char>::empty();
    assert(url.subrange(0, "https://"@.len() as int) =~= "https://"@);
    assert(none =~= url.take(0));
    assert(is_before(url, "https://"@, none));
    law_first_occurrence_is_replaced_first(url, "https://"@, "wss://"@, none);
    assert(url.skip(none.len() as int + "https://"@.len() as int) =~= tail);
    assert forall|i: int| 0 <= i < tail.len() implies !occurs_at(tail, "https://"@, i) by {
        if occurs_at(tail, "https://"@, i) {
            let at = i + "https://"@.len();
            assert(url.subrange(at, at + "https://"@.len()) =~= tail.subrange(
                i,
                i + "https://"@.len(),
            ));
            assert(occurs_at(url, "https://"@, at));
        }
    }
    assert(is_before(tail, "https://"@, tail)) by {
        assert(tail =~= tail.take(tail.len() as int));
    }
    law_first_occurrence_is_replaced_first(tail, "https://"@, "wss://"@, tail);
    assert(none + "wss://"@ + tail =~= "wss://"@ + rest + "/hub?access_token="@ + access_token);
}

/// What a sync comes to where the things that it does go like this, one after the other.
pub open spec fn sync_run(sync: SyncView, outcomes: Seq<Result<(), FailureView>>) -> Result<
    SyncView,
    FailureView,
>
    decreases outcomes.len(),
{
    if outcomes.len() == 0 {
        Ok(sync)
    } else {
        match sync.after(outcomes[0]) {
            Ok(next) => sync_run(next, outcomes.skip(1)),
            Err(e) => Err(e),
        }
    }
}

/// A sync with both tokens succeeds exactly where the vault was fetched, it was saved, and,
/// where a program waits for it, the program could be told. Whether the subscription to
/// notifications succeeds does not matter.
pub proof fn law_subscription_never_fails_a_sync(
    access_token: Seq<char>,
    refresh_token: Seq<char>,
    reply: bool,
    fetched: Result<(), FailureView>,
    saved: Result<(), FailureView>,
    subscribed: Result<(), FailureView>,
    told: Result<(), FailureView>,
)
    ensures
        ({
            let start = SyncView::start(Some(access_token), Some(refresh_token), reply)->Ok_0;
            let outcomes = if reply {
                seq![fetched, saved, subscribed, told]
            } else {
                seq![fetched, saved, subscribed]
            };
            let end = sync_run(start, outcomes);
            &&& end is Ok <==> fetched is Ok && saved is Ok && (reply ==> told is Ok)
            &&& end matches Ok(sync) ==> sync.step is Done
        }),
{
    let start = SyncView::start(Some(access_token), Some(refresh_token), reply)->Ok_0;
    let outcomes = if reply {
        seq![fetched, saved, subscribed, told]
    } else {
        seq![fetched, saved, subscribed]
    };
    reveal_with_fuel(sync_run, 5);
    assert(outcomes.skip(1)[0] == saved);
    assert(outcomes.skip(1).skip(1)[0] == subscribed);
    if reply {
        assert(outcomes.skip(1).skip(1).skip(1)[0] == told);
    }
}

/// One more step of a sync.
proof fn lemma_sync_step(sync: SyncView, outcomes: Seq<Result<(), FailureView>>, i: int)
    requires
        0 <= i < outcomes.len(),
    ensures
        sync_run(sync, outcomes.take(i + 1)) == match sync_run(sync, outcomes.take(i)) {
            Ok(now) => now.after(outcomes[i]),
            Err(e) => Err(e),
        },
    decreases i,
{
    let shorter = outcomes.take(i);
    let longer = outcomes.take(i + 1);
    reveal_with_fuel(sync_run, 2);
    if i > 0 {
        assert(shorter.skip(1) =~= outcomes.skip(1).take(i - 1));
        assert(longer.skip(1) =~= outcomes.skip(1).take(i));
        if let Ok(next) = sync.after(outcomes[0]) {
            lemma_sync_step(next, outcomes.skip(1), i - 1);
        }
    }
}

/// A sync fetches first, with the tokens that it was started with. It comes to its end only where
/// the fetch succeeded and, directly after it, the vault was saved with success, whether or not
/// a program waits for it. It tells a program only where one waits for it, after the vault was
/// saved and the subscription was tried.
pub proof fn law_sync_saves_what_it_fetched(
    access_token: Seq<char>,
    refresh_token: Seq<char>,
    reply: bool,
    outcomes: Seq<Result<(), FailureView>>,
    i: int,
)
    requires
        0 <= i <= outcomes.len(),
    ensures
        ({
            let start = SyncView::start(Some(access_token), Some(refresh_token), reply);
            &&& start is Ok
            &&& start->Ok_0.step == (SyncStepView::Fetch { access_token, refresh_token })
            &&& sync_run(start->Ok_0, outcomes.take(0)) == start
            &&& sync_run(start->Ok_0, outcomes.take(i)) matches Ok(now) ==> {
                &&& now.reply == reply
                &&& now.step is Fetch <==> i == 0
                &&& i >= 1 ==> {
                    &&& outcomes[0] is Ok
                    &&& sync_run(start->Ok_0, outcomes.take(1)) matches Ok(then) && then.step
                        is Save
                }
                &&& now.step is Save <==> i == 1
                &&& i >= 2 ==> {
                    &&& outcomes[1] is Ok
                    &&& sync_run(start->Ok_0, outcomes.take(2)) matches Ok(then) && then.step
                        is Subscribe
                }
                &&& now.step is Subscribe <==> i == 2
                &&& now.step is Acknowledge <==> i == 3 && reply
                &&& now.step is Done ==> (reply ==> i >= 4 && outcomes[3] is Ok)
            }
        }),
    decreases i,
{
    let start = SyncView::start(Some(access_token), Some(refresh_token), reply)->Ok_0;
    if i > 0 {
        law_sync_saves_what_it_fetched(access_token, refresh_token, reply, outcomes, i - 1);
        lemma_sync_step(start, outcomes, i - 1);
    }
}

/// A sync that failed stays failed, and tells of the thing that went wrong.
pub proof fn law_sync_tells_why_it_failed(
    sync: SyncView,
    outcomes: Seq<Result<(), FailureView>>,
)
    ensures
        sync_run(sync, outcomes) matches Err(e) ==> exists|i: int|
            0 <= i < outcomes.len() && (#[trigger] outcomes[i] matches Err(why) && (e == why || e
                == why.context("failed to sync database from server"@))),
    decreases outcomes.len(),
{
    if outcomes.len() > 0 {
        if let Ok(next) = sync.after(outcomes[0]) {
            law_sync_tells_why_it_failed(next, outcomes.skip(1));
            if let Err(e) = sync_run(next, outcomes.skip(1)) {
                let i = choose|i: int|
                    0 <= i < outcomes.skip(1).len() && (#[trigger] outcomes.skip(1)[i] matches Err(
                        why,
                    ) && (e == why || e == why.context("failed to sync database from server"@)));
                assert(outcomes[i + 1] == outcomes.skip(1)[i]);
            }
        } else {
            assert(outcomes[0] is Err);
        }
    }
}

/// What decrypting a secret does next.
#[derive(Clone, Debug, PartialEq, Eq)]
pub enum DecryptStep {
    /// Note which secrets are marked for the master password, where that was not done before.
    Initialize,
    /// Find the keys of the user, or of the organization that the entry belongs to.
    FindKeys,
    /// Parse the key of the entry.
    ParseEntryKey,
    /// Decrypt the key of the entry.
    DecryptEntryKey,
    /// Ask for the master password again.
    Reprompt(Unlock),
    /// Parse the secret.
    Parse,
    /// Decrypt the secret.
    Decrypt,
    /// Nothing.
    Done,
}

/// The decryption of a secret: its encrypted form, whether its entry has its own key, and what
/// is done next.
#[derive(Clone, Debug, PartialEq, Eq)]
pub struct Decrypt {
    pub cipherstring: String,
    pub has_entry_key: bool,
    pub step: DecryptStep,
}

/// What a [`DecryptStep`] says.
#[verifier::ext_equal]
pub enum DecryptStepView {
    Initialize,
    FindKeys,
    ParseEntryKey,
    DecryptEntryKey,
    Reprompt(UnlockView),
    Parse,
    Decrypt,
    Done,
}

impl View for DecryptStep {
    type V = DecryptStepView;

    open spec fn view(&self) -> DecryptStepView {
        match *self {
            DecryptStep::Initialize => DecryptStepView::Initialize,
            DecryptStep::FindKeys => DecryptStepView::FindKeys,
            DecryptStep::ParseEntryKey => DecryptStepView::ParseEntryKey,
            DecryptStep::DecryptEntryKey => DecryptStepView::DecryptEntryKey,
            DecryptStep::Reprompt(unlock) => DecryptStepView::Reprompt(unlock@),
            DecryptStep::Parse => DecryptStepView::Parse,
            DecryptStep::Decrypt => DecryptStepView::Decrypt,
            DecryptStep::Done => DecryptStepView::Done,
        }
    }
}

/// What a [`Decrypt`] says.
#[verifier::ext_equal]
pub struct DecryptView {
    pub cipherstring: Seq<char>,
    pub has_entry_key: bool,
    pub step: DecryptStepView,
}

impl View for Decrypt {
    type V = DecryptView;

    open spec fn view(&self) -> DecryptView {
        DecryptView {
            cipherstring: self.cipherstring@,
            has_entry_key: self.has_entry_key,
            step: self.step@,
        }
    }
}

/// A step of a decryption or its failure by its view.
pub open spec fn decrypt_view(res: Result<Decrypt, Failure>) -> Result<DecryptView, FailureView> {
    match res {
        Ok(decrypt) => Ok(decrypt@),
        Err(e) => Err(e@),
    }
}

/// The step after the keys are found: a marked secret takes the master password first.
pub open spec fn step_with_keys(marked: bool) -> DecryptStepView {
    if marked {
        DecryptStepView::Reprompt(UnlockView::start(true))
    } else {
        DecryptStepView::Parse
    }
}

impl DecryptView {
    /// How a decryption starts.
    pub open spec fn start(cipherstring: Seq<char>, has_entry_key: bool) -> DecryptView {
        DecryptView { cipherstring, has_entry_key, step: DecryptStepView::Initialize }
    }

    /// The step after this one went so, where `marked` tells whether the secret is marked for
    /// the master password.
    pub open spec fn step_after(self, marked: bool, outcome: Result<(), FailureView>) -> Result<
        DecryptStepView,
        FailureView,
    > {
        match (self.step, outcome) {
            (DecryptStepView::Initialize, Ok(_)) => Ok(DecryptStepView::FindKeys),
            (DecryptStepView::Initialize, Err(e)) => Err(e),
            (DecryptStepView::FindKeys, Ok(_)) => Ok(
                if self.has_entry_key {
                    DecryptStepView::ParseEntryKey
                } else {
                    step_with_keys(marked)
                },
            ),
            (DecryptStepView::FindKeys, Err(e)) => Err(e),
            (DecryptStepView::ParseEntryKey, Ok(_)) => Ok(DecryptStepView::DecryptEntryKey),
            (DecryptStepView::ParseEntryKey, Err(e)) => Err(
                e.context("failed to parse individual item encryption key"@),
            ),
            (DecryptStepView::DecryptEntryKey, Ok(_)) => Ok(step_with_keys(marked)),
            (DecryptStepView::DecryptEntryKey, Err(e)) => Err(
                e.context("failed to decrypt individual item encryption key"@),
            ),
            (DecryptStepView::Reprompt(unlock), outcome) => match unlock.after(outcome) {
                Ok(UnlockView::Done) => Ok(DecryptStepView::Parse),
                Ok(next) => Ok(DecryptStepView::Reprompt(next)),
                Err(e) => Err(e),
            },
            (DecryptStepView::Parse, Ok(_)) => Ok(DecryptStepView::Decrypt),
            (DecryptStepView::Parse, Err(e)) => Err(
                e.context("failed to parse encrypted secret"@),
            ),
            (DecryptStepView::Decrypt, Ok(_)) => Ok(DecryptStepView::Done),
            (DecryptStepView::Decrypt, Err(e)) => Err(
                e.context("failed to decrypt encrypted secret"@),
            ),
            (DecryptStepView::Done, Ok(_)) => Ok(DecryptStepView::Done),
            (DecryptStepView::Done, Err(e)) => Err(e),
        }
    }

    /// The decryption after its next thing went so.
    pub open spec fn after(self, marked: bool, outcome: Result<(), FailureView>) -> Result<
        DecryptView,
        FailureView,
    > {
        match self.step_after(marked, outcome) {
            Ok(step) => Ok(DecryptView { step, ..self }),
            Err(e) => Err(e),
        }
    }
}

/// The failure that missing keys are: `found` tells whether there are keys to decrypt with.
pub fn decryption_keys(found: bool) -> (res: Result<(), Failure>)
    ensures
        step_view(res) == if found {
            Ok(())
        } else {
            Err(FailureView::other("failed to find decryption keys in in-memory state"@))
        },
        res is Ok <==> found,
{
    if found {
        Ok(())
    } else {
        Err(Failure::other("failed to find decryption keys in in-memory state".to_owned()))
    }
}

/// The step after the keys are found.
fn with_keys(marked: bool) -> (res: DecryptStep)
    ensures
        res@ == step_with_keys(marked),
{
    if marked {
        DecryptStep::Reprompt(Unlock::start(true))
    } else {
        DecryptStep::Parse
    }
}

impl Decrypt {
    /// The decryption after its next thing went so, where `marked` tells whether the secret is
    /// marked for the master password.
    pub fn after_step(self, marked: bool, outcome: Result<(), Failure>) -> (res: Result<
        Decrypt,
        Failure,
    >)
        ensures
            decrypt_view(res) == self@.after(marked, step_view(outcome)),
            res matches Ok(next) ==> {
                &&& next.cipherstring@ == self.cipherstring@
                &&& next.has_entry_key == self.has_entry_key
            },
            !(self.step is Reprompt) ==> (res is Ok <==> outcome is Ok),
            res matches Ok(next) ==> match self.step {
                DecryptStep::Initialize => next.step is FindKeys,
                DecryptStep::FindKeys => if self.has_entry_key {
                    next.step is ParseEntryKey
                } else if marked {
                    next.step is Reprompt
                } else {
                    next.step is Parse
                },
                DecryptStep::ParseEntryKey => next.step is DecryptEntryKey,
                DecryptStep::DecryptEntryKey => if marked {
                    next.step is Reprompt
                } else {
                    next.step is Parse
                },
                DecryptStep::Reprompt(unlock) => if unlock is TryUnlock && outcome is Ok {
                    next.step is Parse
                } else {
                    next.step is Reprompt || unlock is Done
                },
                DecryptStep::Parse => next.step is Decrypt,
                DecryptStep::Decrypt | DecryptStep::Done => next.step is Done,
            },
            res matches Ok(next) ==> (next.step matches DecryptStep::Reprompt(unlock) ==> {
                ||| self.step is Reprompt
                ||| unlock matches Unlock::Password(retry) && retry.attempt is First && retry.shown
                    is None
            }),
            self.step matches DecryptStep::Reprompt(unlock) ==> match unlock@.after(
                step_view(outcome),
            ) {
                Ok(UnlockView::Done) => res matches Ok(next) && next.step is Parse,
                Ok(asked) => res matches Ok(next) && (next.step matches DecryptStep::Reprompt(again)
                    && again@ == asked),
                Err(e) => res matches Err(f) && f@ == e,
            },
            outcome matches Err(e) ==> self.step is Reprompt || (res matches Err(f) && f.error@
                == e.error@ && match self.step {
                DecryptStep::ParseEntryKey => f@.messages
                    == seq!["failed to parse individual item encryption key"@] + e@.messages,
                DecryptStep::DecryptEntryKey => f@.messages
                    == seq!["failed to decrypt individual item encryption key"@] + e@.messages,
                DecryptStep::Parse => f@.messages == seq!["failed to parse encrypted secret"@]
                    + e@.messages,
                DecryptStep::Decrypt => f@.messages == seq!["failed to decrypt encrypted secret"@]
                    + e@.messages,
                _ => f@.messages == e@.messages,
            }),
    {
        let Decrypt { cipherstring, has_entry_key, step } = self;
        let step = match (step, outcome) {
            (DecryptStep::Initialize, Ok(_)) => DecryptStep::FindKeys,
            (DecryptStep::FindKeys, Ok(_)) => if has_entry_key {
                DecryptStep::ParseEntryKey
            } else {
                with_keys(marked)
            },
            (DecryptStep::ParseEntryKey, Ok(_)) => DecryptStep::DecryptEntryKey,
            (DecryptStep::ParseEntryKey, Err(e)) => {
                return Err(e.context("failed to parse individual item encryption key"));
            },
            (DecryptStep::DecryptEntryKey, Ok(_)) => with_keys(marked),
            (DecryptStep::DecryptEntryKey, Err(e)) => {
                return Err(e.context("failed to decrypt individual item encryption key"));
            },
            (DecryptStep::Reprompt(unlock), outcome) => match unlock.after(outcome) {
                Ok(Unlock::Done) => DecryptStep::Parse,
                Ok(next) => DecryptStep::Reprompt(next),
                Err(e) => {
                    return Err(e);
                },
            },
            (DecryptStep::Parse, Ok(_)) => DecryptStep::Decrypt,
            (DecryptStep::Parse, Err(e)) => {
                return Err(e.context("failed to parse encrypted secret"));
            },
            (DecryptStep::Decrypt | DecryptStep::Done, Ok(_)) => DecryptStep::Done,
            (DecryptStep::Decrypt, Err(e)) => {
                return Err(e.context("failed to decrypt encrypted secret"));
            },
            (DecryptStep::Initialize | DecryptStep::FindKeys | DecryptStep::Done, Err(e)) => {
                return Err(e);
            },
        };
        Ok(Decrypt { cipherstring, has_entry_key, step })
    }

    /// The decryption after its next thing went so.
    pub fn after(self, agent: &Agent, outcome: Result<(), Failure>) -> (res: Result<
        Decrypt,
        Failure,
    >)
        ensures
            decrypt_view(res) == self@.after(
                agent.marked(sha256_digest(encode_utf8(self.cipherstring@))),
                step_view(outcome),
            ),
    {
        let marked = agent.maybe_reprompt_password(self.cipherstring.as_str());
        self.after_step(marked, outcome)
    }
}

/// The secret that was decrypted, as text; `message` tells what is wrong with one that is not
/// text.
pub fn decrypt_cipher(plaintext: &[u8], message: String) -> (res: Result<String, Failure>)
    ensures
        text_view(res) == if valid_utf8(plaintext@) {
            Ok(decode_utf8(plaintext@))
        } else {
            Err(
                FailureView { error: ErrorView::InvalidUtf8, messages: seq![message@] }.context(
                    "failed to parse decrypted secret"@,
                ),
            )
        },
        res is Ok <==> valid_utf8(plaintext@),
        res matches Ok(text) ==> text@ == decode_utf8(plaintext@),
        res matches Err(e) ==> e.error is InvalidUtf8 && e@.messages == seq![
            "failed to parse decrypted secret"@,
            message@,
        ],
{
    match utf8_text(plaintext) {
        Some(text) => Ok(text),
        None => Err(
            Failure::new(Error::InvalidUtf8, message).context("failed to parse decrypted secret"),
        ),
    }
}

/// What a decryption comes to where the things that it does go like this, one after the other.
pub open spec fn decrypt_run(
    decrypt: DecryptView,
    marked: bool,
    outcomes: Seq<Result<(), FailureView>>,
) -> Result<DecryptView, FailureView>
    decreases outcomes.len(),
{
    if outcomes.len() == 0 {
        Ok(decrypt)
    } else {
        match decrypt.after(marked, outcomes[0]) {
            Ok(next) => decrypt_run(next, marked, outcomes.skip(1)),
            Err(e) => Err(e),
        }
    }
}

/// One more step of a decryption.
proof fn lemma_decrypt_step(
    decrypt: DecryptView,
    marked: bool,
    outcomes: Seq<Result<(), FailureView>>,
    i: int,
)
    requires
        0 <= i < outcomes.len(),
    ensures
        decrypt_run(decrypt, marked, outcomes.take(i + 1)) == match decrypt_run(
            decrypt,
            marked,
            outcomes.take(i),
        ) {
            Ok(now) => now.after(marked, outcomes[i]),
            Err(e) => Err(e),
        },
    decreases i,
{
    let shorter = outcomes.take(i);
    let longer = outcomes.take(i + 1);
    reveal_with_fuel(decrypt_run, 2);
    if i > 0 {
        assert(shorter.skip(1) =~= outcomes.skip(1).take(i - 1));
        assert(longer.skip(1) =~= outcomes.skip(1).take(i));
        if let Ok(next) = decrypt.after(marked, outcomes[0]) {
            lemma_decrypt_step(next, marked, outcomes.skip(1), i - 1);
        }
    }
}

/// The secret of an entry that has its own key is asked the master password for, parsed and
/// decrypted only after that key was parsed and, directly after it, decrypted with success, be
/// the secret marked or not. Where an entry has no key of its own, none is parsed or decrypted.
/// In either case the keys of the vault were found before.
pub proof fn law_entry_keys_are_opened_first(
    cipherstring: Seq<char>,
    has_entry_key: bool,
    marked: bool,
    outcomes: Seq<Result<(), FailureView>>,
    i: int,
)
    requires
        0 <= i <= outcomes.len(),
    ensures
        ({
            let start = DecryptView::start(cipherstring, has_entry_key);
            &&& start.step is Initialize
            &&& decrypt_run(start, marked, outcomes.take(i)) matches Ok(now) ==> {
                &&& now.cipherstring == cipherstring
                &&& now.has_entry_key == has_entry_key
                &&& now.step is Initialize <==> i == 0
                &&& now.step is FindKeys <==> i == 1
                &&& i >= 2 ==> {
                    &&& outcomes[0] is Ok && outcomes[1] is Ok
                    &&& decrypt_run(start, marked, outcomes.take(1)) matches Ok(then) && then.step
                        is FindKeys
                }
                &&& now.step is ParseEntryKey <==> has_entry_key && i == 2
                &&& has_entry_key && i >= 3 ==> {
                    &&& decrypt_run(start, marked, outcomes.take(2)) matches Ok(then) && then.step
                        is ParseEntryKey
                    &&& outcomes[2] is Ok
                }
                &&& now.step is DecryptEntryKey <==> has_entry_key && i == 3
                &&& has_entry_key && (now.step is Reprompt || past_reprompt(now.step)) ==> {
                    &&& i >= 4
                    &&& decrypt_run(start, marked, outcomes.take(2)) matches Ok(then) && then.step
                        is ParseEntryKey
                    &&& outcomes[2] is Ok
                    &&& decrypt_run(start, marked, outcomes.take(3)) matches Ok(then) && then.step
                        is DecryptEntryKey
                    &&& outcomes[3] is Ok
                }
                &&& now.step is Reprompt ==> marked
            }
        }),
    decreases i,
{
    let start = DecryptView::start(cipherstring, has_entry_key);
    if i > 0 {
        law_entry_keys_are_opened_first(cipherstring, has_entry_key, marked, outcomes, i - 1);
        lemma_decrypt_step(start, marked, outcomes, i - 1);
    }
}

/// Each step of a decryption follows the one that belongs before it, whatever the decryption is of
/// and however far it has come. What is done about the key of an entry does not depend on whether
/// the secret is marked, and a secret is decrypted only after it was parsed with success, and
/// done only after it was decrypted with success.
pub proof fn law_secrets_are_parsed_and_then_decrypted(
    decrypt: DecryptView,
    marked: bool,
    outcome: Result<(), FailureView>,
)
    ensures
        decrypt.after(marked, outcome) matches Ok(next) ==> {
            &&& next.cipherstring == decrypt.cipherstring
            &&& next.has_entry_key == decrypt.has_entry_key
            &&& !(next.step is Initialize)
            &&& next.step is FindKeys <==> decrypt.step is Initialize
            &&& next.step is ParseEntryKey <==> decrypt.step is FindKeys && decrypt.has_entry_key
            &&& next.step is DecryptEntryKey <==> decrypt.step is ParseEntryKey
            &&& next.step is Reprompt ==> decrypt.step is Reprompt || marked && (decrypt.step
                is DecryptEntryKey || decrypt.step is FindKeys && !decrypt.has_entry_key)
            &&& next.step is Parse ==> decrypt.step is Reprompt || !marked && (decrypt.step
                is DecryptEntryKey || decrypt.step is FindKeys && !decrypt.has_entry_key)
            &&& next.step is Decrypt <==> decrypt.step is Parse
            &&& next.step is Done <==> decrypt.step is Decrypt || decrypt.step is Done
            &&& outcome is Ok || decrypt.step is Reprompt
        },
        decrypt.step is FindKeys && decrypt.has_entry_key ==> decrypt.after(true, outcome)
            == decrypt.after(false, outcome),
{
}

/// Whether the master password was accepted on the way of a decryption.
pub open spec fn password_given(
    decrypt: DecryptView,
    marked: bool,
    outcomes: Seq<Result<(), FailureView>>,
) -> bool
    decreases outcomes.len(),
{
    if outcomes.len() == 0 {
        false
    } else {
        ||| decrypt.step matches DecryptStepView::Reprompt(UnlockView::TryUnlock(_)) && outcomes[0]
            is Ok
        ||| decrypt.after(marked, outcomes[0]) matches Ok(next) && password_given(
            next,
            marked,
            outcomes.skip(1),
        )
    }
}

/// Whether a decryption has passed the question for the master password.
pub open spec fn past_reprompt(step: DecryptStepView) -> bool {
    step is Parse || step is Decrypt || step is Done
}

/// A secret that is marked for the master password is parsed, let alone decrypted, only after
/// the master password was accepted.
pub proof fn law_marked_secrets_take_the_password(
    cipherstring: Seq<char>,
    has_entry_key: bool,
    outcomes: Seq<Result<(), FailureView>>,
)
    ensures
        decrypt_run(DecryptView::start(cipherstring, has_entry_key), true, outcomes) matches Ok(end)
            ==> past_reprompt(end.step) ==> password_given(
            DecryptView::start(cipherstring, has_entry_key),
            true,
            outcomes,
        ),
{
    lemma_marked_run(DecryptView::start(cipherstring, has_entry_key), outcomes);
}

proof fn lemma_marked_run(decrypt: DecryptView, outcomes: Seq<Result<(), FailureView>>)
    requires
        !past_reprompt(decrypt.step),
        !(decrypt.step matches DecryptStepView::Reprompt(UnlockView::Done)),
    ensures
        decrypt_run(decrypt, true, outcomes) matches Ok(end) ==> past_reprompt(end.step)
            ==> password_given(decrypt, true, outcomes),
    decreases outcomes.len(),
{
    if outcomes.len() > 0 {
        if let Ok(next) = decrypt.after(true, outcomes[0]) {
            if !past_reprompt(next.step) {
                lemma_marked_run(next, outcomes.skip(1));
            }
        }
    }
}

/// A secret that is not marked is never asked the master password for.
pub proof fn law_unmarked_secrets_are_not_asked_for(
    decrypt: DecryptView,
    outcome: Result<(), FailureView>,
)
    requires
        !(decrypt.step is Reprompt),
    ensures
        !(decrypt.after(false, outcome) matches Ok(next) && next.step is Reprompt),
{
}

} // verus!
