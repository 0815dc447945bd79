//! The SSH agent: it lists the keys of the vault, and signs with them.

use vstd::prelude::*;
use vstd::string::*;

use crate::agent::Agent;
use crate::crypto::{
    bytes_view, check_signature, ed25519_sign, ed25519_signature, number, prime_factors,
    public_key_in, read_public_key, rsa_sha1_signature, rsa_sha256_signature,
    rsa_sha512_signature, rsa_sign_sha1, rsa_sign_sha256, rsa_sign_sha512, signable, PrivateKey,
    PrivateKeyView,
};
use crate::error::{text_views, Error, Failure, FailureView};
use crate::pinentry;
use crate::pinentry::confirm_commands;
use crate::ssh_keys::found_key_view;
use crate::text::bytes_copy;

verus! {

broadcast use vstd::string::group_string_axioms;

/// The flag of a request for an RSA signature with SHA-256.
pub const SSH_AGENT_RSA_SHA2_256: u32 = 2;

/// The flag of a request for an RSA signature with SHA-512.
pub const SSH_AGENT_RSA_SHA2_512: u32 = 4;

/// What an SSH client is told of a request that failed.
#[derive(Clone, Debug, PartialEq, Eq)]
pub enum AgentError {
    /// No more than that it failed.
    Failure,
    /// What went wrong.
    Other { message: String },
}

/// What an [`AgentError`] says.
#[verifier::ext_equal]
pub enum AgentErrorView {
    Failure,
    Other { message: Seq<char> },
}

impl View for AgentError {
    type V = AgentErrorView;

    open spec fn view(&self) -> AgentErrorView {
        match *self {
            AgentError::Failure => AgentErrorView::Failure,
            AgentError::Other { message } => AgentErrorView::Other { message: message@ },
        }
    }
}

/// A key that is offered to an SSH client, in the binary form of the SSH protocol.
#[derive(Clone, Debug, PartialEq, Eq)]
pub struct SshIdentity {
    pub pubkey: Vec<u8>,
    pub comment: String,
}

/// What an [`SshIdentity`] says.
#[verifier::ext_equal]
pub struct SshIdentityView {
    pub pubkey: Seq<u8>,
    pub comment: Seq<char>,
}

impl View for SshIdentity {
    type V = SshIdentityView;

    open spec fn view(&self) -> SshIdentityView {
        SshIdentityView { pubkey: self.pubkey@, comment: self.comment@ }
    }
}

/// A signature, and the algorithm that it was made with.
#[derive(Clone, Debug, PartialEq, Eq)]
pub struct Signature {
    pub algorithm: String,
    pub bytes: Vec<u8>,
}

/// What a [`Signature`] says.
#[verifier::ext_equal]
pub struct SignatureView {
    pub algorithm: Seq<char>,
    pub bytes: Seq<u8>,
}

impl View for Signature {
    type V = SignatureView;

    open spec fn view(&self) -> SignatureView {
        SignatureView { algorithm: self.algorithm@, bytes: self.bytes@ }
    }
}

/// Identities or an error by their views.
pub open spec fn identities_view(res: Result<Vec<SshIdentity>, AgentError>) -> Result<
    Seq<SshIdentityView>,
    AgentErrorView,
> {
    match res {
        Ok(identities) => Ok(identities@.map_values(|identity: SshIdentity| identity@)),
        Err(e) => Err(e@),
    }
}

/// A signature or an error by its view.
pub open spec fn signature_view(res: Result<Signature, AgentError>) -> Result<
    SignatureView,
    AgentErrorView,
> {
    match res {
        Ok(signature) => Ok(signature@),
        Err(e) => Err(e@),
    }
}

/// The identities of keys that read like this, in order and without comments, or the error of
/// the first that could not be read.
pub open spec fn identities_of(publics: Seq<Result<Seq<u8>, Seq<char>>>) -> Result<
    Seq<SshIdentityView>,
    AgentErrorView,
>
    decreases publics.len(),
{
    if publics.len() == 0 {
        Ok(Seq::empty())
    } else {
        match (identities_of(publics.drop_last()), publics.last()) {
            (Err(e), _) => Err(e),
            (Ok(_), Err(message)) => Err(AgentErrorView::Other { message }),
            (Ok(identities), Ok(pubkey)) => Ok(
                identities.push(SshIdentityView { pubkey, comment: ""@ }),
            ),
        }
    }
}

/// Public keys in text, as they read.
pub open spec fn publics_in(texts: Seq<String>) -> Seq<Result<Seq<u8>, Seq<char>>> {
    texts.map_values(|text: String| public_key_in(text@))
}

/// Keys that were read by their views.
pub open spec fn public_views(publics: Seq<Result<Vec<u8>, String>>) -> Seq<
    Result<Seq<u8>, Seq<char>>,
> {
    publics.map_values(|public: Result<Vec<u8>, String>| bytes_view(public))
}

/// A failure is final: what comes behind it does not matter.
proof fn lemma_failed_identities(publics: Seq<Result<Seq<u8>, Seq<char>>>, n: int)
    requires
        0 <= n <= publics.len(),
        identities_of(publics.take(n)) is Err,
    ensures
        identities_of(publics) == identities_of(publics.take(n)),
    decreases publics.len() - n,
{
    if n < publics.len() {
        assert(publics.take(n + 1).drop_last() =~= publics.take(n));
        lemma_failed_identities(publics, n + 1);
    } else {
        assert(publics.take(n) =~= publics);
    }
}

/// The identities of keys that were read.
pub fn identities(publics: Vec<Result<Vec<u8>, String>>) -> (res: Result<
    Vec<SshIdentity>,
    AgentError,
>)
    ensures
        identities_view(res) == identities_of(public_views(publics@)),
        res matches Ok(list) ==> {
            &&& list@.len() == publics@.len()
            &&& forall|i: int|
                0 <= i < publics@.len() ==> ((#[trigger] publics@[i]) matches Ok(pubkey)
                    && list@[i].pubkey@ == pubkey@ && list@[i].comment@.len() == 0)
        },
        res matches Err(e) ==> exists|i: int|
            0 <= i < publics@.len() && ((#[trigger] publics@[i]) matches Err(why) && e
                == (AgentError::Other { message: why })) && forall|j: int|
                0 <= j < i ==> (#[trigger] publics@[j]) is Ok,
{
    let ghost list = publics@;
    let ghost views = public_views(list);
    let mut out: Vec<SshIdentity> = Vec::new();
    assert(out@.map_values(|identity: SshIdentity| identity@) =~= Seq::<SshIdentityView>::empty());
    assert(views.take(0) =~= Seq::<Result<Seq<u8>, Seq<char>>>::empty());
    for public in it: publics
        invariant
            it.seq() == list,
            views == public_views(list),
            identities_of(views.take(it.index() as int)) == Ok::<_, AgentErrorView>(
                out@.map_values(|identity: SshIdentity| identity@),
            ),
            out@.len() == it.index(),
            forall|i: int|
                0 <= i < out@.len() ==> ((#[trigger] list[i]) matches Ok(pubkey) && out@[i].pubkey@
                    == pubkey@ && out@[i].comment@.len() == 0),
    {
        proof {
            reveal_strlit("");
        }
        let ghost earlier = out@;
        proof {
            let n = it.index() as int;
            assert(views.take(n + 1).drop_last() =~= views.take(n));
            assert(views.take(n + 1).last() == bytes_view(list[n]));
        }
        match public {
            Ok(pubkey) => {
                out.push(SshIdentity { pubkey, comment: "".to_owned() });
                assert(out@.map_values(|identity: SshIdentity| identity@) =~= earlier.map_values(
                    |identity: SshIdentity| identity@,
                ).push(out@.last()@));
            },
            Err(message) => {
                proof {
                    lemma_failed_identities(views, it.index() + 1);
                    assert(list[it.index() as int] == Err::<Vec<u8>, String>(message));
                }
                return Err(AgentError::Other { message });
            },
        }
    }
    assert(views.take(views.len() as int) =~= views);
    Ok(out)
}

/// Every key that can be read is offered, each in its place and without a comment. None is
/// offered where one of them cannot be read, and the first such is told of.
pub proof fn law_keys_are_offered_in_order(publics: Seq<Result<Seq<u8>, Seq<char>>>)
    ensures
        match identities_of(publics) {
            Ok(list) => {
                &&& list.len() == publics.len()
                &&& forall|i: int|
                    0 <= i < publics.len() ==> (#[trigger] publics[i]) == Ok::<
                        Seq<u8>,
                        Seq<char>,
                    >(list[i].pubkey) && list[i].comment == ""@
            },
            Err(e) => exists|i: int|
                0 <= i < publics.len() && ((#[trigger] publics[i]) matches Err(message) && e == (
                AgentErrorView::Other { message })) && forall|j: int|
                    0 <= j < i ==> (#[trigger] publics[j]) is Ok,
        },
    decreases publics.len(),
{
    if publics.len() > 0 {
        let front = publics.drop_last();
        law_keys_are_offered_in_order(front);
        assert(forall|i: int| 0 <= i < front.len() ==> front[i] == publics[i]);
        assert(publics.last() == publics[publics.len() - 1]);
        match identities_of(front) {
            Err(e) => {
                let i = choose|i: int|
                    0 <= i < front.len() && ((#[trigger] front[i]) matches Err(message) && e == (
                    AgentErrorView::Other { message })) && forall|j: int|
                        0 <= j < i ==> (#[trigger] front[j]) is Ok;
                assert(publics[i] == front[i]);
                assert forall|j: int| 0 <= j < i implies (#[trigger] publics[j]) is Ok by {
                    assert(front[j] == publics[j]);
                }
            },
            Ok(list) => {
                assert forall|j: int| 0 <= j < front.len() implies (#[trigger] publics[j]) is Ok by {
                    assert(front[j] == publics[j]);
                }
            },
        }
    }
}

/// What a signature is made with.
#[derive(Clone, Copy, Debug, PartialEq, Eq, Structural)]
pub enum SignatureAlgorithm {
    Ed25519,
    RsaSha512,
    RsaSha256,
    RsaSha1,
}

impl SignatureAlgorithm {
    /// The name in the SSH protocol.
    pub open spec fn spec_name(self) -> Seq<char> {
        match self {
            SignatureAlgorithm::Ed25519 => "ssh-ed25519"@,
            SignatureAlgorithm::RsaSha512 => "rsa-sha2-512"@,
            SignatureAlgorithm::RsaSha256 => "rsa-sha2-256"@,
            SignatureAlgorithm::RsaSha1 => "ssh-rsa"@,
        }
    }

    /// Whether bytes can be sent as a signature: one with SHA-1 never can.
    pub open spec fn accepts(self, bytes: Seq<u8>) -> bool {
        match self {
            SignatureAlgorithm::Ed25519 => bytes.len() == 64,
            SignatureAlgorithm::RsaSha512 => true,
            SignatureAlgorithm::RsaSha256 => true,
            SignatureAlgorithm::RsaSha1 => false,
        }
    }

    /// The name in the SSH protocol.
    pub fn name(self) -> (res: String)
        ensures
            res@ == self.spec_name(),
            self is Ed25519 ==> res@ == "ssh-ed25519"@,
            self is RsaSha512 ==> res@ == "rsa-sha2-512"@,
            self is RsaSha256 ==> res@ == "rsa-sha2-256"@,
            self is RsaSha1 ==> res@ == "ssh-rsa"@,
    {
        match self {
            SignatureAlgorithm::Ed25519 => "ssh-ed25519".to_owned(),
            SignatureAlgorithm::RsaSha512 => "rsa-sha2-512".to_owned(),
            SignatureAlgorithm::RsaSha256 => "rsa-sha2-256".to_owned(),
            SignatureAlgorithm::RsaSha1 => "ssh-rsa".to_owned(),
        }
    }
}

/// The algorithm of an RSA signature: the longest digest that the flags ask for.
pub open spec fn rsa_algorithm(flags: u32) -> SignatureAlgorithm {
    if flags & SSH_AGENT_RSA_SHA2_512 != 0 {
        SignatureAlgorithm::RsaSha512
    } else if flags & SSH_AGENT_RSA_SHA2_256 != 0 {
        SignatureAlgorithm::RsaSha256
    } else {
        SignatureAlgorithm::RsaSha1
    }
}

/// The RSA signature that the flags ask for, by two prime factors.
pub open spec fn rsa_signature(
    p: Seq<u8>,
    q: Seq<u8>,
    e: Seq<u8>,
    data: Seq<u8>,
    flags: u32,
) -> Result<Seq<u8>, Seq<char>> {
    if flags & SSH_AGENT_RSA_SHA2_512 != 0 {
        rsa_sha512_signature(p, q, e, data)
    } else if flags & SSH_AGENT_RSA_SHA2_256 != 0 {
        rsa_sha256_signature(p, q, e, data)
    } else {
        rsa_sha1_signature(p, q, e, data)
    }
}

/// A signature by an algorithm, or the error of one that could not be made, or cannot be sent.
pub open spec fn signed(
    algorithm: SignatureAlgorithm,
    bytes: Result<Seq<u8>, Seq<char>>,
) -> Result<SignatureView, AgentErrorView> {
    match bytes {
        Ok(bytes) => if algorithm.accepts(bytes) {
            Ok(SignatureView { algorithm: algorithm.spec_name(), bytes })
        } else {
            Err(AgentErrorView::Other { message: "length invalid"@ })
        },
        Err(message) => Err(AgentErrorView::Other { message }),
    }
}

impl PrivateKey {
    /// Whether the key can be handed to the signature algorithms: an RSA key with one factor
    /// that is zero cannot, nor one whose second factor is far greater than the first.
    pub open spec fn usable(&self) -> bool {
        match *self {
            PrivateKey::Rsa { p, q, .. } => signable(p@, q@),
            _ => true,
        }
    }

    /// Whether the key can be handed to the signature algorithms.
    pub fn is_usable(&self) -> (res: bool)
        ensures
            res == self.usable(),
            *self matches PrivateKey::Rsa { p, q, .. } ==> (res <==> (number(p@) == 0 <==> number(
                q@,
            ) == 0) && number(q@) <= number(p@) * 0x1_0000_0000),
            !(self is Rsa) ==> res,
    {
        match self {
            PrivateKey::Rsa { p, q, .. } => is_signable(p.as_slice(), q.as_slice()),
            PrivateKey::Ed25519 { .. } | PrivateKey::Unsupported { .. } => true,
        }
    }
}

/// A request for a signature, with the key that was found for it.
#[derive(Clone, Debug, PartialEq, Eq)]
pub enum Signing {
    /// The user is to be asked whether the key may be used.
    Confirm(PrivateKey),
    /// The key may be used.
    Ready(PrivateKey),
}

/// What a [`Signing`] says.
#[verifier::ext_equal]
pub enum SigningView {
    Confirm(PrivateKeyView),
    Ready(PrivateKeyView),
}

impl View for Signing {
    type V = SigningView;

    open spec fn view(&self) -> SigningView {
        match *self {
            Signing::Confirm(key) => SigningView::Confirm(key@),
            Signing::Ready(key) => SigningView::Ready(key@),
        }
    }
}

/// A request for a signature or its failure by its view.
pub open spec fn signing_view(res: Result<Signing, AgentError>) -> Result<
    SigningView,
    AgentErrorView,
> {
    match res {
        Ok(signing) => Ok(signing@),
        Err(e) => Err(e@),
    }
}

impl SigningView {
    /// How a request starts, where `confirm` tells whether the user is to be asked.
    pub open spec fn start(confirm: bool, key: Result<PrivateKeyView, FailureView>) -> Result<
        SigningView,
        AgentErrorView,
    > {
        match key {
            Ok(key) => Ok(
                if confirm {
                    SigningView::Confirm(key)
                } else {
                    SigningView::Ready(key)
                },
            ),
            Err(e) => Err(AgentErrorView::Other { message: e.chain() }),
        }
    }

    /// The request after the user has answered so. The client is not told why the user could
    /// not be asked.
    pub open spec fn after(self, answer: Result<bool, ()>) -> Result<SigningView, AgentErrorView> {
        match (self, answer) {
            (SigningView::Ready(key), _) => Ok(SigningView::Ready(key)),
            (SigningView::Confirm(key), Ok(true)) => Ok(SigningView::Ready(key)),
            (SigningView::Confirm(_), Ok(false)) => Err(
                AgentErrorView::Other { message: "User did not confirm"@ },
            ),
            (SigningView::Confirm(_), Err(_)) => Err(AgentErrorView::Failure),
        }
    }
}

impl Signing {
    /// The key.
    pub open spec fn key(&self) -> PrivateKey {
        match *self {
            Signing::Confirm(key) => key,
            Signing::Ready(key) => key,
        }
    }

    /// Whether the key can be handed to the signature algorithms.
    pub open spec fn usable(&self) -> bool {
        self.key().usable()
    }

    /// Whether the key may be used, and can be.
    pub fn is_ready(&self) -> (res: bool)
        ensures
            res == (self is Ready && self.usable()),
    {
        match self {
            Signing::Confirm(_) => false,
            Signing::Ready(key) => key.is_usable(),
        }
    }

    /// The commands that ask the user whether the key may be used, where they are to be asked.
    pub fn question(&self) -> (res: Option<Vec<String>>)
        ensures
            res is Some <==> self is Confirm,
            res matches Some(commands) ==> text_views(commands@) == confirm_commands(
                "Allow SSH key use?"@,
            ),
            res matches Some(commands) ==> {
                &&& commands@.len() == 3
                &&& commands@[0]@ == "SETTITLE rbw"@
                &&& commands@[1]@ == "SETDESC "@ + "Allow SSH key use?"@
                &&& commands@[2]@ == "CONFIRM"@
            },
    {
        match self {
            Signing::Confirm(_) => Some(pinentry::confirm("Allow SSH key use?")),
            Signing::Ready(_) => None,
        }
    }

    /// The request after the user has answered.
    pub fn answered(self, answer: Result<bool, Error>) -> (res: Result<Signing, AgentError>)
        ensures
            signing_view(res) == self@.after(
                match answer {
                    Ok(confirmed) => Ok(confirmed),
                    Err(_) => Err(()),
                },
            ),
            self matches Signing::Ready(key) ==> res == Ok::<Signing, AgentError>(
                Signing::Ready(key),
            ),
            self matches Signing::Confirm(key) ==> match answer {
                Ok(true) => res == Ok::<Signing, AgentError>(Signing::Ready(key)),
                Ok(false) => res matches Err(AgentError::Other { message }) && message@
                    == "User did not confirm"@,
                Err(_) => res matches Err(e) && e is Failure,
            },
    {
        match (self, answer) {
            (Signing::Ready(key), _) => Ok(Signing::Ready(key)),
            (Signing::Confirm(key), Ok(true)) => Ok(Signing::Ready(key)),
            (Signing::Confirm(_), Ok(false)) => Err(
                AgentError::Other { message: "User did not confirm".to_owned() },
            ),
            (Signing::Confirm(_), Err(_)) => Err(AgentError::Failure),
        }
    }
}

/// Where the user is to be asked, a key may be used only after they have agreed, and it is the
/// key that was found.
pub proof fn law_keys_are_used_only_when_confirmed(
    key: Result<PrivateKeyView, FailureView>,
    answer: Result<bool, ()>,
)
    ensures
        match SigningView::start(true, key) {
            Ok(signing) => {
                &&& !(signing is Ready)
                &&& signing.after(answer) matches Ok(next) ==> {
                    &&& answer == Ok::<bool, ()>(true)
                    &&& key matches Ok(k) && next == SigningView::Ready(k)
                }
            },
            Err(_) => key is Err,
        },
        key matches Ok(k) ==> SigningView::Confirm(k).after(Ok(false)) == Err::<
            SigningView,
            AgentErrorView,
        >(AgentErrorView::Other { message: "User did not confirm"@ }),
        key matches Ok(k) ==> SigningView::Confirm(k).after(Err(())) == Err::<
            SigningView,
            AgentErrorView,
        >(AgentErrorView::Failure),
        key matches Ok(k) ==> SigningView::start(false, key) == Ok::<SigningView, AgentErrorView>(
            SigningView::Ready(k),
        ),
{
}

/// Whether the number that bytes stand for is no greater than another.
fn at_most(a: &[u8], b: &[u8]) -> (res: bool)
    ensures
        res == (number(a@) <= number(b@)),
{
    let len = if a.len() < b.len() {
        b.len()
    } else {
        a.len()
    };
    let skip_a: usize = len - a.len();
    let skip_b: usize = len - b.len();
    let mut less = false;
    let mut greater = false;
    let mut i: usize = 0;
    let ghost mut seen_a = a@.take(0);
    let ghost mut seen_b = b@.take(0);
    while i < len
        invariant
            skip_a + a@.len() == len,
            skip_b + b@.len() == len,
            i <= len,
            seen_a == a@.take(if i < skip_a { 0 } else { i - skip_a }),
            seen_b == b@.take(if i < skip_b { 0 } else { i - skip_b }),
            less == (number(seen_a) < number(seen_b)),
            greater == (number(seen_a) > number(seen_b)),
            i < skip_a ==> number(seen_a) == 0,
            i < skip_b ==> number(seen_b) == 0,
        decreases len - i,
    {
        let x: u8 = if i < skip_a {
            0
        } else {
            a[i - skip_a]
        };
        let y: u8 = if i < skip_b {
            0
        } else {
            b[i - skip_b]
        };
        let ghost next_a = a@.take(if i + 1 < skip_a { 0 } else { i + 1 - skip_a });
        let ghost next_b = b@.take(if i + 1 < skip_b { 0 } else { i + 1 - skip_b });
        proof {
            if i >= skip_a {
                assert(next_a.drop_last() =~= seen_a);
            } else {
                assert(next_a =~= seen_a);
            }
            if i >= skip_b {
                assert(next_b.drop_last() =~= seen_b);
            } else {
                assert(next_b =~= seen_b);
            }
            assert(number(next_a) == number(seen_a) * 256 + x);
            assert(number(next_b) == number(seen_b) * 256 + y);
            seen_a = next_a;
            seen_b = next_b;
        }
        if !less && !greater {
            less = x < y;
            greater = x > y;
        }
        i = i + 1;
    }
    assert(seen_a =~= a@);
    assert(seen_b =~= b@);
    !greater
}

/// Puts a zero behind bytes, which makes the number that they stand for 256 times as great.
fn push_zero(bytes: &mut Vec<u8>)
    ensures
        number(final(bytes)@) == number(old(bytes)@) * 256,
{
    let ghost earlier = bytes@;
    bytes.push(0);
    assert(bytes@.drop_last() =~= earlier);
}

/// Whether signing with two factors comes to an end.
fn is_signable(p: &[u8], q: &[u8]) -> (res: bool)
    ensures
        res == signable(p@, q@),
{
    let nothing: Vec<u8> = Vec::new();
    let mut shifted = bytes_copy(p);
    assert(number(nothing@) == 0);
    push_zero(&mut shifted);
    push_zero(&mut shifted);
    push_zero(&mut shifted);
    push_zero(&mut shifted);
    let p_is_zero = at_most(p, nothing.as_slice());
    let q_is_zero = at_most(q, nothing.as_slice());
    p_is_zero == q_is_zero && at_most(q, shifted.as_slice())
}

/// The signature that was made, with the algorithm that it was made with.
pub fn with_algorithm(algorithm: SignatureAlgorithm, bytes: Result<Vec<u8>, String>) -> (res:
    Result<Signature, AgentError>)
    ensures
        signature_view(res) == signed(algorithm, bytes_view(bytes)),
        bytes matches Err(why) ==> (res matches Err(AgentError::Other { message }) && message@
            == why@),
        bytes matches Ok(made) ==> {
            &&& algorithm is RsaSha1 || (algorithm is Ed25519 && made@.len() != 64) ==> (
            res matches Err(AgentError::Other { message }) && message@ == "length invalid"@)
            &&& algorithm is Ed25519 && made@.len() == 64 ==> (res matches Ok(signature)
                && signature.algorithm@ == "ssh-ed25519"@ && signature.bytes@ == made@)
            &&& algorithm is RsaSha512 ==> (res matches Ok(signature) && signature.algorithm@
                == "rsa-sha2-512"@ && signature.bytes@ == made@)
            &&& algorithm is RsaSha256 ==> (res matches Ok(signature) && signature.algorithm@
                == "rsa-sha2-256"@ && signature.bytes@ == made@)
        },
{
    let bytes = match bytes {
        Ok(bytes) => bytes,
        Err(message) => {
            return Err(AgentError::Other { message });
        },
    };
    proof {
        reveal_strlit("ssh-ed25519");
        reveal_strlit("rsa-sha2-512");
        reveal_strlit("rsa-sha2-256");
        reveal_strlit("ssh-rsa");
        assert("ssh-ed25519"@.len() == 11);
        assert("rsa-sha2-512"@.len() == 12);
        assert("rsa-sha2-256"@.len() == 12);
        assert("ssh-rsa"@.len() == 7);
    }
    let name = algorithm.name();
    match check_signature(name.as_str(), bytes.as_slice()) {
        Ok(_) => Ok(Signature { algorithm: name, bytes }),
        Err(message) => Err(AgentError::Other { message }),
    }
}

/// An SSH agent, in front of the agent that holds the vault.
pub struct SshAgent {
    pub agent: Agent,
}

impl SshAgent {
    /// An SSH agent in front of this agent.
    pub fn new(agent: Agent) -> (res: SshAgent)
        ensures
            res.agent == agent,
    {
        SshAgent { agent }
    }

    /// The keys that are offered, by their public halves as they were decrypted.
    pub fn request_identities(&self, keys: Result<Vec<String>, Failure>) -> (res: Result<
        Vec<SshIdentity>,
        AgentError,
    >)
        ensures
            identities_view(res) == match keys {
                Ok(keys) => identities_of(publics_in(keys@)),
                Err(e) => Err(AgentErrorView::Other { message: e@.chain() }),
            },
            keys matches Err(e) ==> (res matches Err(AgentError::Other { message }) && message@
                == e@.chain()),
            keys matches Ok(texts) ==> {
                &&& res matches Ok(list) ==> {
                    &&& list@.len() == texts@.len()
                    &&& forall|i: int|
                        0 <= i < texts@.len() ==> public_key_in((#[trigger] texts@[i])@) == Ok::<
                            Seq<u8>,
                            Seq<char>,
                        >(list@[i].pubkey@) && list@[i].comment@.len() == 0
                }
                &&& res matches Err(e) ==> exists|i: int|
                    0 <= i < texts@.len() && (public_key_in((#[trigger] texts@[i])@) matches Err(
                        message,
                    ) && e@ == (AgentErrorView::Other { message })) && forall|j: int|
                        0 <= j < i ==> public_key_in((#[trigger] texts@[j])@) is Ok
            },
    {
        let keys = match keys {
            Ok(keys) => keys,
            Err(e) => {
                return Err(AgentError::Other { message: e.chain() });
            },
        };
        let mut publics: Vec<Result<Vec<u8>, String>> = Vec::new();
        let mut i: usize = 0;
        while i < keys.len()
            invariant
                i <= keys.len(),
                publics.len() == i,
                forall|j: int|
                    0 <= j < i ==> bytes_view(#[trigger] publics@[j]) == public_key_in(keys@[j]@),
            decreases keys.len() - i,
        {
            publics.push(read_public_key(keys[i].as_str()));
            i = i + 1;
        }
        assert(public_views(publics@) =~= publics_in(keys@));
        let ghost list = publics@;
        let res = identities(publics);
        proof {
            assert forall|j: int| 0 <= j < keys@.len() implies bytes_view(list[j]) == public_key_in(
                (#[trigger] keys@[j])@,
            ) by {
                assert(bytes_view(list[j]) == public_key_in(keys@[j]@));
            }
            if res is Err {
                let e = res->Err_0;
                let i = choose|i: int|
                    0 <= i < list.len() && ((#[trigger] list[i]) matches Err(why) && e == (
                    AgentError::Other { message: why })) && forall|j: int|
                        0 <= j < i ==> (#[trigger] list[j]) is Ok;
                assert(bytes_view(list[i]) == public_key_in(keys@[i]@));
                assert forall|j: int| 0 <= j < i implies public_key_in(
                    (#[trigger] keys@[j])@,
                ) is Ok by {
                    assert(list[j] is Ok);
                }
            } else {
                assert forall|j: int| 0 <= j < keys@.len() implies public_key_in(
                    (#[trigger] keys@[j])@,
                ) == Ok::<Seq<u8>, Seq<char>>(res->Ok_0@[j].pubkey@) && res->Ok_0@[j].comment@.len()
                    == 0 by {
                    assert(list[j] is Ok);
                }
            }
        }
        res
    }

    /// Goes on with a request for a signature after the key was searched for: the user is asked
    /// first, where that is wanted.
    pub fn found(&self, key: Result<PrivateKey, Failure>) -> (res: Result<Signing, AgentError>)
        ensures
            signing_view(res) == SigningView::start(
                self.agent.confirm_ssh,
                found_key_view(key),
            ),
            key matches Ok(found) ==> res == Ok::<Signing, AgentError>(
                if self.agent.confirm_ssh {
                    Signing::Confirm(found)
                } else {
                    Signing::Ready(found)
                },
            ),
            key matches Err(e) ==> (res matches Err(AgentError::Other { message }) && message@
                == e@.chain()),
    {
        match key {
            Ok(key) => if self.agent.confirm_ssh {
                Ok(Signing::Confirm(key))
            } else {
                Ok(Signing::Ready(key))
            },
            Err(e) => Err(AgentError::Other { message: e.chain() }),
        }
    }

    /// Signs data with a key that may be used, in the way that the flags ask for.
    pub fn sign(signing: &Signing, data: &[u8], flags: u32) -> (res: Result<Signature, AgentError>)
        requires
            signing is Ready,
            signing.usable(),
        ensures
            match signing.key()@ {
                PrivateKeyView::Ed25519 { keypair } => signature_view(res) == match ed25519_signature(
                    keypair,
                    data@,
                ) {
                    Ok(bytes) => Ok(
                        SignatureView {
                            algorithm: SignatureAlgorithm::Ed25519.spec_name(),
                            bytes,
                        },
                    ),
                    Err(message) => Err(AgentErrorView::Other { message }),
                },
                PrivateKeyView::Rsa { p, q, e } => {
                    &&& prime_factors(p, q) ==> signature_view(res) == signed(
                        rsa_algorithm(flags),
                        rsa_signature(p, q, e, data@, flags),
                    )
                    &&& res matches Ok(signature) ==> {
                        &&& rsa_algorithm(flags) != SignatureAlgorithm::RsaSha1
                        &&& signature.algorithm@ == rsa_algorithm(flags).spec_name()
                    }
                    &&& res matches Err(error) ==> error is Other
                },
                PrivateKeyView::Unsupported { description } => signature_view(res) == Err::<
                    SignatureView,
                    AgentErrorView,
                >(AgentErrorView::Other { message: "Unsupported key type: "@ + description }),
            },
            signing matches Signing::Ready(PrivateKey::Ed25519 { keypair }) ==> match ed25519_signature(
                keypair@,
                data@,
            ) {
                Ok(bytes) => res matches Ok(signature) && signature.algorithm@ == "ssh-ed25519"@
                    && signature.bytes@ == bytes,
                Err(why) => res matches Err(AgentError::Other { message }) && message@ == why,
            },
            signing matches Signing::Ready(PrivateKey::Rsa { p, q, e }) ==> {
                &&& res matches Ok(signature) ==> if flags & 4 != 0 {
                    signature.algorithm@ == "rsa-sha2-512"@
                } else {
                    flags & 2 != 0 && signature.algorithm@ == "rsa-sha2-256"@
                }
                &&& prime_factors(p@, q@) && flags & 4 != 0 ==> match rsa_sha512_signature(
                    p@,
                    q@,
                    e@,
                    data@,
                ) {
                    Ok(bytes) => res matches Ok(signature) && signature.bytes@ == bytes,
                    Err(why) => res matches Err(AgentError::Other { message }) && message@ == why,
                }
                &&& prime_factors(p@, q@) && flags & 4 == 0 && flags & 2 != 0
                    ==> match rsa_sha256_signature(p@, q@, e@, data@) {
                    Ok(bytes) => res matches Ok(signature) && signature.bytes@ == bytes,
                    Err(why) => res matches Err(AgentError::Other { message }) && message@ == why,
                }
                &&& flags & 4 == 0 && flags & 2 == 0 ==> res is Err
            },
            signing matches Signing::Ready(PrivateKey::Unsupported { description }) ==> (
            res matches Err(AgentError::Other { message }) && message@ == "Unsupported key type: "@
                + description@),
    {
        let key = match signing {
            Signing::Ready(key) => key,
            Signing::Confirm(key) => key,
        };
        match key {
            PrivateKey::Ed25519 { keypair } => with_algorithm(
                SignatureAlgorithm::Ed25519,
                ed25519_sign(keypair, data),
            ),
            PrivateKey::Rsa { p, q, e } => {
                let p = p.as_slice();
                let q = q.as_slice();
                let e = e.as_slice();
                if flags & SSH_AGENT_RSA_SHA2_512 != 0 {
                    with_algorithm(SignatureAlgorithm::RsaSha512, rsa_sign_sha512(p, q, e, data))
                } else if flags & SSH_AGENT_RSA_SHA2_256 != 0 {
                    with_algorithm(SignatureAlgorithm::RsaSha256, rsa_sign_sha256(p, q, e, data))
                } else {
                    with_algorithm(SignatureAlgorithm::RsaSha1, rsa_sign_sha1(p, q, e, data))
                }
            },
            PrivateKey::Unsupported { description } => Err(
                AgentError::Other {
                    message: "Unsupported key type: ".to_owned().concat(description.as_str()),
                },
            ),
        }
    }
}

/// A request for both digests is answered with SHA-512. One for none would be answered with
/// SHA-1, and is refused: such a signature cannot be sent, whatever it is.
pub proof fn law_the_longest_digest_is_used(flags: u32, bytes: Result<Seq<u8>, Seq<char>>)
    ensures
        flags & 4 != 0 ==> rsa_algorithm(flags).spec_name() == "rsa-sha2-512"@,
        flags & 4 == 0 && flags & 2 != 0 ==> rsa_algorithm(flags).spec_name() == "rsa-sha2-256"@,
        flags & 6 == 0 ==> signed(rsa_algorithm(flags), bytes) is Err,
{
    assert(flags & 6 == 0 ==> flags & 4 == 0 && flags & 2 == 0) by (bit_vector);
}

} // verus!
