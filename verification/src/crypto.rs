//! What other crates compute for the library: a digest, SSH keys read from text, and signatures.

use sha2::Digest;
use signature::{RandomizedSigner, SignatureEncoding, Signer};
use ssh_agent_lib::ssh_key::private::{Ed25519Keypair, KeypairData};
use vstd::prelude::*;
use vstd::string::*;

verus! {

/// The SHA-256 digest of a byte string, which is what `sha2::Sha256` computes.
pub uninterp spec fn sha256_digest(bytes: Seq<u8>) -> Seq<u8>;

/// `sha2::Sha256::digest` gives the digest of the bytes, which is 32 bytes long.
#[verifier::external_body]
pub(crate) fn sha256(bytes: &[u8]) -> (res: Vec<u8>)
    ensures
        res@ == sha256_digest(bytes@),
        res@.len() == 32,
{
    sha2::Sha256::digest(bytes).to_vec()
}

/// Bytes or an error message by their views.
pub open spec fn bytes_view(res: Result<Vec<u8>, String>) -> Result<Seq<u8>, Seq<char>> {
    match res {
        Ok(bytes) => Ok(bytes@),
        Err(message) => Err(message@),
    }
}

/// What `ssh_key::PublicKey::from_openssh` reads in a line of text: the key in the binary form of
/// the SSH protocol, or what is wrong with the line.
pub uninterp spec fn public_key_in(text: Seq<char>) -> Result<Seq<u8>, Seq<char>>;

/// `ssh_key::PublicKey::from_openssh` and, on the key that it reads, `to_bytes`: the result
/// depends on the text alone.
#[verifier::external_body]
pub(crate) fn read_public_key(text: &str) -> (res: Result<Vec<u8>, String>)
    ensures
        bytes_view(res) == public_key_in(text@),
{
    ssh_agent_lib::ssh_key::PublicKey::from_openssh(text).and_then(|key| key.to_bytes()).map_err(
        |e| e.to_string(),
    )
}

/// A private key, as far as it takes to sign with it.
#[derive(Clone, Debug, PartialEq, Eq)]
pub enum PrivateKey {
    /// The private half and the public half.
    Ed25519 { keypair: [u8; 64] },
    /// The two prime factors and the public exponent, the highest byte first.
    Rsa { p: Vec<u8>, q: Vec<u8>, e: Vec<u8> },
    /// A key of another type, and how it is described.
    Unsupported { description: String },
}

/// What a [`PrivateKey`] says.
#[verifier::ext_equal]
pub enum PrivateKeyView {
    Ed25519 { keypair: Seq<u8> },
    Rsa { p: Seq<u8>, q: Seq<u8>, e: Seq<u8> },
    Unsupported { description: Seq<char> },
}

impl View for PrivateKey {
    type V = PrivateKeyView;

    open spec fn view(&self) -> PrivateKeyView {
        match *self {
            PrivateKey::Ed25519 { keypair } => PrivateKeyView::Ed25519 { keypair: keypair@ },
            PrivateKey::Rsa { p, q, e } => PrivateKeyView::Rsa { p: p@, q: q@, e: e@ },
            PrivateKey::Unsupported { description } => PrivateKeyView::Unsupported {
                description: description@,
            },
        }
    }
}

/// A private key or an error message by its view.
pub open spec fn private_key_view(res: Result<PrivateKey, String>) -> Result<
    PrivateKeyView,
    Seq<char>,
> {
    match res {
        Ok(key) => Ok(key@),
        Err(message) => Err(message@),
    }
}

/// What `ssh_key::PrivateKey::from_openssh` reads in a text: the key, or what is wrong with the
/// text.
pub uninterp spec fn private_key_in(text: Seq<char>) -> Result<PrivateKeyView, Seq<char>>;

/// `ssh_key::PrivateKey::from_openssh`: the result depends on the text alone.
#[verifier::external_body]
pub(crate) fn read_private_key(text: &str) -> (res: Result<PrivateKey, String>)
    ensures
        private_key_view(res) == private_key_in(text@),
{
    let key = ssh_agent_lib::ssh_key::PrivateKey::from_openssh(text).map_err(|e| e.to_string())?;
    Ok(match key.key_data() {
        KeypairData::Ed25519(pair) => PrivateKey::Ed25519 { keypair: pair.to_bytes() },
        KeypairData::Rsa(pair) => PrivateKey::Rsa {
            p: pair.private.p.as_bytes().to_vec(),
            q: pair.private.q.as_bytes().to_vec(),
            e: pair.public.e.as_bytes().to_vec(),
        },
        other => PrivateKey::Unsupported { description: format!("{other:?}") },
    })
}

/// What an Ed25519 key pair of `ssh_key` signs data with: the signature, or why there is none.
pub uninterp spec fn ed25519_signature(keypair: Seq<u8>, data: Seq<u8>) -> Result<
    Seq<u8>,
    Seq<char>,
>;

/// `try_sign` of `ssh_key::private::Ed25519Keypair`, on the key pair that these bytes are: the
/// signature takes no chance, depends on the key pair and the data alone, and is 64 bytes long.
#[verifier::external_body]
pub(crate) fn ed25519_sign(keypair: &[u8; 64], data: &[u8]) -> (res: Result<Vec<u8>, String>)
    ensures
        bytes_view(res) == ed25519_signature(keypair@, data@),
        res matches Ok(signature) ==> signature@.len() == 64,
{
    let pair = Ed25519Keypair::from_bytes(keypair).map_err(|e| e.to_string())?;
    let signature = pair.try_sign(data).map_err(|e| e.to_string())?;
    Ok(signature.as_bytes().to_vec())
}

/// The number that bytes stand for, the highest byte first.
pub open spec fn number(bytes: Seq<u8>) -> nat
    decreases bytes.len(),
{
    if bytes.len() == 0 {
        0
    } else {
        number(bytes.drop_last()) * 256 + bytes.last() as nat
    }
}

/// Whether a number is prime.
pub open spec fn is_prime(n: nat) -> bool {
    &&& n > 1
    &&& forall|d: nat| 1 < d < n ==> #[trigger] (n % d) != 0
}

/// Whether signing with two factors comes to an end: both are zero, which is refused, or neither
/// is, and the second is no more than 2^32 times the first.
pub open spec fn signable(p: Seq<u8>, q: Seq<u8>) -> bool {
    &&& number(p) == 0 <==> number(q) == 0
    &&& number(q) <= number(p) * 0x1_0000_0000
}

/// Whether bytes stand for two prime factors.
pub open spec fn prime_factors(p: Seq<u8>, q: Seq<u8>) -> bool {
    is_prime(number(p)) && is_prime(number(q))
}

/// What an RSA key of two prime factors signs data with, by PKCS#1 v1.5 and SHA-512: the
/// signature, or why there is none.
pub uninterp spec fn rsa_sha512_signature(p: Seq<u8>, q: Seq<u8>, e: Seq<u8>, data: Seq<u8>) -> Result<
    Seq<u8>,
    Seq<char>,
>;

/// What an RSA key of two prime factors signs data with, by PKCS#1 v1.5 and SHA-256: the
/// signature, or why there is none.
pub uninterp spec fn rsa_sha256_signature(p: Seq<u8>, q: Seq<u8>, e: Seq<u8>, data: Seq<u8>) -> Result<
    Seq<u8>,
    Seq<char>,
>;

/// What an RSA key of two prime factors signs data with, by PKCS#1 v1.5 and SHA-1, without the
/// name of the digest in the padding: the signature, or why there is none.
pub uninterp spec fn rsa_sha1_signature(p: Seq<u8>, q: Seq<u8>, e: Seq<u8>, data: Seq<u8>) -> Result<
    Seq<u8>,
    Seq<char>,
>;

/// `rsa::RsaPrivateKey::from_p_q` and `try_sign_with_rng` of
/// `rsa::pkcs1v15::SigningKey::<Sha512>::new`. With prime factors the random blinding cancels
/// out, and the result depends on the key and the data alone; with others nothing is said of it.
/// A zero beside another factor makes `from_p_q` panic, and signing counts from the second factor
/// down to zero in steps of the first, which does not end in any time where the second is far
/// greater.
#[verifier::external_body]
pub(crate) fn rsa_sign_sha512(p: &[u8], q: &[u8], e: &[u8], data: &[u8]) -> (res: Result<
    Vec<u8>,
    String,
>)
    requires
        signable(p@, q@),
    ensures
        prime_factors(p@, q@) ==> bytes_view(res) == rsa_sha512_signature(p@, q@, e@, data@),
{
    let p = rsa::BigUint::from_bytes_be(p);
    let q = rsa::BigUint::from_bytes_be(q);
    let e = rsa::BigUint::from_bytes_be(e);
    let key = rsa::RsaPrivateKey::from_p_q(p, q, e).map_err(|e| e.to_string())?;
    let key = rsa::pkcs1v15::SigningKey::<sha2::Sha512>::new(key);
    let signature = key.try_sign_with_rng(&mut rsa::rand_core::OsRng, data);
    Ok(signature.map_err(|e| e.to_string())?.to_vec())
}

/// `rsa::RsaPrivateKey::from_p_q` and `try_sign_with_rng` of
/// `rsa::pkcs1v15::SigningKey::<Sha256>::new`. With prime factors the random blinding cancels
/// out, and the result depends on the key and the data alone; with others nothing is said of it.
/// A zero beside another factor makes `from_p_q` panic, and signing counts from the second factor
/// down to zero in steps of the first, which does not end in any time where the second is far
/// greater.
#[verifier::external_body]
pub(crate) fn rsa_sign_sha256(p: &[u8], q: &[u8], e: &[u8], data: &[u8]) -> (res: Result<
    Vec<u8>,
    String,
>)
    requires
        signable(p@, q@),
    ensures
        prime_factors(p@, q@) ==> bytes_view(res) == rsa_sha256_signature(p@, q@, e@, data@),
{
    let p = rsa::BigUint::from_bytes_be(p);
    let q = rsa::BigUint::from_bytes_be(q);
    let e = rsa::BigUint::from_bytes_be(e);
    let key = rsa::RsaPrivateKey::from_p_q(p, q, e).map_err(|e| e.to_string())?;
    let key = rsa::pkcs1v15::SigningKey::<sha2::Sha256>::new(key);
    let signature = key.try_sign_with_rng(&mut rsa::rand_core::OsRng, data);
    Ok(signature.map_err(|e| e.to_string())?.to_vec())
}

/// `rsa::RsaPrivateKey::from_p_q` and `try_sign_with_rng` of
/// `rsa::pkcs1v15::SigningKey::<Sha1>::new_unprefixed`. With prime factors the random blinding
/// cancels out, and the result depends on the key and the data alone; with others nothing is
/// said of it. A zero beside another factor makes `from_p_q` panic, and signing counts from the
/// second factor down to zero in steps of the first, which does not end in any time where the
/// second is far greater.
#[verifier::external_body]
pub(crate) fn rsa_sign_sha1(p: &[u8], q: &[u8], e: &[u8], data: &[u8]) -> (res: Result<
    Vec<u8>,
    String,
>)
    requires
        signable(p@, q@),
    ensures
        prime_factors(p@, q@) ==> bytes_view(res) == rsa_sha1_signature(p@, q@, e@, data@),
{
    let p = rsa::BigUint::from_bytes_be(p);
    let q = rsa::BigUint::from_bytes_be(q);
    let e = rsa::BigUint::from_bytes_be(e);
    let key = rsa::RsaPrivateKey::from_p_q(p, q, e).map_err(|e| e.to_string())?;
    let key = rsa::pkcs1v15::SigningKey::<sha1::Sha1>::new_unprefixed(key);
    let signature = key.try_sign_with_rng(&mut rsa::rand_core::OsRng, data);
    Ok(signature.map_err(|e| e.to_string())?.to_vec())
}

/// Whether an algorithm is one that signatures are made with here.
pub open spec fn known_algorithm(algorithm: Seq<char>) -> bool {
    ||| algorithm == "ssh-ed25519"@
    ||| algorithm == "rsa-sha2-512"@
    ||| algorithm == "rsa-sha2-256"@
    ||| algorithm == "ssh-rsa"@
}

/// `ssh_key::Algorithm::new` and `ssh_key::Signature::new` accept an RSA signature of any length
/// where the algorithm names its digest, and none where it does not, and an Ed25519 signature of
/// 64 bytes. There is one reason for which they refuse another.
#[verifier::external_body]
pub(crate) fn check_signature(algorithm: &str, bytes: &[u8]) -> (res: Result<(), String>)
    requires
        known_algorithm(algorithm@),
    ensures
        res is Ok <==> algorithm@ == "rsa-sha2-512"@ || algorithm@ == "rsa-sha2-256"@ || (
        algorithm@ == "ssh-ed25519"@ && bytes@.len() == 64),
        res matches Err(message) ==> message@ == "length invalid"@,
{
    let algorithm = ssh_agent_lib::ssh_key::Algorithm::new(algorithm).map_err(|e| e.to_string())?;
    let signature = ssh_agent_lib::ssh_key::Signature::new(algorithm, bytes);
    signature.map(|_| ()).map_err(|e| e.to_string())
}

} // verus!
