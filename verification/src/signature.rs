//! Signatures, and the rule that a threshold of a role's keys must have
//! signed.

use crate::text::bytes_equal;
use vstd::prelude::*;

verus! {

/// The ways of signing that the client can check.
#[derive(Debug, Clone, Copy, PartialEq, Eq, Hash, Structural)]
pub enum SignatureScheme {
    /// Ed25519. The public key is its 32 bytes; a signature is 64 bytes.
    Ed25519,
    /// RSASSA-PSS with SHA-256, for keys of 2048 to 8192 bits. The public
    /// key is a DER-encoded `RSAPublicKey`.
    RsaPssSha256,
    /// ECDSA on the curve P-256 with SHA-256. The public key is an
    /// uncompressed point; a signature is DER-encoded.
    EcdsaP256Sha256,
}

/// A public key.
#[derive(Debug, Clone, PartialEq, Eq)]
pub struct Key {
    /// How the key signs.
    pub scheme: SignatureScheme,
    /// The key's bytes, in the form that the scheme asks for.
    pub public: Vec<u8>,
}

/// A public key, as a mathematical value.
pub struct KeyView {
    pub scheme: SignatureScheme,
    pub public: Seq<u8>,
}

impl View for Key {
    type V = KeyView;

    open spec fn view(&self) -> KeyView {
        KeyView { scheme: self.scheme, public: self.public@ }
    }
}

/// A public key under the id by which metadata refers to it.
#[derive(Debug, Clone, PartialEq, Eq)]
pub struct KeyEntry {
    /// The key's id.
    pub keyid: Vec<u8>,
    /// The key.
    pub key: Key,
}

/// A signature, and the id of the key that is said to have made it.
#[derive(Debug, Clone, PartialEq, Eq)]
pub struct Signature {
    /// The id of the signing key.
    pub keyid: Vec<u8>,
    /// The signature's bytes.
    pub sig: Vec<u8>,
}

/// Whether `ring` accepts `signature` as a signature of `message` by the
/// public key `public_key` under `scheme`.
pub uninterp spec fn signature_valid(
    scheme: SignatureScheme,
    public_key: Seq<u8>,
    message: Seq<u8>,
    signature: Seq<u8>,
) -> bool;

/// Calls `ring::signature::UnparsedPublicKey::verify` with the algorithm of
/// `ring` that stands for `scheme`. Whether it accepts is a function of the
/// scheme and the three byte strings alone, which `signature_valid` names.
#[verifier::external_body]
fn signature_check(
    scheme: SignatureScheme,
    public_key: &[u8],
    message: &[u8],
    signature: &[u8],
) -> (ok: bool)
    ensures
        ok == signature_valid(scheme, public_key@, message@, signature@),
{
    let algorithm: &'static dyn ring::signature::VerificationAlgorithm = match scheme {
        SignatureScheme::Ed25519 => &ring::signature::ED25519,
        SignatureScheme::RsaPssSha256 => &ring::signature::RSA_PSS_2048_8192_SHA256,
        SignatureScheme::EcdsaP256Sha256 => &ring::signature::ECDSA_P256_SHA256_ASN1,
    };
    let key = ring::signature::UnparsedPublicKey::new(algorithm, public_key);
    key.verify(message, signature).is_ok()
}

/// The key that a list of keys holds under an id: the first of that id.
pub open spec fn find_key(keys: Seq<KeyEntry>, keyid: Seq<u8>) -> Option<Key>
    decreases keys.len(),
{
    if keys.len() == 0 {
        None
    } else if keys[0].keyid@ == keyid {
        Some(keys[0].key)
    } else {
        find_key(keys.drop_first(), keyid)
    }
}

/// Whether `signature` names the key id `keyid` and is a signature of
/// `message` by `key`.
pub open spec fn signature_counts(
    key: Key,
    keyid: Seq<u8>,
    signature: Signature,
    message: Seq<u8>,
) -> bool {
    signature.keyid@ == keyid && signature_valid(
        key.scheme,
        key.public@,
        message,
        signature.sig@,
    )
}

/// Whether the key that `keys` holds under `keyid` has signed `message`:
/// there is such a key, and one of the signatures is its own.
pub open spec fn key_signed(
    keys: Seq<KeyEntry>,
    keyid: Seq<u8>,
    signatures: Seq<Signature>,
    message: Seq<u8>,
) -> bool {
    find_key(keys, keyid) matches Some(key) && exists|j: int|
        0 <= j < signatures.len() && signature_counts(key, keyid, #[trigger] signatures[j], message)
}

/// Whether the key id at place `i` of a role's list stands there for the
/// first time and its key has signed `message`.
pub open spec fn signer_counts(
    keys: Seq<KeyEntry>,
    keyids: Seq<Vec<u8>>,
    i: int,
    signatures: Seq<Signature>,
    message: Seq<u8>,
) -> bool {
    &&& forall|k: int| 0 <= k < i ==> (#[trigger] keyids[k])@ != keyids[i]@
    &&& key_signed(keys, keyids[i]@, signatures, message)
}

/// How many different keys among the first `n` of a role's list have
/// signed `message`.
pub open spec fn valid_signers(
    keys: Seq<KeyEntry>,
    keyids: Seq<Vec<u8>>,
    n: int,
    signatures: Seq<Signature>,
    message: Seq<u8>,
) -> nat
    decreases n,
{
    if n <= 0 {
        0
    } else {
        valid_signers(keys, keyids, n - 1, signatures, message) + if signer_counts(
            keys,
            keyids,
            n - 1,
            signatures,
            message,
        ) {
            1nat
        } else {
            0nat
        }
    }
}

/// Whether `message` is signed as a role asks: the threshold is at least
/// one, and at least that many different keys of the role have signed.
pub open spec fn threshold_met(
    keys: Seq<KeyEntry>,
    keyids: Seq<Vec<u8>>,
    threshold: u64,
    signatures: Seq<Signature>,
    message: Seq<u8>,
) -> bool {
    threshold >= 1 && valid_signers(keys, keyids, keyids.len() as int, signatures, message)
        >= threshold
}

/// Finds the key that a list holds under an id.
pub fn lookup_key<'a>(keys: &'a Vec<KeyEntry>, keyid: &Vec<u8>) -> (r: Option<&'a Key>)
    ensures
        match r {
            Some(key) => find_key(keys@, keyid@) == Some(*key),
            None => find_key(keys@, keyid@) is None,
        },
{
    let mut i: usize = 0;
    assert(keys@.skip(0) =~= keys@);
    while i < keys.len()
        invariant
            i <= keys.len(),
            find_key(keys@, keyid@) == find_key(keys@.skip(i as int), keyid@),
        decreases keys.len() - i,
    {
        assert(keys@.skip(i as int).drop_first() =~= keys@.skip(i + 1));
        if bytes_equal(&keys[i].keyid, keyid) {
            return Some(&keys[i].key);
        }
        i = i + 1;
    }
    None
}

/// Whether one of the signatures names `keyid` and is a signature of
/// `message` by `key`.
fn any_signature_counts(
    key: &Key,
    keyid: &Vec<u8>,
    signatures: &Vec<Signature>,
    message: &[u8],
) -> (r: bool)
    ensures
        r == exists|j: int|
            0 <= j < signatures@.len() && signature_counts(
                *key,
                keyid@,
                #[trigger] signatures@[j],
                message@,
            ),
{
    let mut j: usize = 0;
    while j < signatures.len()
        invariant
            j <= signatures.len(),
            forall|k: int|
                0 <= k < j ==> !signature_counts(*key, keyid@, #[trigger] signatures@[k], message@),
        decreases signatures.len() - j,
    {
        if bytes_equal(&signatures[j].keyid, keyid) && signature_check(
            key.scheme,
            key.public.as_slice(),
            message,
            signatures[j].sig.as_slice(),
        ) {
            return true;
        }
        j = j + 1;
    }
    false
}

/// Whether the key id at place `i` occurs at an earlier place of the list.
fn occurs_before(keyids: &Vec<Vec<u8>>, i: usize) -> (r: bool)
    requires
        i < keyids.len(),
    ensures
        r == !(forall|k: int| 0 <= k < i ==> (#[trigger] keyids@[k])@ != keyids@[i as int]@),
{
    let mut k: usize = 0;
    while k < i
        invariant
            k <= i,
            i < keyids.len(),
            forall|m: int| 0 <= m < k ==> (#[trigger] keyids@[m])@ != keyids@[i as int]@,
        decreases i - k,
    {
        if bytes_equal(&keyids[k], &keyids[i]) {
            return true;
        }
        k = k + 1;
    }
    false
}

/// Checks the signatures on a message against the keys of a role: a
/// threshold of at least one, met by different keys of the role's list,
/// each of which is among `keys` and has made one of the signatures.
pub fn verify_threshold(
    keys: &Vec<KeyEntry>,
    keyids: &Vec<Vec<u8>>,
    threshold: u64,
    signatures: &Vec<Signature>,
    message: &[u8],
) -> (ok: bool)
    ensures
        ok == threshold_met(keys@, keyids@, threshold, signatures@, message@),
{
    let mut valid: usize = 0;
    let mut i: usize = 0;
    while i < keyids.len()
        invariant
            i <= keyids.len(),
            valid <= i,
            valid == valid_signers(keys@, keyids@, i as int, signatures@, message@),
        decreases keyids.len() - i,
    {
        if !occurs_before(keyids, i) {
            match lookup_key(keys, &keyids[i]) {
                Some(key) => {
                    if any_signature_counts(key, &keyids[i], signatures, message) {
                        valid = valid + 1;
                    }
                },
                None => {},
            }
        }
        i = i + 1;
    }
    threshold >= 1 && valid as u64 >= threshold
}

} // verus!
