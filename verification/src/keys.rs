//! The Nostr key pair of the bridge, kept in the bech32 text form of
//! `key.json`: `{"npub": "npub1...", "nsec": "nsec1..."}`.
use vstd::prelude::*;

use nostr_sdk::ToBech32;

use crate::error::{lemma_displaying_has_prefix, AppError};
use vstd::string::to_string_from_display_ensures;

verus! {

/// `nostr_sdk::Keys`, a secret key with its public key.
#[verifier::external_type_specification]
#[verifier::external_body]
pub struct ExKeys(nostr_sdk::Keys);

/// `nostr_sdk::PublicKey`.
#[verifier::external_type_specification]
#[verifier::external_body]
pub struct ExPublicKey(nostr_sdk::PublicKey);

/// `nostr_sdk::SecretKey`.
#[verifier::external_type_specification]
#[verifier::external_body]
pub struct ExSecretKey(nostr_sdk::SecretKey);

/// `nostr_sdk::key::Error`, what parsing a key can fail with.
#[verifier::external_type_specification]
#[verifier::external_body]
pub struct ExKeyError(nostr_sdk::key::Error);

/// Whether `Keys::parse` accepts the text `s` (a secret key in hex or in
/// `nsec` bech32 form).
pub uninterp spec fn secret_key_text_valid(s: Seq<char>) -> bool;

/// Calls `nostr_sdk::Keys::generate`, which draws a fresh secret key from
/// the operating system's randomness and derives its public key. Nothing is
/// stated of the keys: they are random.
#[verifier::external_body]
fn generate_keys() -> (k: nostr_sdk::Keys) {
    nostr_sdk::Keys::generate()
}

/// The keys that `Keys::parse` gives for the text `s` where it accepts it.
/// They depend on `s` alone: parsing is deterministic.
pub uninterp spec fn keys_of_secret_text(s: Seq<char>) -> nostr_sdk::Keys;

/// The `npub` bech32 text of the public key that belongs to the secret key
/// written `s` (the public key of `Keys::parse(s)`). It depends on `s`
/// alone: the public key is derived from the secret key.
pub uninterp spec fn npub_of_secret_text(s: Seq<char>) -> Seq<char>;

/// Writes both halves of `keys` in bech32 form: `keys.public_key()` and
/// `keys.secret_key()`, each through `ToBech32::to_bech32`, whose error type
/// is `Infallible`. The texts start with the human readable parts `npub` and
/// `nsec` and the separator `1`. The secret key text decodes back to the same
/// secret key, so `Keys::parse` accepts it, and the public key text is the
/// one that belongs to it. Which characters follow the prefixes is not
/// stated. Parsing the secret key text gives back these very keys: both
/// are built by `Keys::new_with_ctx` from the same secret key.
#[verifier::external_body]
fn key_texts(keys: &nostr_sdk::Keys) -> (r: (String, String))
    ensures
        r.0@.len() >= 5,
        r.0@.subrange(0, 5) == "npub1"@,
        r.1@.len() >= 5,
        r.1@.subrange(0, 5) == "nsec1"@,
        secret_key_text_valid(r.1@),
        r.0@ == npub_of_secret_text(r.1@),
        *keys == keys_of_secret_text(r.1@),
{
    let npub = match keys.public_key().to_bech32() {
        Ok(s) => s,
        Err(e) => match e {},
    };
    let nsec = match keys.secret_key().to_bech32() {
        Ok(s) => s,
        Err(e) => match e {},
    };
    (npub, nsec)
}

/// Calls `nostr_sdk::Keys::parse` on `s`: it succeeds exactly when the
/// text is a valid secret key, which `secret_key_text_valid` names, and then
/// gives the keys that `keys_of_secret_text` names.
#[verifier::external_body]
fn parse_secret_key(s: &str) -> (r: Result<nostr_sdk::Keys, nostr_sdk::key::Error>)
    ensures
        r is Ok <==> secret_key_text_valid(s@),
        r matches Ok(k) ==> k == keys_of_secret_text(s@),
{
    nostr_sdk::Keys::parse(s)
}

/// A Nostr key pair in bech32 text form.
#[derive(Debug, Clone)]
pub struct KeyPair {
    /// The public key, `npub1...`.
    pub npub: String,
    /// The secret key, `nsec1...`.
    pub nsec: String,
}

/// `t` starts with `prefix`.
pub open spec fn starts_with(t: Seq<char>, prefix: Seq<char>) -> bool {
    t.len() >= prefix.len() && t.subrange(0, prefix.len() as int) == prefix
}

impl KeyPair {
    /// Both halves of the pair have the bech32 prefix of their kind.
    pub open spec fn well_prefixed(self) -> bool {
        starts_with(self.npub@, "npub1"@) && starts_with(self.nsec@, "nsec1"@)
    }

    /// The secret key is one that `Keys::parse` accepts, and the public key
    /// is the one that belongs to it.
    pub open spec fn usable(self) -> bool {
        secret_key_text_valid(self.nsec@) && self.npub@ == npub_of_secret_text(self.nsec@)
    }

    /// The two pairs hold the same texts.
    pub open spec fn same_as(self, other: KeyPair) -> bool {
        self.npub@ == other.npub@ && self.nsec@ == other.nsec@
    }

    /// A copy of the pair.
    pub fn duplicate(&self) -> (r: KeyPair)
        ensures
            r.same_as(*self),
    {
        KeyPair { npub: self.npub.clone(), nsec: self.nsec.clone() }
    }
}

/// A fresh random key pair: a valid secret key and the public key that
/// belongs to it, both in bech32 form.
pub fn generate_key_pair() -> (pair: KeyPair)
    ensures
        pair.well_prefixed(),
        pair.usable(),
{
    let keys = generate_keys();
    let (npub, nsec) = key_texts(&keys);
    KeyPair { npub, nsec }
}

/// What `KeyStore::nostr_keys` gives for the outcome `parsed` of parsing
/// the secret key: the keys, or a Nostr error whose text is
/// `parse nsec failed: ` followed by the parse error's text.
pub fn keys_from_parse(parsed: Result<nostr_sdk::Keys, nostr_sdk::key::Error>) -> (r: Result<
    nostr_sdk::Keys,
    AppError,
>)
    ensures
        match parsed {
            Ok(k) => r == Ok::<nostr_sdk::Keys, AppError>(k),
            Err(e) => r matches Err(err) && err.is_nostr_error_displaying("parse nsec failed: "@, &e),
        },
{
    match parsed {
        Ok(k) => Ok(k),
        Err(e) => {
            let detail = e.to_string();
            let m = String::from_str("parse nsec failed: ").concat(detail.as_str());
            proof {
                assert(to_string_from_display_ensures::<nostr_sdk::key::Error>(&e, detail));
            }
            Err(AppError::Nostr(m))
        },
    }
}

/// The key pair of the bridge, with the path of the file that holds it.
pub struct KeyStore {
    path: String,
    keys: KeyPair,
}

impl KeyStore {
    /// The path of the key file.
    pub closed spec fn path_view(self) -> Seq<char> {
        self.path@
    }

    /// The pair kept.
    pub closed spec fn pair(self) -> KeyPair {
        self.keys
    }

    /// The store for the key file at `path`. `stored` is the pair read from
    /// that file where it exists; the store keeps it as it is. Where there
    /// is none, a fresh pair is generated, which the caller then writes to
    /// `path`.
    pub fn load_or_generate(path: &str, stored: Option<KeyPair>) -> (r: KeyStore)
        ensures
            r.path_view() == path@,
            match stored {
                Some(p) => r.pair().same_as(p),
                None => r.pair().well_prefixed() && r.pair().usable(),
            },
    {
        let keys = match stored {
            Some(p) => p,
            None => generate_key_pair(),
        };
        KeyStore { path: String::from_str(path), keys }
    }

    /// The key pair kept.
    pub fn key_pair(&self) -> (r: KeyPair)
        ensures
            r.same_as(self.pair()),
    {
        self.keys.duplicate()
    }

    /// The path of the key file.
    pub fn path(&self) -> (r: &str)
        ensures
            r@ == self.path_view(),
    {
        self.path.as_str()
    }

    /// The keys that the secret key of the pair stands for; a Nostr error
    /// whose text starts with `parse nsec failed: ` where it is no valid
    /// secret key.
    pub fn nostr_keys(&self) -> (r: Result<nostr_sdk::Keys, AppError>)
        ensures
            r is Ok <==> secret_key_text_valid(self.pair().nsec@),
            r matches Ok(k) ==> k == keys_of_secret_text(self.pair().nsec@),
            r matches Err(e) ==> e.is_nostr_error_with_prefix("parse nsec failed: "@),
    {
        let parsed = parse_secret_key(self.keys.nsec.as_str());
        let ghost outcome = parsed;
        let r = keys_from_parse(parsed);
        let ghost result = r;
        proof {
            if let Err(e) = outcome {
                if let Err(err) = result {
                    lemma_displaying_has_prefix(err, "parse nsec failed: "@, &e);
                }
            }
        }
        r
    }
}

} // verus!
