//! The Nostr side of the bridge: which events carry direct messages, how
//! far back the subscription reaches, and how a recipient is read.
use vstd::prelude::*;

use crate::error::{lemma_displaying_has_prefix, AppError};
use vstd::string::to_string_from_display_ensures;

verus! {

/// Whether `PublicKey::parse` accepts the text `s` (a public key in hex, in
/// `npub` bech32 form, or as a `nostr:` URI).
pub uninterp spec fn public_key_text_valid(s: Seq<char>) -> bool;

/// The public key that `PublicKey::parse` gives for the text `s` where it
/// accepts it. It depends on `s` alone: parsing is deterministic.
pub uninterp spec fn public_key_of_text(s: Seq<char>) -> nostr_sdk::PublicKey;

/// Calls `nostr_sdk::PublicKey::parse` on `s`: it succeeds exactly when the
/// text is a valid public key, which `public_key_text_valid` names, and then
/// gives the key that `public_key_of_text` names.
#[verifier::external_body]
fn parse_public_key(s: &str) -> (r: Result<nostr_sdk::PublicKey, nostr_sdk::key::Error>)
    ensures
        r is Ok <==> public_key_text_valid(s@),
        r matches Ok(p) ==> p == public_key_of_text(s@),
{
    nostr_sdk::PublicKey::parse(s)
}

/// The kind number of a NIP-59 gift wrap, which carries NIP-17 direct
/// messages.
pub const GIFT_WRAP_KIND: u16 = 1059;

/// How far back, in seconds, the subscription asks for gift wraps: their
/// `created_at` is set up to two days in the past on purpose, so a
/// subscription from now on would miss them.
pub const GIFT_WRAP_LOOKBACK_SECS: u64 = 172800;

/// Whether an event of kind `kind` is a gift wrap.
pub fn is_gift_wrap(kind: u16) -> (r: bool)
    ensures
        r == (kind == GIFT_WRAP_KIND),
{
    kind == GIFT_WRAP_KIND
}

/// The start of the subscription for a clock reading of `now` seconds:
/// two days earlier, and no earlier than zero (timestamps subtract with
/// saturation).
pub fn gift_wrap_since(now: u64) -> (r: u64)
    ensures
        r == if now >= GIFT_WRAP_LOOKBACK_SECS {
            (now - GIFT_WRAP_LOOKBACK_SECS) as u64
        } else {
            0u64
        },
{
    if now >= GIFT_WRAP_LOOKBACK_SECS {
        now - GIFT_WRAP_LOOKBACK_SECS
    } else {
        0
    }
}

/// What `parse_recipient` gives for the outcome `parsed` of parsing the
/// recipient: the key, or a Nostr error whose text is `invalid npub: `
/// followed by the parse error's text.
pub fn recipient_from_parse(parsed: Result<nostr_sdk::PublicKey, nostr_sdk::key::Error>) -> (r:
    Result<nostr_sdk::PublicKey, AppError>)
    ensures
        match parsed {
            Ok(p) => r == Ok::<nostr_sdk::PublicKey, AppError>(p),
            Err(e) => r matches Err(err) && err.is_nostr_error_displaying("invalid npub: "@, &e),
        },
{
    match parsed {
        Ok(p) => Ok(p),
        Err(e) => {
            let detail = e.to_string();
            let m = String::from_str("invalid npub: ").concat(detail.as_str());
            proof {
                assert(to_string_from_display_ensures::<nostr_sdk::key::Error>(&e, detail));
            }
            Err(AppError::Nostr(m))
        },
    }
}

/// The recipient public key that the text `to_npub` names; a Nostr error
/// whose text starts with `invalid npub: ` where it names none.
pub fn parse_recipient(to_npub: &str) -> (r: Result<nostr_sdk::PublicKey, AppError>)
    ensures
        r is Ok <==> public_key_text_valid(to_npub@),
        r matches Ok(p) ==> p == public_key_of_text(to_npub@),
        r matches Err(e) ==> e.is_nostr_error_with_prefix("invalid npub: "@),
{
    let parsed = parse_public_key(to_npub);
    let ghost outcome = parsed;
    let r = recipient_from_parse(parsed);
    let ghost result = r;
    proof {
        if let Err(e) = outcome {
            if let Err(err) = result {
                lemma_displaying_has_prefix(err, "invalid npub: "@, &e);
            }
        }
    }
    r
}

} // verus!
