//! The errors of the bridge, and the text that each one reads as.
use vstd::prelude::*;
use vstd::string::to_string_from_display_ensures;

verus! {

/// `std::io::Error`, carried by the key file error.
#[verifier::external_type_specification]
#[verifier::external_body]
pub struct ExIoError(std::io::Error);

/// `serde_json::Error`, carried by the JSON error.
#[verifier::external_type_specification]
#[verifier::external_body]
pub struct ExJsonError(serde_json::Error);

/// What can go wrong in the bridge.
#[derive(Debug)]
pub enum AppError {
    /// The key file could not be read or written.
    Keys(std::io::Error),
    /// The key file did not hold the expected JSON.
    Json(serde_json::Error),
    /// A Nostr operation failed.
    Nostr(String),
    /// A Telegram operation failed.
    Telegram(String),
    /// A setting is missing or malformed.
    Config(String),
}

/// `r` is `prefix` followed by the text that `Display` writes for `t`.
pub open spec fn displayed_after<T: core::fmt::Display + ?Sized>(
    r: Seq<char>,
    prefix: Seq<char>,
    t: &T,
) -> bool {
    exists|s: String| to_string_from_display_ensures::<T>(t, s) && r == prefix + s@
}

impl AppError {
    /// The text of the error: a prefix that names its kind, a colon, a
    /// space and the detail.
    pub fn to_string(&self) -> (r: String)
        ensures
            match self {
                AppError::Keys(e) => displayed_after(r@, "key file error: "@, e),
                AppError::Json(e) => displayed_after(r@, "json error: "@, e),
                AppError::Nostr(m) => r@ == "nostr error: "@ + m@,
                AppError::Telegram(m) => r@ == "telegram error: "@ + m@,
                AppError::Config(m) => r@ == "config error: "@ + m@,
            },
    {
        match self {
            AppError::Keys(e) => {
                let detail = e.to_string();
                let r = String::from_str("key file error: ").concat(detail.as_str());
                proof {
                    assert(to_string_from_display_ensures::<std::io::Error>(e, detail));
                }
                r
            },
            AppError::Json(e) => {
                let detail = e.to_string();
                let r = String::from_str("json error: ").concat(detail.as_str());
                proof {
                    assert(to_string_from_display_ensures::<serde_json::Error>(e, detail));
                }
                r
            },
            AppError::Nostr(m) => String::from_str("nostr error: ").concat(m.as_str()),
            AppError::Telegram(m) => String::from_str("telegram error: ").concat(m.as_str()),
            AppError::Config(m) => String::from_str("config error: ").concat(m.as_str()),
        }
    }

    /// A settings error whose detail is `m`.
    pub open spec fn is_config_error(self, m: Seq<char>) -> bool {
        self matches AppError::Config(t) && t@ == m
    }

    /// A Nostr error whose text is `prefix` followed by the text that
    /// `Display` writes for `t`.
    pub open spec fn is_nostr_error_displaying<T: core::fmt::Display + ?Sized>(
        self,
        prefix: Seq<char>,
        t: &T,
    ) -> bool {
        self matches AppError::Nostr(m) && displayed_after(m@, prefix, t)
    }

    /// A Nostr error whose text starts with `prefix`.
    pub open spec fn is_nostr_error_with_prefix(self, prefix: Seq<char>) -> bool {
        self matches AppError::Nostr(t) && t@.len() >= prefix.len() && t@.subrange(
            0,
            prefix.len() as int,
        ) == prefix
    }
}

/// A Nostr error that reads as `prefix` and a displayed text starts with
/// `prefix`.
pub proof fn lemma_displaying_has_prefix<T: core::fmt::Display + ?Sized>(
    e: AppError,
    prefix: Seq<char>,
    t: &T,
)
    requires
        e.is_nostr_error_displaying(prefix, t),
    ensures
        e.is_nostr_error_with_prefix(prefix),
{
    if let AppError::Nostr(m) = e {
        let s = choose|s: String| to_string_from_display_ensures::<T>(t, s) && m@ == prefix + s@;
        assert(m@.subrange(0, prefix.len() as int) =~= prefix);
    }
}

impl From<std::io::Error> for AppError {
    fn from(e: std::io::Error) -> (r: AppError) {
        AppError::Keys(e)
    }
}

impl vstd::std_specs::convert::FromSpecImpl<std::io::Error> for AppError {
    open spec fn obeys_from_spec() -> bool {
        true
    }

    open spec fn from_spec(v: std::io::Error) -> AppError {
        AppError::Keys(v)
    }
}

impl From<serde_json::Error> for AppError {
    fn from(e: serde_json::Error) -> (r: AppError) {
        AppError::Json(e)
    }
}

impl vstd::std_specs::convert::FromSpecImpl<serde_json::Error> for AppError {
    open spec fn obeys_from_spec() -> bool {
        true
    }

    open spec fn from_spec(v: serde_json::Error) -> AppError {
        AppError::Json(v)
    }
}

} // verus!
