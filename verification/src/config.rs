//! The settings of the bridge, read from its environment variables.
use vstd::prelude::*;

use crate::error::AppError;
use crate::text::{
    chars_of, parse_i64, parse_i64_range, parse_u16, parse_u16_range, split, split_ranges,
    substring, trim, trim_range, law_split_join, law_trim_idempotent, law_trim_is_infix,
    i64_text, join, law_i64_text_round_trip, law_join_split, lemma_trim_of_clean,
};

verus! {

/// The settings of the bridge.
#[derive(Debug, Clone)]
pub struct Config {
    /// The Telegram bot token.
    pub bot_token: String,
    /// The public base URL under which Telegram reaches `/webhook`.
    pub webhook_url: String,
    /// The Telegram user ids whose messages are forwarded.
    pub allowed_users: Vec<i64>,
    /// The port that the webhook server listens on.
    pub port: u16,
    /// The Nostr public key that Telegram messages are sent to.
    pub msg_to: String,
    /// The relays to connect to.
    pub nostr_relays: Vec<String>,
    /// The log verbosity.
    pub log_level: String,
}

/// The values of the environment variables that the settings come from;
/// `None` for a variable that is not set.
#[derive(Debug, Clone)]
pub struct EnvVars {
    pub bot_token: Option<String>,
    pub webhook_url: Option<String>,
    pub allowed_users: Option<String>,
    pub port: Option<String>,
    pub msg_to: Option<String>,
    pub nostr_relays: Option<String>,
    pub log_level: Option<String>,
}

/// The pieces of `raw` between commas, each trimmed.
pub open spec fn trimmed_pieces(raw: Seq<char>) -> Seq<Seq<char>> {
    split(raw, ',').map_values(|p: Seq<char>| trim(p))
}

/// The values of those of `pieces` that read as an `i64`, in order.
pub open spec fn parsed_ids(pieces: Seq<Seq<char>>) -> Seq<i64>
    decreases pieces.len(),
{
    if pieces.len() == 0 {
        Seq::empty()
    } else {
        let prev = parsed_ids(pieces.drop_last());
        match parse_i64(pieces.last()) {
            Some(v) => prev.push(v),
            None => prev,
        }
    }
}

/// The user ids that a comma separated list names; pieces that are no
/// number are left out.
pub open spec fn allowed_users_of(raw: Seq<char>) -> Seq<i64> {
    parsed_ids(trimmed_pieces(raw))
}

/// The relay URLs that a comma separated list names.
pub open spec fn relays_of(raw: Seq<char>) -> Seq<Seq<char>> {
    trimmed_pieces(raw)
}

/// The texts of a list of strings.
pub open spec fn texts(v: Seq<String>) -> Seq<Seq<char>> {
    v.map_values(|s: String| s@)
}

/// Reads a comma separated list of user ids.
pub fn parse_allowed_users(raw: &str) -> (ids: Vec<i64>)
    ensures
        ids@ == allowed_users_of(raw@),
{
    let chars = chars_of(raw);
    let ranges = split_ranges(&chars, ',');
    let ghost pieces = trimmed_pieces(chars@);
    let mut ids: Vec<i64> = Vec::new();
    let mut k: usize = 0;
    proof {
        assert(pieces.take(0) =~= Seq::<Seq<char>>::empty());
    }
    while k < ranges.len()
        invariant
            k <= ranges.len(),
            pieces == trimmed_pieces(chars@),
            ranges@.len() == split(chars@, ',').len(),
            forall|j: int|
                0 <= j < ranges@.len() ==> {
                    &&& #[trigger] ranges@[j].0 <= ranges@[j].1 <= chars.len()
                    &&& chars@.subrange(ranges@[j].0 as int, ranges@[j].1 as int) == split(
                        chars@,
                        ',',
                    )[j]
                },
            ids@ == parsed_ids(pieces.take(k as int)),
        decreases ranges.len() - k,
    {
        let (lo, hi) = ranges[k];
        let (a, b) = trim_range(&chars, lo, hi);
        proof {
            assert(ranges@[k as int].0 <= ranges@[k as int].1);
            assert(pieces.take(k + 1).drop_last() =~= pieces.take(k as int));
            assert(pieces.take(k + 1).last() == chars@.subrange(a as int, b as int));
        }
        match parse_i64_range(&chars, a, b) {
            Some(v) => {
                ids.push(v);
            },
            None => {},
        }
        k = k + 1;
    }
    proof {
        assert(pieces.take(ranges@.len() as int) =~= pieces);
    }
    ids
}

/// Reads a comma separated list of relay URLs.
pub fn parse_relays(raw: &str) -> (relays: Vec<String>)
    ensures
        texts(relays@) == relays_of(raw@),
{
    let chars = chars_of(raw);
    let ranges = split_ranges(&chars, ',');
    let ghost pieces = trimmed_pieces(chars@);
    let mut relays: Vec<String> = Vec::new();
    let mut k: usize = 0;
    while k < ranges.len()
        invariant
            k <= ranges.len(),
            chars@ == raw@,
            pieces == trimmed_pieces(chars@),
            ranges@.len() == split(chars@, ',').len(),
            forall|j: int|
                0 <= j < ranges@.len() ==> {
                    &&& #[trigger] ranges@[j].0 <= ranges@[j].1 <= chars.len()
                    &&& chars@.subrange(ranges@[j].0 as int, ranges@[j].1 as int) == split(
                        chars@,
                        ',',
                    )[j]
                },
            texts(relays@) =~= pieces.take(k as int),
        decreases ranges.len() - k,
    {
        let (lo, hi) = ranges[k];
        let (a, b) = trim_range(&chars, lo, hi);
        proof {
            assert(ranges@[k as int].0 <= ranges@[k as int].1);
        }
        let relay = substring(raw, a, b);
        let ghost before = relays@;
        let ghost text = relay@;
        relays.push(relay);
        proof {
            assert(pieces.take(k + 1) =~= pieces.take(k as int).push(
                chars@.subrange(a as int, b as int),
            ));
            assert(texts(relays@) =~= texts(before).push(text));
        }
        k = k + 1;
    }
    proof {
        assert(pieces.take(ranges@.len() as int) =~= pieces);
    }
    relays
}

/// Reads a port number, as `str::parse::<u16>` does.
pub fn parse_port(raw: &str) -> (port: Option<u16>)
    ensures
        port == parse_u16(raw@),
{
    let chars = chars_of(raw);
    proof {
        assert(chars@.subrange(0, chars@.len() as int) =~= chars@);
    }
    parse_u16_range(&chars, 0, chars.len())
}



/// Every relay URL read from a list is free of surrounding white space and
/// of commas, and there is one for each run of text between commas.
pub proof fn law_relays_clean(raw: Seq<char>)
    ensures
        relays_of(raw).len() == split(raw, ',').len(),
        forall|k: int|
            0 <= k < relays_of(raw).len() ==> trim(#[trigger] relays_of(raw)[k]) == relays_of(raw)[k]
                && !relays_of(raw)[k].contains(','),
{
    law_split_join(raw, ',');
    assert forall|k: int| 0 <= k < relays_of(raw).len() implies trim(#[trigger] relays_of(raw)[k])
        == relays_of(raw)[k] && !relays_of(raw)[k].contains(',') by {
        let piece = split(raw, ',')[k];
        law_trim_idempotent(piece);
        law_trim_is_infix(piece);
        let (i, j) = choose|i: int, j: int| 0 <= i <= j <= piece.len() && trim(piece) == piece.subrange(i, j);
        if trim(piece).contains(',') {
            let x = choose|x: int| 0 <= x < trim(piece).len() && trim(piece)[x] == ',';
            assert(piece[i + x] == ',');
        }
    }
}


/// The base ten texts of `ids`.
pub open spec fn id_texts(ids: Seq<i64>) -> Seq<Seq<char>> {
    ids.map_values(|v: i64| i64_text(v))
}

/// The list that names `ids`: each written in base ten, separated by commas.
pub open spec fn ids_list_text(ids: Seq<i64>) -> Seq<char> {
    join(id_texts(ids), ',')
}

/// Reading the texts of `ids` one by one gives `ids`.
proof fn lemma_parsed_ids_of_texts(ids: Seq<i64>)
    ensures
        parsed_ids(id_texts(ids)) == ids,
    decreases ids.len(),
{
    let p = id_texts(ids);
    if ids.len() > 0 {
        assert(p.drop_last() =~= id_texts(ids.drop_last()));
        lemma_parsed_ids_of_texts(ids.drop_last());
        law_i64_text_round_trip(ids.last());
        assert(p.last() == i64_text(ids.last()));
        assert(ids.drop_last().push(ids.last()) =~= ids);
    } else {
        assert(p =~= Seq::<Seq<char>>::empty());
        assert(ids =~= Seq::<i64>::empty());
    }
}

/// Any list of user ids, written in base ten and separated by commas, is
/// read back as that list.
pub proof fn law_allowed_users_round_trip(ids: Seq<i64>)
    ensures
        allowed_users_of(ids_list_text(ids)) == ids,
{
    let p = id_texts(ids);
    if ids.len() == 0 {
        assert(p =~= Seq::<Seq<char>>::empty());
        let raw = ids_list_text(ids);
        assert(raw =~= Seq::<char>::empty());
        let e = Seq::<char>::empty();
        assert(split(e, ',') == seq![e]);
        assert(trim(e) =~= e);
        let tp = trimmed_pieces(e);
        assert(tp =~= seq![e]);
        assert(tp.drop_last() =~= Seq::<Seq<char>>::empty());
        assert(parse_i64(e) is None);
        assert(tp.last() == e);
        assert(parsed_ids(tp.drop_last()) =~= Seq::<i64>::empty());
        assert(parsed_ids(tp) =~= Seq::<i64>::empty());
        assert(ids =~= Seq::<i64>::empty());
        assert(allowed_users_of(raw) == parsed_ids(tp));
    } else {
        assert forall|k: int| 0 <= k < p.len() implies !(#[trigger] p[k]).contains(',') by {
            law_i64_text_round_trip(ids[k]);
        }
        law_join_split(p, ',');
        assert(trimmed_pieces(ids_list_text(ids)) =~= p) by {
            assert forall|k: int| 0 <= k < p.len() implies trim(#[trigger] p[k]) == p[k] by {
                law_i64_text_round_trip(ids[k]);
                lemma_trim_of_clean(p[k]);
            }
        }
        lemma_parsed_ids_of_texts(ids);
        assert(allowed_users_of(ids_list_text(ids)) == parsed_ids(p));
    }
}

/// The text of an optional variable, or `default` where it is not set.
pub open spec fn text_or(v: Option<String>, default: Seq<char>) -> Seq<char> {
    match v {
        Some(s) => s@,
        None => default,
    }
}

/// `r` is the settings error with detail `m`.
pub open spec fn fails_with(r: Result<Config, AppError>, m: Seq<char>) -> bool {
    r matches Err(e) && e.is_config_error(m)
}

/// The text that the port is read from.
pub open spec fn port_text(env: EnvVars) -> Seq<char> {
    text_or(env.port, "8000"@)
}

/// The text that the relay list is read from.
pub open spec fn relays_text(env: EnvVars) -> Seq<char> {
    text_or(env.nostr_relays, "wss://relay.damus.io"@)
}

/// An owned copy of `v`'s text, or of `default` where `v` is `None`.
fn text_or_default(v: &Option<String>, default: &str) -> (r: String)
    ensures
        r@ == text_or(*v, default@),
{
    match v {
        Some(s) => s.clone(),
        None => String::from_str(default),
    }
}

impl Config {
    /// The settings that the variables `env` give. Checked in this order,
    /// the first failure is the error: `BOT_TOKEN` set, `WEBHOOK_URL` set,
    /// the port (default `8000`) a number, `MSG_TO` set. The allowed users
    /// default to none, the relays to `wss://relay.damus.io` and the log
    /// level to `info`.
    pub fn from_env(env: &EnvVars) -> (r: Result<Config, AppError>)
        ensures
            env.bot_token is None ==> fails_with(r, "BOT_TOKEN not set"@),
            env.bot_token is Some && env.webhook_url is None ==> fails_with(
                r,
                "WEBHOOK_URL not set"@,
            ),
            env.bot_token is Some && env.webhook_url is Some && parse_u16(port_text(*env)) is None
                ==> fails_with(r, "PORT must be a number"@),
            env.bot_token is Some && env.webhook_url is Some && parse_u16(port_text(*env)) is Some
                && env.msg_to is None ==> fails_with(r, "MSG_TO not set"@),
            r is Ok <==> (env.bot_token is Some && env.webhook_url is Some && parse_u16(
                port_text(*env),
            ) is Some && env.msg_to is Some),
            r matches Ok(c) ==> {
                &&& c.bot_token@ == env.bot_token.unwrap()@
                &&& c.webhook_url@ == env.webhook_url.unwrap()@
                &&& c.allowed_users@ == allowed_users_of(text_or(env.allowed_users, ""@))
                &&& c.port == parse_u16(port_text(*env)).unwrap()
                &&& c.msg_to@ == env.msg_to.unwrap()@
                &&& texts(c.nostr_relays@) == relays_of(relays_text(*env))
                &&& c.log_level@ == text_or(env.log_level, "info"@)
            },
    {
        let bot_token = match &env.bot_token {
            Some(s) => s.clone(),
            None => {
                return Err(AppError::Config(String::from_str("BOT_TOKEN not set")));
            },
        };
        let webhook_url = match &env.webhook_url {
            Some(s) => s.clone(),
            None => {
                return Err(AppError::Config(String::from_str("WEBHOOK_URL not set")));
            },
        };
        let users_raw = text_or_default(&env.allowed_users, "");
        let allowed_users = parse_allowed_users(users_raw.as_str());
        let port_raw = text_or_default(&env.port, "8000");
        let port = match parse_port(port_raw.as_str()) {
            Some(p) => p,
            None => {
                return Err(AppError::Config(String::from_str("PORT must be a number")));
            },
        };
        let msg_to = match &env.msg_to {
            Some(s) => s.clone(),
            None => {
                return Err(AppError::Config(String::from_str("MSG_TO not set")));
            },
        };
        let relays_raw = text_or_default(&env.nostr_relays, "wss://relay.damus.io");
        let nostr_relays = parse_relays(relays_raw.as_str());
        let log_level = text_or_default(&env.log_level, "info");
        Ok(Config { bot_token, webhook_url, allowed_users, port, msg_to, nostr_relays, log_level })
    }
}

/// The log filter: `RUST_LOG` (`rust_log`) where it is set, else the
/// configured log level.
pub fn log_filter(rust_log: &Option<String>, config: &Config) -> (r: String)
    ensures
        r@ == text_or(*rust_log, config.log_level@),
{
    match rust_log {
        Some(s) => s.clone(),
        None => config.log_level.clone(),
    }
}

} // verus!
