//! The Telegram side of the bridge: the updates that the webhook receives,
//! and the Bot API addresses that the client calls.
use vstd::prelude::*;

verus! {

/// `reqwest::Client`, the HTTP client that talks to the Bot API.
#[verifier::external_type_specification]
#[verifier::external_body]
pub struct ExHttpClient(reqwest::Client);

/// Calls `reqwest::Client::new`. Nothing is stated of the client. The
/// function panics where no TLS backend can be set up or the resolver
/// cannot read the system's configuration; that depends on the machine,
/// not on an argument, so no `requires` can leave it out.
#[verifier::external_body]
fn new_http_client() -> (c: reqwest::Client) {
    reqwest::Client::new()
}

/// An update that Telegram posts to the webhook.
#[derive(Debug)]
pub struct TgUpdate {
    pub update_id: i64,
    pub message: Option<TgMessage>,
}

/// A message inside an update.
#[derive(Debug)]
pub struct TgMessage {
    pub message_id: i64,
    /// The sender (the JSON field `from`).
    pub from_user: Option<TgUser>,
    pub chat: TgChat,
    pub text: Option<String>,
}

/// The sender of a message.
#[derive(Debug)]
pub struct TgUser {
    pub id: i64,
}

/// The chat a message was sent in.
#[derive(Debug)]
pub struct TgChat {
    pub id: i64,
}

/// The Bot API's base address.
pub open spec fn api_base() -> Seq<char> {
    "https://api.telegram.org/bot"@
}

/// The address that registers `webhook_url` + `/webhook` as the bot's webhook.
pub open spec fn set_webhook_address(token: Seq<char>, webhook_url: Seq<char>) -> Seq<char> {
    api_base() + token + "/setWebhook?url="@ + webhook_url + "/webhook"@
}

/// The address that sends a message.
pub open spec fn send_message_address(token: Seq<char>) -> Seq<char> {
    api_base() + token + "/sendMessage"@
}

/// A client of the Telegram Bot API for one bot.
pub struct TelegramClient {
    bot_token: String,
    http: reqwest::Client,
}

impl TelegramClient {
    /// The bot token.
    pub closed spec fn token(self) -> Seq<char> {
        self.bot_token@
    }

    /// A client for the bot with token `bot_token`.
    pub fn new(bot_token: String) -> (c: TelegramClient)
        ensures
            c.token() == bot_token@,
    {
        TelegramClient { bot_token, http: new_http_client() }
    }

    /// The HTTP client that the client holds.
    pub closed spec fn http_client(self) -> reqwest::Client {
        self.http
    }

    /// The HTTP client that the requests go through: the one this client
    /// holds.
    pub fn http(&self) -> (r: &reqwest::Client)
        ensures
            *r == self.http_client(),
    {
        &self.http
    }

    /// The address of the `setWebhook` call for `webhook_url`.
    pub fn set_webhook_url(&self, webhook_url: &str) -> (r: String)
        ensures
            r@ == set_webhook_address(self.token(), webhook_url@),
    {
        let r = String::from_str("https://api.telegram.org/bot").concat(self.bot_token.as_str()).concat(
            "/setWebhook?url=",
        ).concat(webhook_url).concat("/webhook");
        proof {
            assert(r@ =~= set_webhook_address(self.token(), webhook_url@));
        }
        r
    }

    /// The address of the `sendMessage` call.
    pub fn send_message_url(&self) -> (r: String)
        ensures
            r@ == send_message_address(self.token()),
    {
        let r = String::from_str("https://api.telegram.org/bot").concat(
            self.bot_token.as_str(),
        ).concat("/sendMessage");
        proof {
            assert(r@ =~= send_message_address(self.token()));
        }
        r
    }
}

/// Whether the reply to `setWebhook` reports success: its `ok` field holds
/// the JSON value `true`.
pub fn webhook_registered(ok_field: Option<bool>) -> (r: bool)
    ensures
        r == (ok_field == Some(true)),
{
    match ok_field {
        Some(b) => b,
        None => false,
    }
}

} // verus!
