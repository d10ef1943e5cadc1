//! The shared state of the bridge and the decisions taken on each message:
//! which Telegram updates are forwarded to Nostr, and where Nostr direct
//! messages are delivered on Telegram.
use vstd::prelude::*;

use crate::config::Config;
use crate::keys::KeyStore;
use crate::nostr::{is_gift_wrap, GIFT_WRAP_KIND};
use crate::telegram::TgUpdate;

verus! {

/// A direct message to send on Nostr.
#[derive(Debug)]
pub struct OutgoingDm {
    /// The recipient's public key (`npub1...`).
    pub to: String,
    /// The text of the message.
    pub content: String,
}

/// A message to send on Telegram.
#[derive(Debug)]
pub struct TgDelivery {
    pub chat_id: i64,
    pub text: String,
}

/// What the webhook does with one update.
#[derive(Debug)]
pub struct WebhookOutcome {
    /// The `ok` field of the reply to Telegram.
    pub ok: bool,
    /// The direct message to send, if the update is forwarded.
    pub dm: Option<OutgoingDm>,
    /// The sender of a message with a text that was not forwarded because
    /// the sender is not allowed.
    pub blocked_user: Option<i64>,
}

/// What the Nostr listener sees, one step at a time.
#[derive(Debug)]
pub enum ListenerEvent {
    /// An event of kind `kind` arrived from a relay.
    Arrived { kind: u16 },
    /// A gift wrap was opened; the direct message inside reads `content`.
    Unwrapped { content: String },
    /// A gift wrap could not be opened.
    UnwrapFailed,
}

/// What the Nostr listener does next.
#[derive(Debug)]
pub enum ListenerAction {
    /// Nothing: the event is no gift wrap.
    Skip,
    /// Open the gift wrap.
    Unwrap,
    /// Send the message on Telegram.
    Forward(TgDelivery),
    /// Drop the message: no Telegram chat is known yet.
    DropNoChat,
    /// Drop the gift wrap: it could not be opened.
    DropUnreadable,
}

/// `a` sends `text` to chat `chat`.
pub open spec fn is_forward(a: ListenerAction, chat: i64, text: Seq<char>) -> bool {
    a matches ListenerAction::Forward(d) && d.chat_id == chat && d.text@ == text
}

/// The chat and the text of `update` where it is forwarded: it holds a
/// message with a text and a sender, and the sender is in `allowed`.
pub open spec fn accepted_message(allowed: Seq<i64>, update: TgUpdate) -> Option<(i64, Seq<char>)> {
    match update.message {
        Some(m) => match m.text {
            Some(t) => match m.from_user {
                Some(u) => if allowed.contains(u.id) {
                    Some((m.chat.id, t@))
                } else {
                    None
                },
                None => None,
            },
            None => None,
        },
        None => None,
    }
}

/// The sender of `update` where it holds a message with a text and a
/// sender, and the sender is not in `allowed`.
pub open spec fn blocked_sender(allowed: Seq<i64>, update: TgUpdate) -> Option<i64> {
    match update.message {
        Some(m) => match m.text {
            Some(_) => match m.from_user {
                Some(u) => if allowed.contains(u.id) {
                    None
                } else {
                    Some(u.id)
                },
                None => None,
            },
            None => None,
        },
        None => None,
    }
}

/// `update` holds a message with a text and a sender, and the sender is
/// one of `allowed`, wherever in the list.
pub open spec fn forwardable(allowed: Seq<i64>, update: TgUpdate) -> bool {
    &&& update.message is Some
    &&& update.message.unwrap().text is Some
    &&& update.message.unwrap().from_user is Some
    &&& allowed.contains(update.message.unwrap().from_user.unwrap().id)
}

/// `update` holds a message with a text and a sender, and the sender is
/// none of `allowed`.
pub open spec fn from_disallowed_sender(allowed: Seq<i64>, update: TgUpdate) -> bool {
    &&& update.message is Some
    &&& update.message.unwrap().text is Some
    &&& update.message.unwrap().from_user is Some
    &&& !allowed.contains(update.message.unwrap().from_user.unwrap().id)
}

/// `dm` is the message of `content` to `to`.
pub open spec fn is_dm(dm: OutgoingDm, to: Seq<char>, content: Seq<char>) -> bool {
    dm.to@ == to && dm.content@ == content
}

/// The state that the webhook and the Nostr listener share.
pub struct AppState {
    /// The key pair of the bridge.
    pub keys: KeyStore,
    /// The settings.
    pub config: Config,
    /// The chat of the latest forwarded Telegram message; kept in memory
    /// only, so none after a restart.
    pub chat_id: Option<i64>,
}

impl AppState {
    /// The chat that Nostr messages are delivered to.
    pub open spec fn chat(self) -> Option<i64> {
        self.chat_id
    }

    /// The state that `new` makes.
    pub open spec fn initial(keys: KeyStore, config: Config) -> AppState {
        AppState { keys, config, chat_id: None }
    }

    /// The state with `id` as the chat.
    pub open spec fn with_chat(self, id: i64) -> AppState {
        AppState { keys: self.keys, config: self.config, chat_id: Some(id) }
    }

    /// The state after the webhook handles `update`: its chat becomes the
    /// chat of a forwarded message; otherwise nothing changes.
    pub open spec fn after_update(self, update: TgUpdate) -> AppState {
        match accepted_message(self.config.allowed_users@, update) {
            Some((chat, _)) => self.with_chat(chat),
            None => self,
        }
    }

    /// Where a Nostr message with text `text` is delivered: to the chat,
    /// where there is one.
    pub open spec fn delivery_for(self, text: Seq<char>) -> Option<(i64, Seq<char>)> {
        match self.chat() {
            Some(c) => Some((c, text)),
            None => None,
        }
    }

    /// The state with no chat yet.
    pub fn new(keys: KeyStore, config: Config) -> (s: AppState)
        ensures
            s == AppState::initial(keys, config),
            s.keys == keys,
            s.config == config,
            s.chat() is None,
    {
        AppState { keys, config, chat_id: None }
    }

    /// Records `id` as the chat.
    pub fn set_chat_id(&mut self, id: i64)
        ensures
            *final(self) == old(self).with_chat(id),
            final(self).keys == old(self).keys,
            final(self).config == old(self).config,
    {
        self.chat_id = Some(id);
    }

    /// The chat, if one was recorded.
    pub fn get_chat_id(&self) -> (r: Option<i64>)
        ensures
            r == self.chat(),
    {
        self.chat_id
    }

    /// Handles an update posted to the webhook. A message with a text from
    /// an allowed sender makes its chat the chat, and yields a direct
    /// message of the text to the configured recipient; any other update
    /// changes nothing and yields none. The reply is `ok` in every case, so
    /// that Telegram does not post the update again.
    pub fn handle_update(&mut self, update: TgUpdate) -> (r: WebhookOutcome)
        ensures
            r.ok,
            *final(self) == old(self).after_update(update),
            match accepted_message(old(self).config.allowed_users@, update) {
                Some((_, text)) => r.dm is Some && is_dm(
                    r.dm.unwrap(),
                    old(self).config.msg_to@,
                    text,
                ),
                None => r.dm is None,
            },
            r.blocked_user == blocked_sender(old(self).config.allowed_users@, update),
            forwardable(old(self).config.allowed_users@, update) ==> {
                &&& final(self).chat_id == Some(update.message.unwrap().chat.id)
                &&& r.dm is Some
                &&& r.dm.unwrap().to@ == old(self).config.msg_to@
                &&& r.dm.unwrap().content@ == update.message.unwrap().text.unwrap()@
                &&& r.blocked_user is None
            },
            from_disallowed_sender(old(self).config.allowed_users@, update) ==> {
                &&& final(self).chat_id == old(self).chat_id
                &&& r.dm is None
                &&& r.blocked_user == Some(update.message.unwrap().from_user.unwrap().id)
            },
    {
        let ok_reply = WebhookOutcome { ok: true, dm: None, blocked_user: None };
        let msg = match update.message {
            Some(m) => m,
            None => {
                return ok_reply;
            },
        };
        let text = match msg.text {
            Some(t) => t,
            None => {
                return ok_reply;
            },
        };
        let user = match msg.from_user {
            Some(u) => u,
            None => {
                return ok_reply;
            },
        };
        if !contains_id(&self.config.allowed_users, user.id) {
            return WebhookOutcome { ok: true, dm: None, blocked_user: Some(user.id) };
        }
        self.set_chat_id(msg.chat.id);
        let to = self.config.msg_to.clone();
        WebhookOutcome { ok: true, dm: Some(OutgoingDm { to, content: text }), blocked_user: None }
    }

    /// Where a Nostr direct message with text `content` goes: to the chat,
    /// or nowhere while there is no chat yet.
    pub fn route_incoming_dm(&self, content: String) -> (r: Option<TgDelivery>)
        ensures
            match self.delivery_for(content@) {
                Some((c, t)) => r is Some && r.unwrap().chat_id == c && r.unwrap().text@ == t,
                None => r is None,
            },
    {
        match self.chat_id {
            Some(c) => Some(TgDelivery { chat_id: c, text: content }),
            None => None,
        }
    }
}

impl AppState {
    /// The listener's decision on `event`: gift wraps are opened, other
    /// events skipped; an opened message goes to the chat, or is dropped
    /// while there is none; a gift wrap that cannot be opened is dropped.
    pub fn listener_step(&self, event: ListenerEvent) -> (r: ListenerAction)
        ensures
            match event {
                ListenerEvent::Arrived { kind } => if kind == GIFT_WRAP_KIND {
                    r is Unwrap
                } else {
                    r is Skip
                },
                ListenerEvent::Unwrapped { content } => match self.delivery_for(content@) {
                    Some((c, t)) => is_forward(r, c, t),
                    None => r is DropNoChat,
                },
                ListenerEvent::UnwrapFailed => r is DropUnreadable,
            },
    {
        match event {
            ListenerEvent::Arrived { kind } => {
                if is_gift_wrap(kind) {
                    ListenerAction::Unwrap
                } else {
                    ListenerAction::Skip
                }
            },
            ListenerEvent::Unwrapped { content } => match self.route_incoming_dm(content) {
                Some(d) => ListenerAction::Forward(d),
                None => ListenerAction::DropNoChat,
            },
            ListenerEvent::UnwrapFailed => ListenerAction::DropUnreadable,
        }
    }
}

/// Whether `id` is one of `ids`.
pub fn contains_id(ids: &Vec<i64>, id: i64) -> (r: bool)
    ensures
        r == ids@.contains(id),
{
    let mut i: usize = 0;
    while i < ids.len()
        invariant
            i <= ids.len(),
            forall|j: int| 0 <= j < i ==> ids@[j] != id,
        decreases ids.len() - i,
    {
        if ids[i] == id {
            proof {
                assert(ids@[i as int] == id);
            }
            return true;
        }
        i = i + 1;
    }
    false
}

// ---------------------------------------------------------------------------
// Laws
// ---------------------------------------------------------------------------

/// Reading the chat after recording `id` gives `id`, and recording a chat
/// leaves the keys and the settings as they were.
pub proof fn law_chat_read_after_write(s: AppState, id: i64)
    ensures
        s.with_chat(id).chat() == Some(id),
        s.with_chat(id).keys == s.keys,
        s.with_chat(id).config == s.config,
{
}

/// A new state has no chat, so Nostr messages that arrive before any
/// Telegram message are delivered nowhere.
pub proof fn law_no_delivery_before_first_message(keys: KeyStore, config: Config, text: Seq<char>)
    ensures
        AppState::initial(keys, config).chat() is None,
        AppState::initial(keys, config).delivery_for(text) is None,
{
}

/// After the webhook forwards a message, Nostr messages are delivered to
/// that message's chat, with their text unchanged.
pub proof fn law_reply_reaches_latest_chat(s: AppState, update: TgUpdate, text: Seq<char>)
    requires
        accepted_message(s.config.allowed_users@, update) is Some,
    ensures
        s.after_update(update).delivery_for(text) == Some(
            (accepted_message(s.config.allowed_users@, update).unwrap().0, text),
        ),
{
}

/// The latest forwarded message decides the chat: of two forwarded
/// messages, the second one's chat receives the Nostr messages.
pub proof fn law_latest_chat_wins(s: AppState, first: TgUpdate, second: TgUpdate, text: Seq<char>)
    requires
        accepted_message(s.config.allowed_users@, first) is Some,
        accepted_message(s.config.allowed_users@, second) is Some,
    ensures
        s.after_update(first).after_update(second).delivery_for(text) == Some(
            (accepted_message(s.config.allowed_users@, second).unwrap().0, text),
        ),
{
    assert(s.after_update(first).config == s.config);
}

/// An update whose sender is not allowed changes nothing and sends nothing.
pub proof fn law_blocked_sender_ignored(s: AppState, update: TgUpdate)
    requires
        update.message matches Some(m) && m.from_user matches Some(u) && !s.config.allowed_users@.contains(u.id),
    ensures
        s.after_update(update) == s,
        accepted_message(s.config.allowed_users@, update) is None,
{
}

/// A message with a text from a sender who is anywhere in the allowlist is
/// forwarded: its text, unchanged, goes to the recipient; its chat, whatever
/// its id, becomes the chat; and Nostr messages then go to that chat with
/// their text unchanged. No sender is reported as blocked.
pub proof fn law_allowed_message_forwarded(s: AppState, update: TgUpdate, reply: Seq<char>)
    requires
        update.message is Some,
        update.message.unwrap().text is Some,
        update.message.unwrap().from_user is Some,
        s.config.allowed_users@.contains(update.message.unwrap().from_user.unwrap().id),
    ensures
        accepted_message(s.config.allowed_users@, update) == Some(
            (update.message.unwrap().chat.id, update.message.unwrap().text.unwrap()@),
        ),
        s.after_update(update).chat() == Some(update.message.unwrap().chat.id),
        s.after_update(update).config == s.config,
        s.after_update(update).delivery_for(reply) == Some((update.message.unwrap().chat.id, reply)),
        blocked_sender(s.config.allowed_users@, update) is None,
{
}

/// Every id of the allowlist, at any position, may send: a list that holds
/// the sender at index `i` forwards the message.
pub proof fn law_any_listed_sender_forwarded(s: AppState, update: TgUpdate, i: int)
    requires
        update.message is Some,
        update.message.unwrap().text is Some,
        update.message.unwrap().from_user is Some,
        0 <= i < s.config.allowed_users@.len(),
        s.config.allowed_users@[i] == update.message.unwrap().from_user.unwrap().id,
    ensures
        accepted_message(s.config.allowed_users@, update) is Some,
        blocked_sender(s.config.allowed_users@, update) is None,
        s.after_update(update).chat() == Some(update.message.unwrap().chat.id),
{
    assert(s.config.allowed_users@.contains(update.message.unwrap().from_user.unwrap().id));
}

/// A message with a text from a sender who is not in the allowlist is
/// reported as blocked under the sender's id, and nothing else happens.
pub proof fn law_disallowed_sender_reported(s: AppState, update: TgUpdate)
    requires
        update.message is Some,
        update.message.unwrap().text is Some,
        update.message.unwrap().from_user is Some,
        !s.config.allowed_users@.contains(update.message.unwrap().from_user.unwrap().id),
    ensures
        blocked_sender(s.config.allowed_users@, update) == Some(
            update.message.unwrap().from_user.unwrap().id,
        ),
        accepted_message(s.config.allowed_users@, update) is None,
        s.after_update(update) == s,
{
}

/// An update without a message, or with a message without text or sender,
/// changes nothing and sends nothing.
pub proof fn law_incomplete_update_ignored(s: AppState, update: TgUpdate)
    requires
        update.message is None || update.message.unwrap().text is None
            || update.message.unwrap().from_user is None,
    ensures
        s.after_update(update) == s,
        accepted_message(s.config.allowed_users@, update) is None,
{
}

} // verus!
