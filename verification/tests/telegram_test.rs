use rs_tg_nostr::config::Config;
use rs_tg_nostr::keys::KeyStore;
use rs_tg_nostr::state::AppState;
use rs_tg_nostr::telegram::{webhook_registered, TelegramClient, TgChat, TgMessage, TgUpdate, TgUser};

fn state() -> AppState {
    let keys = KeyStore::load_or_generate("key.json", None);
    let config = Config {
        bot_token: "token".into(),
        webhook_url: "https://example.com".into(),
        allowed_users: vec![42],
        port: 8000,
        msg_to: "npub1test".to_string(),
        nostr_relays: vec![],
        log_level: "info".into(),
    };
    AppState::new(keys, config)
}

fn update(update_id: i64, from: i64, chat: i64, text: Option<&str>) -> TgUpdate {
    TgUpdate {
        update_id,
        message: Some(TgMessage {
            message_id: update_id,
            from_user: Some(TgUser { id: from }),
            chat: TgChat { id: chat },
            text: text.map(|t| t.to_string()),
        }),
    }
}

#[test]
fn test_webhook_allowed_user_sends_dm() {
    let mut state = state();
    let outcome = state.handle_update(update(1, 42, 100, Some("hello nostr")));
    assert!(outcome.ok);
    let calls: Vec<_> = outcome.dm.into_iter().collect();
    assert_eq!(calls.len(), 1);
    assert_eq!(calls[0].to, "npub1test");
    assert_eq!(calls[0].content, "hello nostr");
}

#[test]
fn test_webhook_blocked_user_returns_ok_no_dm() {
    let mut state = state();
    let outcome = state.handle_update(update(2, 99, 200, Some("hack")));
    assert!(outcome.ok);
    assert_eq!(outcome.blocked_user, Some(99));
    let calls: Vec<_> = outcome.dm.into_iter().collect();
    assert_eq!(calls.len(), 0, "blocked user must not trigger DM");
    assert_eq!(state.get_chat_id(), None);
}

#[test]
fn test_webhook_no_text_returns_ok() {
    let mut state = state();
    let outcome = state.handle_update(update(3, 42, 100, None));
    assert!(outcome.ok);
    assert!(outcome.dm.is_none());
    assert_eq!(state.get_chat_id(), None);
}

#[test]
fn webhook_without_message_or_sender_returns_ok() {
    let mut state = state();
    let outcome = state.handle_update(TgUpdate { update_id: 4, message: None });
    assert!(outcome.ok && outcome.dm.is_none());
    let outcome = state.handle_update(TgUpdate {
        update_id: 5,
        message: Some(TgMessage {
            message_id: 5,
            from_user: None,
            chat: TgChat { id: 100 },
            text: Some("anonymous".to_string()),
        }),
    });
    assert!(outcome.ok && outcome.dm.is_none());
    assert_eq!(state.get_chat_id(), None);
}

#[test]
fn bot_api_addresses() {
    let client = TelegramClient::new("123:abc".to_string());
    assert_eq!(
        client.set_webhook_url("https://example.com"),
        "https://api.telegram.org/bot123:abc/setWebhook?url=https://example.com/webhook"
    );
    assert_eq!(client.send_message_url(), "https://api.telegram.org/bot123:abc/sendMessage");
}

#[test]
fn webhook_registration_reply() {
    assert!(webhook_registered(Some(true)));
    assert!(!webhook_registered(Some(false)));
    assert!(!webhook_registered(None));
}
