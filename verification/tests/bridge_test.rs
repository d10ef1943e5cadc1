use rs_tg_nostr::config::Config;
use rs_tg_nostr::keys::KeyStore;
use rs_tg_nostr::state::{AppState, ListenerAction, ListenerEvent};
use rs_tg_nostr::telegram::{TgChat, TgMessage, TgUpdate, TgUser};

fn make_test_state() -> AppState {
    let keys = KeyStore::load_or_generate("key.json", None);
    let config = Config {
        bot_token: "tok".into(),
        webhook_url: "https://example.com".into(),
        allowed_users: vec![1],
        port: 8000,
        msg_to: "npub1target".into(),
        nostr_relays: vec![],
        log_level: "info".into(),
    };
    AppState::new(keys, config)
}

#[test]
fn test_tg_to_nostr_full_flow() {
    let mut state = make_test_state();
    let update = TgUpdate {
        update_id: 1,
        message: Some(TgMessage {
            message_id: 1,
            from_user: Some(TgUser { id: 1 }),
            chat: TgChat { id: 55 },
            text: Some("hi nostr".to_string()),
        }),
    };

    let outcome = state.handle_update(update);
    assert!(outcome.ok);

    let calls: Vec<(String, String)> = outcome.dm.into_iter().map(|d| (d.to, d.content)).collect();
    assert_eq!(calls.len(), 1);
    assert_eq!(calls[0].0, "npub1target");
    assert_eq!(calls[0].1, "hi nostr");

    assert_eq!(state.get_chat_id(), Some(55));
}

#[test]
fn test_nostr_to_tg_full_flow() {
    let mut state = make_test_state();

    state.set_chat_id(99);
    let calls: Vec<(i64, String)> = state
        .route_incoming_dm("hello from nostr".to_string())
        .into_iter()
        .map(|d| (d.chat_id, d.text))
        .collect();

    assert_eq!(calls.len(), 1);
    assert_eq!(calls[0], (99, "hello from nostr".to_string()));
}

#[test]
fn test_nostr_to_tg_no_chat_id_does_not_send() {
    let state = make_test_state();

    assert!(state.get_chat_id().is_none());
    assert!(state.route_incoming_dm("dropped".to_string()).is_none());
}

#[test]
fn reply_goes_to_chat_of_latest_forwarded_message() {
    let mut state = make_test_state();
    for chat in [10, 20] {
        state.handle_update(TgUpdate {
            update_id: chat,
            message: Some(TgMessage {
                message_id: chat,
                from_user: Some(TgUser { id: 1 }),
                chat: TgChat { id: chat },
                text: Some("x".to_string()),
            }),
        });
    }
    let d = state.route_incoming_dm("back".to_string()).unwrap();
    assert_eq!((d.chat_id, d.text.as_str()), (20, "back"));
}

#[test]
fn listener_steps() {
    let mut state = make_test_state();
    assert!(matches!(state.listener_step(ListenerEvent::Arrived { kind: 1059 }), ListenerAction::Unwrap));
    assert!(matches!(state.listener_step(ListenerEvent::Arrived { kind: 1 }), ListenerAction::Skip));
    assert!(matches!(
        state.listener_step(ListenerEvent::Unwrapped { content: "hi".to_string() }),
        ListenerAction::DropNoChat
    ));
    assert!(matches!(state.listener_step(ListenerEvent::UnwrapFailed), ListenerAction::DropUnreadable));
    state.set_chat_id(7);
    match state.listener_step(ListenerEvent::Unwrapped { content: "hi".to_string() }) {
        ListenerAction::Forward(d) => assert_eq!((d.chat_id, d.text.as_str()), (7, "hi")),
        other => panic!("expected a forward, got {:?}", other),
    }
}
