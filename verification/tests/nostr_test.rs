use nostr_sdk::{Keys, PublicKey, ToBech32};
use rs_tg_nostr::nostr::{
    gift_wrap_since, is_gift_wrap, parse_recipient, recipient_from_parse, GIFT_WRAP_KIND,
};
use rs_tg_nostr::transport::{ConnectPlan, UserAgentTransport};

#[test]
fn test_keys_generate_and_parse() {
    let keys = Keys::generate();
    let nsec = keys.secret_key().to_bech32().unwrap();
    let npub = keys.public_key().to_bech32().unwrap();

    assert!(nsec.starts_with("nsec1"));
    assert!(npub.starts_with("npub1"));

    let rebuilt = Keys::parse(&nsec).unwrap();
    assert_eq!(rebuilt.public_key(), keys.public_key());
}

#[test]
fn test_nip17_keys_valid() {
    let sender = Keys::generate();
    let recipient = Keys::generate();

    let sender_pub: PublicKey = sender.public_key();
    let recipient_pub: PublicKey = recipient.public_key();

    assert_ne!(sender_pub, recipient_pub);
    let npub_str = recipient_pub.to_bech32().unwrap();
    let parsed_pub = PublicKey::parse(&npub_str).unwrap();
    assert_eq!(parsed_pub, recipient_pub);
}

#[test]
fn recipient_parse() {
    let recipient = Keys::generate().public_key();
    let npub = recipient.to_bech32().unwrap();
    assert_eq!(parse_recipient(&npub).unwrap(), recipient);
    let err = parse_recipient("npub1target").unwrap_err();
    assert!(err.to_string().starts_with("nostr error: invalid npub: "));
}

#[test]
fn gift_wrap_window() {
    assert_eq!(GIFT_WRAP_KIND, 1059);
    assert!(is_gift_wrap(1059));
    assert!(!is_gift_wrap(4));
    assert_eq!(gift_wrap_since(1_700_000_000), 1_700_000_000 - 2 * 24 * 60 * 60);
    assert_eq!(gift_wrap_since(172_800), 0);
    assert_eq!(gift_wrap_since(1_000), 0);
}

#[test]
fn transport_plan() {
    let t = UserAgentTransport::default();
    assert!(t.support_ping());
    assert_eq!(t.user_agent("0.1.0"), "rs_tg_nostr/0.1.0");
    assert_eq!(t.user_agent("2.3.4"), "rs_tg_nostr/2.3.4");
    match t.plan(true, "0.1.0") {
        ConnectPlan::Handshake { user_agent } => assert_eq!(user_agent, "rs_tg_nostr/0.1.0"),
        ConnectPlan::Refuse { .. } => panic!("direct mode must connect"),
    }
    match t.plan(false, "0.1.0") {
        ConnectPlan::Refuse { reason } => {
            assert_eq!(reason, "UserAgentTransport only supports Direct mode")
        }
        ConnectPlan::Handshake { .. } => panic!("proxy mode must be refused"),
    }
}

#[test]
fn recipient_from_parse_outcomes() {
    let key = Keys::generate().public_key();
    assert_eq!(recipient_from_parse(Ok(key)).unwrap(), key);
    let err = PublicKey::parse("bad").unwrap_err();
    let expected = format!("nostr error: invalid npub: {}", err);
    assert_eq!(recipient_from_parse(Err(err)).unwrap_err().to_string(), expected);
}
