# rs_tg_nostr

A Telegram ↔ Nostr message bridge. Telegram posts updates to a webhook; messages
from allowed users go out as NIP-17 gift-wrapped direct messages to one Nostr
recipient, and direct messages that arrive on the relays go back to the Telegram
chat that wrote last.

Layout:

- `src/` — the library, with contracts and proofs:
  - `text.rs`: splitting on a separator, Unicode trimming, decimal integers
    (`i64`, `u16`) with their specifications and laws;
  - `config.rs`: the settings read from the environment variables;
  - `error.rs`: the error type and its text;
  - `keys.rs`: the key pair in `key.json` form, generated through `nostr-sdk`;
  - `state.rs`: the shared state and the per-message decisions, with laws;
  - `telegram.rs`: Telegram update types and Bot API addresses;
  - `nostr.rs`: gift-wrap kind, subscription window, recipient parsing;
  - `transport.rs`: the `User-Agent` WebSocket transport's decisions.
- `app/` — the program: command line, environment, key file I/O, HTTP server,
  relay connections and the async runtime.
- `tests/` — tests of the library.
