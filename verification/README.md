# bscp_userserver

The user server of BSCP: federated direct messages, a media proxy, webhooks,
two-factor login, voice calls, out-of-process modules and an OpenID Connect
provider for the server's own users.

## Layout

- `src/` — the library, verified with Verus. It holds the server's decisions
  and formats: address handling, the registration and login rules, upload
  quotas and file names, chat lists and message ids, the call registry and the
  relay's dialing rule, module manifests, signed link tickets, the OpenID
  Connect checks (redirect URIs, PKCE, scopes, consent, client credentials)
  and the percent and HTML encodings they use. Digests, base64, URL parsing,
  JSON field reads and MIME guesses are calls into their crates behind
  trusted functions in `src/crypto.rs` and `src/codec.rs`, each with the
  contract it is believed to meet.
- `tests/` — tests of the library on concrete values.
- `app/` — the HTTP server around the library: axum routes, the SQLite store,
  WebSocket signalling, the WebRTC relay, push notifications and the RSA key
  that signs tokens.

## Collections

Two std collections of the server are held in forms whose contracts Verus
can prove. vstd models a `BTreeSet` as a `Set`: the order in which its
iterator yields the keys is left unnamed, and its facts hold only for keys
that meet `key_obeys_cmp_spec`, which nothing here establishes for
`String`. The chat list relies on that order, so the sorted, duplicate-free
set of chat partners is a `Vec<String>` kept strictly sorted by byte order
(`routes::chats::insert_sorted`, `chat_partners`). For the same reason the
string-keyed `HashMap` registries of the call state are `keyed::Keyed`: a
vector of pairs with distinct keys, viewed as a `Map`. The std forms were
not declared and tried in this crate.
