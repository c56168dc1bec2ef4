# audire

The verified core of Audire, a local-first meeting transcription and notes
app with optional end-to-end encrypted sync, written in Verus.

`src/` holds the logic with its contracts and proofs:

- audio: down-mixing, source mixing, conversion to 16 kHz, 100 ms framing,
  silence keep-alives and the bounded send queue that drops its oldest frame
- recognizer messages and sessions, and how a capture starts and ends
  (`asr`, `asr_session`)
- notes: keyword queries, generated structured notes, stored notes and their
  Markdown forms (`notes`, `generate`, `structured`, `retrieval`, `recipe`)
- sync: sealing and opening op payloads, the apply rules and folder sharing,
  the worker's decisions, the account and organisation flows, the key
  constructions and hex framing (`ops`, `worker`, `account`, `crypto`,
  `hexcodec`); an op's JSON form is written and read in `app/`
- the sync server's access rules, sign-up and key rotation, caller identity
  and configuration (`access`, `auth`, `config`)
- calendar sign-in and events, meeting detection (`calendar`, `oauth`,
  `calendar_events`, `detection`)
- keys, capture commands, folders, LLM provider order (`keys`, `capture`,
  `folders`, `llm`)

Calls into outside crates (XChaCha20-Poly1305, X25519, HKDF, Argon2, SHA-256,
base64, hex, keyring, chrono, uuid, urlencoding) stand behind small trusted
wrappers whose contracts name what the crate computes.

`app/` is the thin process edge: the key tool's `main`, environment and file
access, the OAuth callback socket, floating-point values and the JSON forms of
the library's records.
