# Kefilex Desk

Companion app for reception desks: it notices incoming calls on any
softphone (from OS toast notifications and from softphone audio) and
reports them to the Kefilex Reception inbox.

## Layout

- `src/` — the library, written in Verus and verified:
  - `voip_filters` — the softphone registry and the notification matcher
    (first matching filter wins; only listened-to applications are read),
    phone-number normalisation, process-name lookup.
  - `notification_listener` — which toasts of a poll are new, how a toast's
    text is read, the call event for a matched toast.
  - `audio_listener` — per-process state machine that reports sustained
    softphone audio once per activation, and its `ringing` event.
  - `api` — endpoint URLs, response checks and error messages, payload types.
  - `config` — the pairing configuration, what the pairing window shows, and
    how the configuration is written to the key/value store.
  - `heartbeat`, `tray`, `switches` — the heartbeat's revocation rule, the
    tray menu, the emergency disable switches.
  - `text` — character-level helpers (substring search, trimming).
- `tests/` — scenario tests of the library.
- `app/` — the Tauri program around the library: windows, tray widgets,
  HTTP, the persistent store, and the Windows notification and audio APIs.
