# Intuigram application state, verified

The state machine behind the Intuigram terminal Telegram client, written in Verus:
every handler states, over a mathematical model of the application (`AppModel`, the
view of `App`), exactly what it does to the state and which effect it asks the runtime
to perform.

Layout of `src/`:

- `ids.rs`, `keyed.rs`, `seqs.rs`, `vecset.rs`: identifiers, a keyed list that models a
  map (first entry of a key wins), and sequence helpers with their lemmas.
- `view.rs`: what the terminal renders (`Screen`), the effects (`Effect`) and the models
  of both.
- `cursor.rs`, `text.rs`, `text_parse.rs`: UTF-8 cursor movement in the composer, white
  space trimming, and decimal numerals as `str::parse` reads them.
- `app/`: the handlers of `App`, grouped as in the application (navigation, history
  loading, previews and avatars, composer, actions, editing, reconciliation of messages,
  unread boundaries, bootstrap and reconnection, sending and its outcome, the
  clipboard, folder operations, events).
- `protocol.rs`: the inputs (`AdapterEvent`, `Intent`) that `App::apply` handles.
- `folder_arguments.rs`: the command-line folder commands.
- `effect_schedule.rs`: which queued effects the runtime starts, one per lane.
- `runtime_step.rs`: the runtime's decisions: when it ends and how, what a finished or
  failed effect leads to, and which sources it waits on.
- `session_loading.rs`: the decisions of the waits for an account to load and for a
  broken connection to be cleaned up.
- `outbox.rs`: the outbox's driver (which work it starts, what it reports and in which
  order, when it parks) and how long it waits for a deferred operation.
- `preview_cache.rs`: the preview cache framing.
- `send_reply.rs`: what the backend does for a message send, before and after the answer.
- `command_codec.rs`: the header that frames a stored outbox command.
- `retained_media.rs`, `cache_keys.rs`: the stored form of files kept for offline
  reading, and the decimal cache keys of previews, avatars and retained files.
- `laws.rs`, `composer_laws.rs`: properties that span several handlers, proved.

`app/main.rs` is a small terminal front end: it parses a folder command given on the
command line, or feeds typed lines to `App::apply` (`:send` sends the draft, `:quit`
quits).
