# EasyFirewall

A terminal manager for Linux firewalls (nftables, iptables): it lists the
rules, adds, edits and deletes them through forms, shows blocked traffic
read from the kernel log, keeps a history of operations and exports or
imports rule sets as JSON or YAML.

The crate is in two parts.

- `src/` is the library, verified with Verus: the rule model, the parsers
  of `nft list ruleset` and `iptables -L`, the command lines that change the
  firewall, the forms and their validation, the history log, the traffic
  statistics, the key bindings, the application state machine and the texts
  of the screen.  Each public function states what it returns or changes;
  the laws that relate several functions are public proof functions
  (`lemma_*`).
- `app/` is the program around it: it checks for root, runs `nft`,
  `iptables` and `journalctl`, reads and writes files, reads the keyboard
  with crossterm and draws with ratatui.  The state machine tells it which
  of these to do (`App::dispatch`, `App::begin_save_form`,
  `App::finish_change`).

Module map of the library:

| module | contents |
|---|---|
| `text` | string primitives with exact specifications (trim, find, lines, tokens, decimal text, UTF-8 offsets) |
| `time` | UTC instants held as numbers; formatting by chrono |
| `firewall` | `FirewallRule`, errors, and the `iptables` and `nftables` backends' parsing and command building |
| `forms` | the add, edit and delete forms, key handling, validation, dialog texts |
| `history` | the bounded operation log |
| `ranking`, `monitor` | kernel log parsing, grouping by address, top ten by count |
| `events` | key events and the application events they stand for |
| `app` | the application state and its transitions |
| `export` | exported rule sets and imports |
| `config` | settings |
| `ui` | the state the screen is drawn from and its texts |
