# glimbot

A Discord moderation and utility bot whose decision-making core is written in Verus and
proved against its contracts.

`src/` is the verified library:

- `command`, `dice`: the prefixed-command grammar and the dice-expression grammar, with
  evaluation of rolls.
- `dispatch`, `filters`, `reply`: the registry of modules and settings, what happens to each
  incoming message before a command runs (guild check, prefix, command name, word splitting,
  filters), and how replies are framed and split.
- `config`, `settings`, `conf_command`, `config_cache`: guild settings, their validation, the
  `config` command's replies, and the settings cache with its hit and miss counters.
- `moderation`, `timed`, `roles`: moderation actions and their reports, the follow-up actions
  that lift bans and mutes, and self-assignable roles.
- `cache`, `kv`: a key-value cache with expiry, and the byte layout of its integer keys.
- `incrementer`, `bag`, `glim`, `glim_modules`, `hooks`, `info`, `status`, `dictionary`,
  `legacy_args`, `legacy_roles`: the smaller commands, the older module system and its hook
  chain, and the argument grammars and decisions of the older `define`, `config`, `roles`
  and `me` commands.
- `error`, `text`, `sensitivity`, `module_info`, `pattern`: errors, string helpers and module
  descriptions.

Calls into `regex`, `shlex`, `rand`, `humantime`, `percent-encoding` and serenity's message
builder and id parsers stand behind small trusted wrappers whose contracts say what the
library relies on.

`app/main.rs` connects to Discord with serenity and hands every message to the library;
it keeps guild settings in memory.

The tests in `tests/` exercise the library on concrete values.
