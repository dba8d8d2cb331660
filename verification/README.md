# kotori

A manager for Windows games on Linux: it keeps a library of games on drives that come and go, scales
them to the display, and keeps their saves in the cloud. A daemon owns the configuration; the command
line and the user interface talk to it over a socket.

## Layout

- `src/` is the library: every rule of the program, with contracts that Verus proves.
  - `text`, `path`, `json`, `clock`: the values that everything else is written with.
  - `mount`: tables of mounted volumes, and paths kept as "which volume, where on it".
  - `config`: games, profiles and settings, and where their files are.
  - `game`: scanning a directory for games, naming them, and the library as a list.
  - `display`, `desktop`, `hotkeys`, `picker`, `platform`: what is read from the machine.
  - `daemon`: requests and replies, changes to the configuration, launching and watching games;
    `daemon::sync` decides what is moved to and from the cloud.
  - `cli`: what the commands send, and what they print.
- `app/` is the program around it: arguments, files, sockets, portals and processes. It holds no rule.
- `tests/` runs the library on concrete values.

## How the contracts are written

A type has a view (`@`), and a contract speaks of views: texts are sequences of characters, a path is a
sequence of bytes, the configuration is a record whose games are a sequence of named records. What
holds of several functions together is stated as a `pub proof fn` beside them, named after what it
says.

A few functions of the standard library and of `serde_json`, `chrono` and `uuid` are called through
small functions marked `#[verifier::external_body]`; the comment above each says what is taken on
trust.
