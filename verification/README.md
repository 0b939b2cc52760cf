# simple-chat

A small LAN chat program. The library (`src/`) is verified with Verus; the
program around it (`app/`) does the terminal, network and file work.

Library modules:

- `framing`: length-prefixed frames (4-byte big-endian length, at most 64 KiB).
- `types::message`: chat messages, server notices (system messages) and their binary layout, each preceded by a kind byte.
- `types::session_info`: the user's name field and IPv4 address.
- `handshake`: the protocol-version exchange and the client's hello.
- `args`: command-line parsing.
- `client::state`, `client::view`: the client's input line and the text it shows.
- `server`: the join/leave notices.
- `config`: the configuration records.
- `endian`, `text`, `helpers`: big-endian numbers, string functions, the clock.
