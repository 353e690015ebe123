# Pastebridge

Pastebridge syncs the clipboard between computers over the local network or
Tailscale, without a server. Two computers are paired once, by comparing an
eight-digit code; after that a daemon on each of them sends what is copied on
one to the other, over QUIC with pinned certificates.

`src/` is the library: the rules of the program, verified with Verus.

| module | what it holds |
|---|---|
| `text`, `bytes`, `codec` | text, byte strings, hexadecimal, Base64 and PEM |
| `crypto` | fingerprints, device ids, the pairing code, clip hashes |
| `clip_text`, `clip_files`, `clip_image` | what clipboard bytes, paths and pictures mean |
| `clip_tools`, `clip_commands` | what reaches the clipboard, and how it is called |
| `clipboard`, `clip_read` | which clip is new, and how the clipboard is read |
| `clock`, `identity`, `tls` | certificates, paired devices and who is let in |
| `protocol`, `sync` | messages, frames and sessions |
| `pairing`, `targets`, `discovery` | how devices find and record each other |
| `connections`, `daemon` | which connections are kept, what is sent, what expires |
| `update`, `updating` | versions and releases, and the course of an update |
| `config`, `doctor`, `service`, `cli`, `ui` | settings and commands |

The contracts speak of mathematical models: texts are sequences of characters,
and a spec function says what each value is. What an outside crate computes is
either stated in the contract of the function that calls it, or given a name
where it takes pages to state. Properties that span several functions are
public proof functions.

`app/` is the program around it: arguments, files, sockets, and the programs
that it calls. `tests/` runs the library on concrete values.
