# term-orchestrator core

The library behind `torch`, a tool that drives tmux sessions on the machines
of a LAN over ssh, waking sleeping machines with Wake-on-LAN first.

- `src/` is the library, verified with Verus: the machine registry
  (`config`), error texts (`error`), the ssh argument list and failure
  classification (`ssh`), tmux commands and the parsing of `tmux ls`
  (`tmux`), ARP/banner parsing and MAC normalization (`discovery`), MAC
  parsing, magic packets and the wake-and-retry state machine (`wol`),
  terminal selection and launch commands (`terminal`), the command-line
  helpers (`commands`), and the string functions they share (`text`).
- `app/` is the `torch` program: argument parsing, reading and writing
  `machines.toml`, running `ssh`, `ping` and `arp`, sockets, timers and
  spawning terminals. It hands plain values to the library and acts on what
  comes back.
- `tests/` exercises the library.
