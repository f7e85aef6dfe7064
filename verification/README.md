# vps_cli

A command line tool for VPS administration (`vps-cli`): sing-box, mita/mieru
and TrustTunnel servers, SSH hardening, firewall and port inspection,
cleanups, and self-upgrade.

The library in `src/` holds the commands' logic and is proved with Verus:
parsing of `ufw`, `nft`, `iptables`, `ss` and `lsof` output, the tables and
TSV that are printed, version ordering and upgrade planning, checksum
checks, the SSH plan, its rendered configuration and the check of what
`sshd -T` reports, cleanup and rollback plans, node lists and share links,
what service commands report, when secrets are shown, and the arguments
handed to outside programs. The program in `app/` reads the command line,
runs the outside programs, touches files, and turns the library's results
into JSON or text.

- `src/` — the verified library, one module per area, with
  `text`, `split`, `num`, `order`, `table` and `paths` for the text and
  ordering they share.
- `app/` — the program: command line parsing, running programs, files,
  downloads and prompts; it hands plain values to the library and performs
  what the library decides.
- `tests/` — tests of the library.
