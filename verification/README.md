# nm_monitor

An OVS port agent for Proxmox hosts: OVS bridges and container ports managed through
NetworkManager or systemd-networkd, a Proxmox-visible `/etc/network/interfaces` block,
an append-only SHA-256 audit ledger, a read-only OVSDB filesystem view, and declarative
state plugins with checkpoint and rollback.

## Layout

- `src/` is the library, written in Verus. Every function carries a contract over a
  mathematical model (sequences of characters, maps, views of the records) and is proved
  against it. The library decides; it does not perform I/O. Where a command has to run or a
  file has to change, it returns the command lines, file contents or plans to carry out,
  and takes the outputs back as plain text.
- `app/` is the `nm_monitor` program around the library: argument handling, running
  commands, reading and writing files, serde forms of the records, and the loops that feed
  command results back into the library's step functions.
- `tests/` exercises the library on concrete values.

Calls into `sha2`, `sha1` and `md5` stand in `src/digest.rs` behind small trusted wrappers
whose contracts name the digest they compute; everything built on them is verified.
