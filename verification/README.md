# rbx-switch

Switch between the Roblox Studio accounts signed in on this machine, from the
command line.

- `src/` is the verified library: how a name picks an account (user id, then
  alias, then username without case), how the project `rbxswitch.toml` and the
  personal `~/.rbxswitch.toml` merge, how Studio's registry value lists the
  signed-in accounts, and what `list`, `current`, `use` and the picker decide.
- `app/` is the binary: argument parsing, colours, the picker prompt, reading
  the alias files and the platform credential stores.
- `tests/` runs the library on concrete accounts and files.
