# stalcraft_jvm_wrapper

The STALZONE / STALCRAFT JVM wrapper for Windows: an IFEO debugger
(`service.exe`) that starts the game's launcher or JVM with tuned JVM flags,
plus a GUI / command line that installs the IFEO hooks, manages tuning
profiles and blocks game tunnel servers in the firewall.

## Layout

- `src/` — the verified library (Verus). Every executable function carries a
  contract over mathematical models of its inputs (`Seq<char>` for text,
  `Seq<u8>` for raw buffers).
  - `paths` — launcher layouts (EXBO, Steam, EGS, VK Play), the wrapper home,
    which intercepted images get JVM flags.
  - `jvm` — the flags of a profile and the filtering of launcher options.
  - `config` — the profile generated from the hardware, active-profile choice.
  - `system` — hardware report, SMBIOS / processor-record parsers, names.
  - `ifeo` — Debugger path keys, per-target and overall health, messages.
  - `registry` — text of `REG_SZ` data.
  - `service` — how the IFEO service starts the intercepted image.
  - `process` — command line, game directory, ranking of running clients.
  - `server_block`, `ipv4` — firewall block plans and IPv4 literals.
  - `ping` — timeouts, socket addresses, result order.
  - `log` — log location, line format, path redaction, tail.
  - `text` — character-sequence helpers.
- `tests/` — tests of the library.
- `app/` — the Windows host: Win32 / NT calls, registry, files, PowerShell,
  threads, the Tauri GUI and the command line. It hands the library plain
  values and acts on what comes back.
