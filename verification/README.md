# motion_desk

Controller logic for LINAK-based motorised desks (Desker Motion Desk Premium),
verified with Verus.

- `src/` — the verified library. Heights are integers in tenths of a
  millimetre (`6300` = 63 cm, the lowest position).
  - `position`: decoding the position characteristic, move targets.
  - `protocol`: characteristic identifiers, commands, the DPG user-id handshake,
    desk discovery by advertised name.
  - `motion`: the dead-man move loop as a state machine, bounded in writes.
  - `session`: the connection session of the tray application.
  - `config`: favourite heights, migration of old presets, standing threshold.
  - `history`: timestamps, history records, the chart window.
  - `decimal`: integer parsing as `str::parse` does it.
  - `ui`: connection labels, panel messages, tray clicks.
- `app/` — Bluetooth driver (btleplug, tokio), settings and history files
  (serde, toml), the menu-bar application (tao, tray-icon, wry), the `desk`
  command line (clap) and HTML pages. Floating-point centimetres live here.
- `tests/` — tests of the library.
