# ldr_plc

Verified core of the LDR motion-table desktop controller, which talks Modbus TCP
to a Xinje PLC.

- `src/` — the library, verified with Verus: register byte orders (`codec`),
  device addressing (`address`), the motion-array layout and checks (`arrays`),
  configuration parsing (`config`, `text`), alarm edge detection (`alarms`),
  heartbeat, supervisor and subscription decisions (`heartbeat`, `supervisor`,
  `subscriptions`), frame splitting and array register images (`transfer`),
  held-coil registry (`held`), record checks (`records`).
- `app/` — the Tauri shell: SQLite storage, the Modbus TCP link and its tasks,
  the front-end commands, and the floating-point conversions.
- `tests/` — tests of the library on concrete values.
