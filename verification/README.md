# zenoh-link-bt

Bluetooth links for Zenoh, in two kinds:

- `bt_gatt`: packets over two GATT characteristics, one for each direction. A
  locator is `bt_gatt/<device>` or `bt_gatt/<adapter>@<device>`.
- `bt_l2cap_tls`: a TLS stream over an L2CAP channel. A locator is
  `bt_l2cap_tls/<device>` or `bt_l2cap_tls/<adapter>@<device>`.

## Layout

`src/` is the verified library. It decides and computes, and leaves the radio,
the files and the clock to its caller.

| Module | What it holds |
| --- | --- |
| `text`, `params`, `locator`, `address`, `device` | texts, parameter lists, endpoints, addresses |
| `listeners`, `auth` | what both kinds of links share |
| `gatt` | service, characteristics, packets, pairing of centrals, connecting |
| `l2cap::config`, `plan`, `tls`, `identity` | configuration, certificates, who a peer is |
| `l2cap::adapter`, `probe`, `search`, `dial`, `listen`, `scan`, `accept` | finding, connecting and accepting peers |
| `*::link`, `*::manager` | links and their managers |

Where work on the radio and decisions alternate, the decisions are a step
function: it takes what the last piece of work came to and says what to do next.
Each of them comes with laws about whole runs, proof functions whose names begin
with `law_`.

`app/` does the work: D-Bus calls through BlueZ, sockets, TLS handshakes, tasks
and timers, and the traits that Zenoh's transport asks for.

`tests/` runs the library on concrete values.

## Dependencies

`dbus` is named only for its `vendored` feature: `bluer` talks to BlueZ through
it, and with that feature it builds without a system library.
