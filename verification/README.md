# buzzkill

Remote ID drone detector. It listens for drones broadcasting FAA Remote ID
(ASTM F3411 OpenDroneID) over Bluetooth LE advertising and WiFi beacons,
tracks each transmitter, and reports what it hears.

## Layout

- `src/` — the library, verified with Verus:
  - `hci/events.rs`, `remoteid/filter.rs`, `wifi/frames.rs`: parsers from raw
    bytes (HCI LE Advertising Reports, AD structures, radiotap + 802.11
    beacons and their vendor elements) to OpenDroneID payloads;
  - `remoteid/decode.rs`: the 25-byte message decoder, with quantities kept in
    the wire format's fixed-point units;
  - `tracker.rs`: per-drone state keyed by MAC address, counter-based
    de-duplication and expiry;
  - `pipeline.rs`: what the scanning loops do with each packet or frame;
  - `hci/commands.rs`, `hci/socket.rs`: HCI command packets and the socket filter;
  - `db.rs`, `email.rs`, `web.rs`, `output.rs`, `gps.rs`, `adapter.rs`,
    `text.rs`: database rows, alert texts and SMTP settings, the dashboard's
    file selection, console text, direction names, adapter names, numerals.
- `app/` — the program around it: sockets, threads, gpsd, PostgreSQL, SMTP,
  the HTTP server, and the floating-point geometry and unit conversions.
- `tests/` — tests of the library.

## Usage

```bash
buzzkill hci0
buzzkill hci0 --wifi wlan0 --expiry 120
```

Requires `CAP_NET_ADMIN` and `CAP_NET_RAW`, or root. WiFi scanning needs an
interface in monitor mode. `DATABASE_URL` enables the sightings log;
`SMTP_HOST`, `SMTP_USERNAME`, `SMTP_PASSWORD`, `ALERT_FROM` and `ALERT_TO`
configure e-mail alerts.
