# eudi_access

A door access terminal for ISO 18013-5 mobile driving licences and EUDI
wallets. A phone taps the NFC reader and hands over its device engagement
(an NDEF Handover Select message); the terminal connects to the phone over
BLE, requests a few mDL data elements, checks the issuer and device
signatures with isomdl, and opens the door when the credential grants it.

Layout:

- `src/` — the library, verified with Verus:
  - `transport/ndef.rs`: NDEF handover and BLE advertising-data parsing;
  - `transport/nfc.rs`: the ISO 7816-4 APDU exchange that reads the NDEF
    file, as a state machine;
  - `transport/ble.rs`: GATT service and characteristic selection, message
    fragmentation and reassembly;
  - `transport/qr.rs`: the `mdoc:` engagement URI and its QR renderings;
  - `reader.rs`: the requested elements, the reader session around isomdl,
    the verified response, the trust anchors;
  - `policy.rs`: the door's access policy;
  - `door.rs`: the door controller state machine;
  - `ui.rs`: web view commands, scripts and the terminal page;
  - `text.rs`, `bytes.rs`: helpers on strings and byte slices.
- `app/` — the program: window and web view, PC/SC and BlueZ I/O, the
  async loops that perform the library's actions.
- `tests/` — tests of the library.
