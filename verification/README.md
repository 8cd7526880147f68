# Lutron Caséta over LEAP

A driver for Caséta Smart Bridges and what is behind them: dimmers, switches, fans, shades, Pico
remotes, occupancy sensors and the scenes that a bridge holds. It is written in Verus: each
function's contract says what it returns, and Verus proves that it does.

## Layout

| | |
| --- | --- |
| `src/` | the verified library |
| `src/laws/` | what holds of the driver as a whole: pairing and listing arrive, a press is a click or a hold, what is adopted is read back, requests read back from the wire |
| `tests/` | the library on concrete values |
| `app/` | the controller SDK's trait around the library |

The library never touches a socket, a clock or a file. It is handed what arrived and says what to
do next: write these bytes, wake me in half a second, show this form.

## What is trusted

JSON is read and printed by `serde_json`. The few functions that call it are in `src/codec.rs`,
each with a contract that says what is believed of it. Everything else is proved.

## Building

`app/` needs the controller's SDK, and the pairing identity that Lutron publishes in the
environment variables `LAP_CERT_PEM` and `LAP_KEY_PEM`; built without them, it
says so where the pairing connection would be opened, and everything else works. That identity is not a secret: it lets a
client ask to be paired and nothing else, and what the bridge signs in reply is what authorizes
anything afterwards.
