# Audio Hub core

The decisions behind Audio Hub, a Windows audio control centre, as a Verus
library with proved contracts.

- `src/` — the verified library: session naming and de-duplication, the
  unfocused-mute state machine and its whole round (`mute_round`), the per-device volume snapshots, the
  equalizer profile store and the Equalizer APO configuration text, the
  VoiceMeeter parameter plans, the simple-route and capture checks, the
  tray menu actions, notification coalescing, endpoint interface paths,
  autostart commands, profile names and paths.
- `tests/` — tests run against the compiled library.
- `app/` — the console program and some of the Windows and file I/O
  around the library: WASAPI listing and session volumes, the per-app
  output route, the unfocused-mute monitor, round and exit restore that
  hand the library its reads and mute calls, the speaker-follow handler, the `Run` key, and the
  settings, profile and restore-record JSON files. The other features'
  drivers (VoiceMeeter, simple route, Equalizer APO, capture, tray) are
  not written there.
