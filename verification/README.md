# button_hub

A hub that turns Zigbee button presses (arriving over MQTT from
Zigbee2MQTT) into events: it keeps a bounded log of them, hands each to the
handler registered for its button, serves them over a REST API and a
server-sent event stream, and drives two small desktop apps (an initiative
tracker and a timer switcher).

## Layout

- `src/` — the logic, verified with Verus:
  - `text` — decimal rendering, trimming, comma-separated id lists;
  - `event` — button actions and their wire names, events and timestamps;
  - `registry` — registered buttons (a `dashmap::DashMap` from id to the
    handle of its handler) and the bounded event log;
  - `api` — what each REST route answers, and when it refuses;
  - `mqtt` — turning a Zigbee2MQTT publish into an event;
  - `client` — the client's URLs, reconnection backoff and SSE framing;
  - `config` — the hub's settings and their defaults;
  - `dashboard` — what the web dashboard shows;
  - `keys`, `tracker`, `timer` — the two apps' state machines, colors and
    key and button bindings.
- `tests/` — tests run against the compiled library.
- `app/` — the programs around the library: the MQTT connection, the HTTP
  server and client, and the egui windows.

Each public function states its result in its `ensures`; the properties that
span several calls (what a read gives back after a write, what undoes what,
what every command keeps) are proof functions named `lemma_*`.
