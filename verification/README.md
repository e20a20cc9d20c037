# sensor_guard

Monitoring of industrial sensor readings, verified with Verus.

`src/` is the verified library:

- `processor` — per-parameter rules: smoothing window of recent samples,
  sustained warning/critical timers, rate-of-change inputs, heartbeats;
  `processor_laws` states what holds across readings.
- `modbus_connector` — the Modbus polling schedule as a state machine
  (back-off, register order, what to publish, when to stop).
- `simulator` — simulated parameters, their ranges and random choices.
- `web_dashboard`, `ui`, `config`, `error` — static-file routing, the
  terminal dashboard's model, configuration decisions, error texts.
- `table`, `text`, `models` — keyed tables, string helpers, records.

Measured values are opaque to the library (`V`); averaging and threshold
comparisons in floating point are done by the program in `app/`, which also
holds the network, terminal and logging work.
