# hw_control

Verified core of a Linux laptop hardware controller: a root daemon that
drives CPU/GPU fans from configurable fan curves and switches the GPU MUX
mode, and a desktop client that talks to it over a Unix socket.

* `src/` — the library, written in Verus and verified:
  * `curve` — linear interpolation of fan curves (temperatures in
    millidegrees Celsius), with proofs that a curve is exact at its points,
    never slows the fan as it gets hotter, and stays within its speeds;
  * `config` — the configuration types, the built-in configuration, and the
    sorting of loaded curves;
  * `hwmon` — classification of `/sys/class/hwmon` files, sensor readings,
    and the choice of CPU/GPU sensors and fans;
  * `daemon` — the daemon's state and its decisions: start-up and shutdown
    fan commands, control cycles, and request handling;
  * `gui` — the client's state and its reactions to daemon answers and to
    dragging curve points;
  * `ipc`, `sort`, `search`, `text` — message types, a stable sort by key,
    first/last-match searches, and text helpers.
* `app/` — ordinary Rust around the library: file and socket I/O, the
  scheduler thread, serialization (TOML/JSON), and the egui window.
  `hw-control daemon` runs the daemon, `hw-control gui` the client.
* `tests/` — tests of the library on concrete values.
