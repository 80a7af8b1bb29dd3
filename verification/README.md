# suitware

The verified core of a spacesuit software stack, written in Verus.

- `src/aparan`: messages, the context of a node (channels by topic,
  subscriptions, what a receive listens to) and the decisions of the `node`
  attribute.
- `src/suitware`: the application builder, its launch sequence as a state
  machine with proofs that a launch initializes every plugin, runs every system
  until it stops and then finishes, the MQTT client and the temperature service.
- `src/hal`, `src/server`, `src/sim`: the sensor trait, the unconnected
  sensor, the report built from a sensor's readings, and the simulator's
  service.
- `src/raa`: the temperature display (state, repaint, painted text).
- `src/synthesis`: the vehicle sound parameters.
- `app/`: the asynchronous and audio parts around the library (receiving with
  backoff, starting an application, the attribute rewrites, the MQTT reading
  loop, the synthesizer, the suit's sensor and the server's service).
