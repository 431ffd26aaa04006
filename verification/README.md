# telemetry_simulator

A terminal dashboard that simulates sensors, stores their readings in a
database and shows the data that the database returns.

- `src/` is the verified library: key handling and sensor selection
  (`app`), the one-minute window of readings (`window`), sensor names and the
  store of data windows (`sensors`), the query texts (`queries`), what the
  dashboard shows (`ui`) and decimal notation (`decimal`).
- `app/` is the program around it: terminal, event queue, database,
  worker threads, random Perlin-noise readings and everything that is
  floating point.
- `tests/` exercises the library.
