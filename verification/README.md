# disco

The verified core of the disco audio-visualisation server, written in Verus.

- `src/` is the library, every function of it verified but one, the call
  that draws random session tokens, whose contract is trusted: the serial protocol
  of the LED strip controller (instruction codes, the wire encoding of
  integers, the configuration handshake as a step function), retry
  scheduling, session and instance bookkeeping, the sessions and their keyed
  stores, the checks the remote-control requests make and the registration
  of streams and analyzers, the sample buffers of the analyzers, the life of a viewer
  connection, beat peak detection and index sorting.
- `tests/` runs the library on concrete values.
- `app/` is the command line and the parts that need the operating system or
  floating point: the serial port, sleeping between retries, and the color
  and tempo arithmetic.
