# bluetooth-getty

A small daemon that exposes a Bluetooth Serial Port Profile and attaches a login
prompt to each incoming RFCOMM connection, by handing the session to a systemd
getty unit.

- `src/` is the library: the rules of the daemon, verified with Verus.
  - `rfcomm`: the requests that create and release a tty, and the priming of a fresh one.
  - `buffer`, `shuttle`, `shuttle_laws`: the byte queues and the shuttle between the
    rfcomm tty and the PTY, and what holds of every session.
  - `session_proxy`: the life of a PTY proxy around the shuttle.
  - `profile`: which device has a session, and how connections are accepted.
  - `serve`, `systemd`: what is registered with bluetoothd and asked of systemd.
  - `errno`, `text`: error numbers and decimal numbers.
- `app/` is the program: sockets, ioctls, terminals, processes and D-Bus. It performs
  the actions that the state machines of the library ask for, and reports back.
- `tests/` runs the library.
