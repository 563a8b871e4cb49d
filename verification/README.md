# ZortilWatch

The verified core of a remote-desktop suite: a controller connects to a managed device by its number
and a password, sees its screen, controls it, and exchanges files and the clipboard with it.

- `src/` is the library, verified with Verus: the password-authenticated handshake and the sealed
  streams (`crypto`, `session`), framing of media and files (`media`, `files`), signalling and the
  setup of a connection (`signal`, `connection`, `connect`), the relay client (`relay`), the loops of
  the two sides (`controller`, `managed`, `host`), the system service (`service`), the desktop
  application (`desktop`, `portable`), the browser's side (`wasm`), and what they share. The loops are
  state machines: they take what happened and the time, and say what to do.
- `app/` runs them on sockets, files, threads and the system's services. Managing a device needs
  Windows; the desktop's commands are served over standard input and output, one JSON object to a line.
- `tests/` runs the library on concrete values.

Cryptography, the STUN codec, base64 and random bytes come from other crates. Each call into one of
them is a small function whose contract is trusted, and whose comment says what it claims.
