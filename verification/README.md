# bluehash

The BlueHash agent for Windows. A daemon holds the device's hardware identity key
(HIK, an X25519 pair) and the user's personal network key (PNK, a
ChaCha20-Poly1305 key), leaves the PNK with a broker, wrapped for each of the
user's devices, and answers a tray over the pipe `\\.\pipe\csi`. The broker's
rows do not name the sender, so a device reads what it wrapped for itself.

## Layout

`src/` is the library, verified with Verus. It does no I/O: a function that needs
work outside returns what is to be done, and another takes the outcome.

| Module | What it holds |
|---|---|
| `crypto` | keys: wrapping and unwrapping the PNK, the device's identity and its rotation |
| `keychain` | entries of the Windows Credential Manager and what its replies mean |
| `broker` | the requests to the broker, and what the replies mean |
| `distribution` | handing a key to all devices of a user, and receiving one |
| `ipc` | requests and responses between daemon and tray, and their framing |
| `manifest` | which encrypted file came from which original |
| `state` | what the daemon holds |
| `daemon` | what the daemon does with a request |
| `login`, `pairing`, `rotation` | the longer tasks of the daemon, step by step |
| `service`, `system`, `tray` | decisions around the service manager, the system and the tray |
| `encoding`, `identifier` | what base64 and UUID texts are, and that they are read back |
| `paths` | the name at the end of a path |
| `text` | the text functions that the others need |
| `outside` | the functions of other crates that the library calls, with the contracts it relies on |

`app/` is the program around it: HTTP, the pipe, the Credential Manager, the
service manager, and JSON. Started as `csi-tray` it is the tray, else the daemon.
`tests/` runs the library on concrete values.

## What is proved

Public functions state their results exactly. Two things stay open: of a random
key, nonce or identity a contract says what holds whatever comes out, and of the
name of an unlisted file what holds on every system, whose separators differ. Beyond that, functions
named for what they state stand at the end of their modules, among them: a stored
secret is read back and no other entry changes; framed messages are received as
they were; a distribution serves every device with a usable key exactly once; a
key that a device handed to itself is what it receives; a refused request changes
nothing; a logged-out daemon waits and refuses to decrypt.

Nothing is proved about `outside`: its contracts say what the called functions'
sources and documentation show.
