# drop_sharing

A file sharing tool over Wi-Fi Direct. Devices find each other and form a group
through wpa_supplicant, open a TCP connection over it, exchange ML-DSA-87
identities, agree on a key with ML-KEM-1024 and send the files in
ChaCha20-Poly1305 encrypted chunks.

## Layout

- `src/` is the library, verified with Verus: the wire formats of every message
  (encoders, decoders and their round-trip lemmas), message framing, signing
  and signature checks, the key agreement, chunked encryption, the sender's and
  the receiver's file transfer state machines, the sender's and the
  receiver's sessions (discovery, identity exchange and check, signed key
  agreement, and only then the confirmation) as state machines, the parsing of wpa_supplicant events, the choice of its control
  socket and of how to open the connection, and the user's answers. Calls into the cryptographic crates stand
  behind small trusted wrappers whose contracts name what they compute; the
  random draws (seeds, nonces, encapsulation messages) state only their length,
  and what is derived from them is named in terms of the draw.
- `app/` is the program around it: command line, sockets, files, the
  wpa_supplicant control socket and desktop notifications. It only moves bytes
  between the outside world and the library.
- `tests/` exercises the library with the real outside crates linked.

## Use

On the receiving device:

```sh
drop_sharing start-receiver            # confirm on the terminal
drop_sharing start-receiver --daemon   # keep running, confirm by notification
```

On the sending device:

```sh
drop_sharing start-sender <directory>
```

`DROP_SHARING_WPA_CTRL_PATH` selects the wpa_supplicant control socket where
there is not exactly one wireless interface.
