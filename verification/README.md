# webrtc-datachannels

The logic of WebRTC data-channel peers, of their signaling, and of the conformance suite
that tests them, verified with Verus.

- `src/` is the library. It performs no I/O: each function says what a peer, a script or a
  server does next, given what has happened so far. Its contracts and laws are proved.
- `app/` is the command line around it: the conformance runner, the signaling server, the
  environments the suite runs in (loopback, network namespaces, the Shadow simulator,
  cross-runtime pairs), single peers over the `webrtc` stack, and the demos.
- `tests/` runs the library on concrete values.

The library calls `serde_json`, `base64` and `bytes` behind functions whose contracts are
taken on trust; each says so in its documentation.
