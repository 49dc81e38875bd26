# vnc-bridge

A bridge between a VNC server and a browser, over a WebRTC data channel, with MQTT for
signaling. The logic is written and proved in Verus.

- `src/` is the verified library. It does no I/O: it takes in what happened and says
  what is to be done next.
  - `signaling`: MQTT settings, topics and messages, the loop on the connection and the
    loop that serves its messages.
  - `webrtc_peer`: the configuration of the peer connection, the steps that answer an
    offer, and remote ICE candidates.
  - `vnc_pipe`: the bridge with its one session, and the pipe to the VNC server.
  - `bootstrap`: the agent's keys, signed requests to the gateway, and retries.
  - `text`: operations on text.
  - `crypto`: the contracts of base64, Ed25519 and UUID functions of other crates. They
    are believed, as is the one of the session description parser in `webrtc_peer`.
- `app/` is the program around it: arguments, sockets, MQTT, HTTP, WebRTC and JSON.
- `tests/` runs the library on concrete values.

## Usage

```bash
vnc-bridge \
  --vnc 127.0.0.1:5900 \
  --mqtt wss://broker.example/mqtt \
  --token <MQTT_TOKEN> \
  --topic devices/<INSTANCE_ID> \
  --ice-servers '[{"urls":["stun:stun.example:19302"]}]'
```

Each flag can also be set in the environment: `VNC_ADDR`, `MQTT_BROKER_URL`,
`MQTT_TOKEN`, `DEVICE_TOPIC`, `ICE_SERVERS`.
