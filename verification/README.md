# fetchline

Control of Feetech STS servos through an ESP32-C3 with Wi-Fi: the firmware's controller, the Linux
host that serves a control panel to browsers, and the tool that provisions Wi-Fi credentials.

`src/` is the verified library. It holds the decisions: packets and replies of the servo bus, the
JSON-RPC interface, WebSocket framing, controller ownership, the raw tunnel, the host's requests
and connections, its configuration and its log. Where the programs read, write or wait, the library
is a state machine: it is told what has happened and says what to do next.

| Module | What it decides |
| --- | --- |
| `protocol`, `wire` | the binary frames of the controller protocol and their byte orders |
| `controller`, `session` | STS packets, and which session owns the controller |
| `servo_bus`, `executor` | the instructions of each servo operation, and how a command runs |
| `rpc`, `raw_tunnel` | JSON-RPC requests and replies, and the raw UART tunnel |
| `websocket` | the handshake and the frames of the controller's WebSocket |
| `bridge`, `connect`, `host` | the host's side: requests, connections and answers |
| `host_config`, `host_log` | what the host stores and logs |
| `wifi_config`, `board` | provisioned credentials and the board's properties |
| `bounded`, `json`, `text` | fixed-capacity lists, JSON values and text |

`app/` holds the programs around it. `main.rs` is the host; under the name `provision-wifi` it
provisions a board. `firmware.rs` holds the firmware's services, and `board_main.rs` is the board's
own program, which is built for the ESP32-C3 only. The host serves the files of its UI from `web/`.

The contracts rest on a few outside calls whose behaviour is stated and not proved: SHA-1 and
Base64 in `websocket`, the `heapless` lists in `bounded`, the `serde_json` values in `json`, and
UTF-8 decoding in `text`. Each stands in a function marked `external_body` with its assumptions in
the doc comment.
