# TunnelBridge

TunnelBridge makes TCP, UDP and web services behind a firewall reachable through a relay of one's
own. An agent next to the services keeps one carrier to the relay (QUIC, KCP over TLS, or a
WebSocket); the relay turns each public connection, UDP session or web request into a stream on that
carrier. Streams are opened with tickets that are good once and for a short time.

The library under `src/` holds the rules of both sides and is verified with Verus: what each
function does stands in its contract, and properties that hold across functions stand as proof
functions whose names start with `law_`.

| Module | What it is about |
| --- | --- |
| `net`, `socket`, `readback`, `text` | addresses, address blocks, and text |
| `wire` | frames and records on a carrier |
| `protocol` | what relay, agent and console say to each other |
| `config`, `agent_config` | the settings of the relay and of an agent |
| `clock`, `timing`, `ids`, `secrets` | times, intervals, identifiers, tokens and passwords |
| `registry`, `state` | what the relay knows |
| `auth`, `api` | sessions, devices, and the requests of the console and of agents |
| `tunnels`, `rows`, `table`, `db` | tunnels, and how they are stored |
| `gateway`, `flow`, `udp` | public connections from the source to the agent and back |
| `carrier` | the relay's side of a carrier |
| `geoip` | where a source is |
| `transport_identity`, `der` | the certificate of direct carriers and its public key |
| `runtime`, `agent`, `dial`, `local`, `reconnect`, `commands` | the agent |

`app/` is the program around it: sockets, the database, HTTP, the key store and the command line.
`tests/` runs the library on examples.

```text
tunnelbridge                 runs the relay; settings come from TB_* variables
tunnelbridge agent setup …   enrols an agent
tunnelbridge agent run       runs it
```
