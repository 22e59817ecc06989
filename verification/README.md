# NVDARemoteAudioServer

A small relay for low-latency remote audio links. Clients authenticate and keep themselves alive
over TCP; audio goes over UDP; the relay routes packets by key, from the one publisher of a key to
all of its active subscribers.

The decisions of the relay are a library verified with Verus:

- `src/protocol.rs`: messages, keys, session ids, and the UDP packets with their reading and
  writing.
- `src/framing.rs`: lines on TCP.
- `src/model.rs`: what the registry of sessions and streams is, as mathematics, and what each
  operation makes of it.
- `src/state.rs`, `src/streams.rs`: the registry itself, proved to do what the model says.
- `src/laws.rs`: what holds of the registry across operations.
- `src/server.rs`: what the relay does with connections, packets, audio in transit and status
  queries.
- `src/load_test.rs`: the load test's command line, traffic and expectations.
- `src/config.rs`, `src/endpoint.rs`, `src/error.rs`, `src/clock.rs`, `src/text.rs`,
  `src/big_endian.rs`: what these rest on.

`app/` is the program around it: sockets, tasks, timers, JSON and logs. Started under the name
`NVDARemoteAudioServer_load_test` it runs the load test.

```bash
NVDARemoteAudioServer --port=6838 --sport=6839 --log=/path/to/server.log
```

Counters and the load test's timestamps wrap around at the limits of their types. The clock, the
random source and the escaping of keys for logs are taken from the outside; what is relied on is
said at each place.
