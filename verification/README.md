# thor

A TLS-terminating MQTT proxy. Clients connect over TLS with a client
certificate; the proxy checks the certificate against the CA's revocation
list and its validity period, then forwards the MQTT stream to the broker,
writing the certificate's common name into the CONNECT packet as user name
and/or client identifier.

The library under `src/` is verified with Verus:

- `cfssl` — the CFSSL definition types, the key material (`Pki`) with its
  revocation list and its periodic refresh, endpoint addresses, key conversion
  and CA loading decisions;
- `provision` — the state machine that reuses a stored certificate while the
  CA says it is valid, or has a new one issued and stores it;
- `proxy` — client-certificate authentication;
- `forward` — the client-to-broker half of a connection: the first packet, when it is a
  CONNECT, goes on with the certificate identity written in, every later byte unchanged;
- `packets` — the CONNECT fields as plain values and the MQTT packet calls;
- `config`, `signals`, `time`, `text` — settings layers and log level, the
  signals that stop the daemon, RFC 3339 dates, and string replacement.

`app/` is the daemon around it: command line, settings files, HTTP calls to
CFSSL, the TLS listener and the sockets.
