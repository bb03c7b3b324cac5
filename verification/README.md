# boundwire

A small publish/subscribe relay over TCP. Clients introduce themselves, subscribe to topics and
publish events; every frame, queue and connection count has a bound.

## Layout

`src/` is the library. Verus proves all of it.

- `protocol`, `names`: limits, client IDs, topics, errors.
- `message`: the messages and the bytes that stand for them.
- `wire`: byte buffers and big-endian integers.
- `codec`: messages to frames and back. `codec_laws`: what holds of both directions together.
- `channel`: how a connection is reached (`peer`), the record of what was done to connections
  (`record`), and the permits that bound their number (`places`).
- `broker_state`: what the broker knows and does, as mathematics. `broker`: the broker itself.
  `broker_laws`: what holds across its commands.
- `connection`: what one connection does about each thing that happens to it. `connection_laws`:
  what holds over all that happens to it.
- `server`: which connections are taken, when the server stops, what it reports. `server_laws`:
  what holds over all arrivals and departures.
- `client`: the exchange of a publisher or a subscriber with the server.
- `relay_laws`: what holds from a publisher through the server to a subscriber.
- `cli`, `text`: the command line, and numbers and errors as text.

`app/` is the program: sockets, timers, tasks and `main`. It performs the steps that `server`,
`connection` and `client` decide on, and hands back what came of them.

## What is not proved

Functions and types of `bytes`, `tokio`, `tokio-util` and the standard library are called through
declarations marked "Trusted" in `wire`, `channel` and `names`. The calls that queue a message,
cancel a token or ask for a permit give evidence of what they were called with. The record of what
was done to connections is written from that evidence alone, each call takes a turn of the record,
and a connection can be reached by turns of its own record only: the record tells of every call that
the library makes on a connection, and of no other. What a queue does with a message and whether a
permit is left are taken as they come: the library is proved for every outcome.
