# matchmaking

The verified core of a matchmaking server. Players join the queue of a pool, rounds of matchmaking
turn waiting players into matches, and a match starts once all of its players are ready.

- `src/types.rs`: commands, events and the other values that go in and out, with their views.
- `src/model.rs`: the matchmaker as a mathematical state machine.
- `src/match_making.rs`: the matchmaker itself, proved to follow the model.
- `src/handlers/`: the messages of a client, and the course of a client's connection as a state
  machine.
- `src/services.rs`: what is asked of the services the server depends on, and when an answer counts
  as a yes.
- `src/laws/`: what holds of the server as a whole, as proved lemmas.
- `app/`: the program around the library: sockets, channels, HTTP and the loop that runs the
  matchmaker.

Players of a match are walked in the order in which they were named for it. A player who joins a
queue twice can be matched with themselves; such a match never starts.
