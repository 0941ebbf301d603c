# jsworkers

The book-keeping and message routing of the JavaScript workers of a box,
verified with Verus.

- `src/` is the verified library:
  - `strmap`: a map keyed by strings, kept in insertion order;
  - `jsworkers`: the description of a worker and its key;
  - `workers`: the set of workers, and the values stored for them;
  - `broker`: named actors reached through channels;
  - `sparrow`, `frames`: the BitSparrow frames exchanged with the runner;
  - `connection`: what a websocket connection does on open, message, close;
  - `actor`: what the `workers` actor does with each message;
  - `router`: the decisions of the HTTP routers;
  - `context`, `events`: the shared context and the events sent to clients.
- `app/` holds the I/O around it: the sqlite table, the websocket server and
  the threads of the runtime, the iron handlers, and the JSON forms.
- `tests/` exercises the library.
