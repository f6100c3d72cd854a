# bycat_http

The request and response logic of a small asynchronous HTTP toolkit, and
the bookkeeping of a project generator built on it, written in Verus with
its behaviour stated in contracts and proved.

- `src/` is the verified library: CORS policy and the fields it sets,
  routing decisions and URL parameters, request body limits, error and
  JSON responses, bodies held in memory, the state machines of the
  middleware (`Or`, extraction, handlers, modifiers, the accept loop),
  filling the cookie jar and taking its changes, multipart boundaries, the
  URL of a `GET` request, fetched files' names and
  media types, and the generator's files, mounts, commands and run order.
  Calls into `relative_path`, `cookie`, `mime`, `multer`, `reqwest` and `std` stand
  behind a few trusted functions, each with a doc comment that says what
  its contract claims.
- `app/` holds what cannot be verified: moving values in and out of
  `http`, `hyper`, `reqwest`, `cookie`, `serde_json` and `multer` types,
  accepting connections, writing files and running processes.
- `tests/` runs the library on concrete values.
