# agentic_api

A gateway in front of a vLLM server with the Responses API. It waits until the
server is ready, passes `POST /v1/responses` on to it, fills in credentials where
a client has none, and relays answers, streamed or in one piece.

* `src/`: the verified library. `proxy` decides what passes through an exchange
  and what the gateway answers itself, `server` how it waits for the server,
  `launch` and `config` what a command line comes to. `headers` and `json` hold
  what is taken on trust of the crates `http` and `serde_json`, and `text` works
  on strings. Functions named `law_...` state what holds of the library as a
  whole.
* `app/`: the program around it: command line, sockets, subprocess, HTTP.
* `tests/`: examples of both the ordinary and the odd cases.
