# clounar

A local bridge that serves the messages API to a coding client and answers
it with Perplexity searches made with the browser's session cookies.

The decisions of the bridge are a library verified with Verus (`src/`):

- `json`, `text`, `strmap`: JSON documents, strings and small maps as plain
  values, with the specifications that the rest is stated over.
- `anthropic`, `server`: reading requests (what the user asked, the tools
  offered, the environment in the system prompt), the short answers given
  at once, and the server-sent events of a streamed answer.
- `perplexity`: the search request body, the reading of the answer's event
  stream, the retry rule, the session cookie and the models an account may
  use.
- `bridge`, `planner`, `validation`, `artifact`, `prompts`: the tool table,
  the capability registry, task planning into an execution graph, argument
  and path validation, the artifacts that steps produce, and the prompt
  templates.

`app/` is the program around it: configuration loading, the HTTP server,
the Perplexity client and the on-disk tool cache.

`tests/` runs the library on concrete values.
