# codex_review_auth

Decisions of a coding agent's client, as a library verified with Verus.

- `auth_status`, `discovery`, `discovery_laws`: which authentication a streamable HTTP MCP server
  needs. The library says which request to make next and what follows from the reply.
- `well_known`, `scopes`, `text`: the well-known paths of OAuth metadata, the normalisation of
  scopes, and the text functions under both.
- `urls`, `headers`: the calls into `reqwest` for URLs and header maps. Their contracts are
  believed, not proved.
- `review`: the configuration of a review agent (`config`), the events of its conversation
  (`events`), how its output is read (`output`), and how the review mode is left (`exit`, `task`).

`app/` makes the requests, receives the events and calls the services of a session.
