# designstorm

The verified core of Design Storm, a chat-first studio in which an agent
turns prompts and selected references into static HTML design documents.

`src/` is a Verus library. Each public function states in its contract what
it returns, over spec functions on plain values, and Verus proves it:

- `text`, `titles`, `handles`, `ids`: trimming, truncation, HTML escaping,
  titles, reference handles, UUID parsing and printing, download names.
- `workspace`, `preview`, `archive`, `scaffold`: workspace paths that cannot
  leave their root, preview sanitising, workspace archives (an archive holds
  exactly the workspace's files outside `inputs/`, and reads each back), the
  first files of a workspace.
- `generation`, `snapshot`, `prompts`, `session`, `storm`, `tools`: storm
  requests, the prompts of the design and director agents, the tool
  definitions and dispatch, the `make_design` call (at most one job per turn),
  the workspace state a run ends in.
- `html`, `time`, `provider`, `identity`, `assets`, `order`: the server-rendered
  fragments of the studio, the settings panel, sign-in profiles and cookies,
  upload checks, input file names, orderings.
- `crypto`: sealing and opening stored provider credentials
  (SHA-256 key, AES-256-GCM, base64), with the law that what is sealed opens
  to what was sealed.

Calls into outside crates (uuid, chrono, sha2, aes-gcm, base64, serde_json,
zip, mime_guess and `str::to_lowercase`) stand behind small trusted wrappers whose
contracts are written in their doc comments.

`app/` is the Axum server around the library: configuration, the database,
sign-in, the HTTP routes and the agents' conversation with an
OpenAI-compatible chat endpoint.
