# soulrust

A Soulseek client. `src/` holds its components as verified functions: each takes what happened and
says what is to be done. `app/` is the program around them: sockets, files, clocks and processes.

| where | what |
| --- | --- |
| `session`, `net_edge`, `wire`, `frame` | the session with the server, its connection and its messages |
| `peer_net`, `peer_edge`, `transfer_io` | connections with peers: downloads, uploads, browsing, the distributed search tree |
| `shares`, `search_response` | what is shared, and answering searches from it |
| `extract`, `spotify` | turning what the user enters into searches |
| `ui`, `ui_theme`, `browse`, `web_bridge`, `html`, `template`, `format` | the web pages and what their forms do |
| `config`, `paths`, `updater`, `github`, `api_server` | settings, file names, updates, the status service |
| `proto`, `messages`, `messenger`, `slskd` | messages between components, and declaring who handles which |
| `text`, `tokens`, `order`, `names`, `json` | text, small maps and sorting that the others build on |

A component's state is a model (a struct over `Seq`, `int` and the like, often called `...Model` or
`...View`), and what a message does to it is a spec function `on_...` from model and message to the
next model and what is sent. The executable method of the same component is proved to do exactly
that. Properties that span functions are public proof functions whose names begin with `law_`.

What is not proved is what the few functions marked `external_body` say of `semver`, `buffa`,
`bincode` and the standard library; each says so above its contract.
