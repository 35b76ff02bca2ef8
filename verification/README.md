# attini

The verified core of a coding agent that talks to a DeepSeek-compatible chat
API. `src/` holds everything that decides or computes, with contracts that
Verus proves; `app/` holds the program around it: files, processes, sockets and
the command line.

| Module | What it does |
| --- | --- |
| `sansio` | the agent's state machine, tool calls, permissions, chat messages, server-sent events, screens |
| `agent_cli` | the agent loop: caps, approvals, compaction, prompts, wording |
| `plan`, `plan_cmd` | plan files, their seals and snapshots, and the commands on them |
| `permissions` | rule files and what they grant |
| `rpc` | the server for one client: messages and what each leads to |
| `deepseek`, `curl` | requests and streamed responses |
| `child_output` | output of child processes: what is kept and what is shown |
| `json`, `text`, `shell`, `time`, `model` | what the rest is built on |

The laws of the library are public proof functions whose names start with
`law_`. What is believed without proof are the contracts of the functions
marked `#[verifier::external_body]`, each of which calls one function of
`nojson`, `sha2`, `shiguredo_http11` or the standard library.
