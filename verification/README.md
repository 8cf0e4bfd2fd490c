# bony-build (verified core)

The logic of the Bony Build desktop coding assistant as a Verus-verified
library, with a thin unverified crate around it.

- `src/` — the library. Every function there is verified except a few
  small trusted wrappers (`#[verifier::external_body]`) around the calls
  into std and outside crates, whose contracts are believed, not proved:
  `text` (`String::push`, `str::to_lowercase`/`to_uppercase`,
  `char::to_lowercase`, `Path::file_name`, `Path::parent`), `plugins`
  (`std::path::is_separator`, `Path::join`, `Path`'s `==`), `git`
  (`Path::components`), `weather` (`urlencoding::encode`) and
  `agent_config` (`toml_edit`: finding `[skills].paths` in a config text,
  putting a new array there and printing the document, and the array's
  `new`, `len`, `get` and `push`). The new array itself is built by
  verified code.
  The modules:
  - `model` — the chat session state and the reducer that folds agent events
    into the timeline (stream merging, tool cards, plans, history views);
  - `timeline` — the timeline's items and their views;
  - `git` — parsing git's porcelain status, commit details and logs, the
    per-task worktree and branch names, and the arguments of each git call;
  - `bevy`, `openmontage` — the plugin panels' state machines, readiness
    from probes of the machine, and the skill and project files they write;
  - `task_list` — the sidebar: filters, project grouping, task titles;
  - `weather` — the weather tool's queries and its report;
  - `npc_ai` — the Unity NPC scripts and the editor snippet installing them;
  - `i18n` — UI languages and the message table;
  - `agent_config` — the skill list in the agent's `config.toml`;
  - `plugins`, `text`, `split` — shared text and path helpers.
- `app/` — processes, files, HTTP and worker threads: it probes, runs and
  reads, hands the results to the library as plain values, and performs
  what the library decides.
- `tests/` — tests of the library on concrete values.

Proved properties stand in `src/` as public proof functions named `law_*`.
