# things_cli

A command-line client library for Things Cloud, verified with Verus.

The state of a Things account is the replay of its cloud history: each
history item creates, updates or deletes objects (tasks, checklist items,
tags, areas). The library replays that history into a store of tasks, areas
and tags, answers the views' queries (Today, Inbox, Anytime, Someday,
Logbook, projects, areas, tags), resolves short ids, and decides what each
command commits and prints.

## Layout

- `src/` — the verified library.
  - `wire`, `json`, `keymap`, `text`, `sorting`: wire-format values, JSON
    values, keyed maps, text helpers and stable sorts.
  - `replay`, `props`, `store`, `things`: history replay and the store built
    from it.
  - `prefixes`, `lookup`, `query`: short ids, lookups and the views' lists.
  - `common`, `listing`, `widgets`, `spans`, `views`: what the listings and
    views show, line by line and piece by piece.
  - `patch`: partial updates and the properties they are sent as.
  - `commands`: what each command decides from the store and its arguments.
  - `cloud_writer`: committing history items.
- `tests/` — tests on concrete stores and values.
- `app/` — the command-line program: argument parsing, reading the history
  file, printing, and the commit loop.
