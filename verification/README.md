# agent_tools

The tools of a chat assistant: what each is called with, what it decides, what it
answers. `src/` is verified with Verus. Every function there states what it returns
or changes, over plain mathematical models: a text is a sequence of characters, a
JSON value is what can be read off it one level deep, a path is its parts.

- `registry`, `tool_order`, `schema`, `meta`, `bundle`, `i18n`: which tools there are, what is said
  of them, in which language, and when they are offered.
- `code`, `fs`: an attached project and a folder; paths, reading, searching, editing,
  running commands.
- `notes`: long-term notes; recall, links, merging, overviews.
- `chats`, `history`, `attachment`, `search`: reading and searching conversations and
  attached files.
- `fetch`, `mcp`, `calc`, `dialogue`, `introspection`, `sampling`, `llm`, `datetime`,
  `control`, `code_search_probe`: the other tools.
- `present`, `console`: how a call is shown.
- `text`, `json`, `ids`, `times`, `order`: what the rest is built from.

What crates outside do for the library stands behind trusted items, each beside the
code that calls it, with a comment that says what is taken on trust.

`app/` is ordinary Rust around the library: files, processes, the network, floating
point. `tests/` runs the library on concrete values.
