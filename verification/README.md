# herdr-telescope

An fzf command telescope for [herdr](https://herdr.dev): one centered popup
that lists herdr's native actions (with the keybinding herdr actually has for
each), every installed plugin action, the live workspaces, and a file finder
with a ripgrep content search.

The library in `src/` holds the telescope's logic, specified and proved with
Verus:

- `keys`: the effective keybindings, rebuilt from the commented defaults and
  the user's `config.toml`, and how a binding renders as a shortcut.
- `native`: the native action table and its display rows.
- `palette`: the merged list, the fzf mode switches (`@` files, `/` search,
  backspace back), the argv every native action plans, dispatching a chosen
  row, agent and tab picks, and polling a plugin invocation's log.
- `files`: the file finder as a state machine, and the rows and paths it
  works with.
- `search`: the content-search rows and the preview painter that marks the
  search hits in bat's colored output without touching its visible text.
- `context`, `json`, `config`, `text`, `tty`: the origin context, plain models
  of the JSON and TOML documents read, string helpers, and pick-list plans.

`app/` is the executable around it: process spawning, the terminal, the
environment, and the loops that perform what the library decides.
