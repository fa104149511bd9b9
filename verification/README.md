# dscode

The verified core of an extensible code editor, written in Verus.

- `src/` is the library: the registries an editor keeps for commands,
  keybindings, menus, language features, tasks, themes, settings, debug
  sessions and the workspace; the reading of extension manifests; the
  explorer's listing rules; find and replace; the Debug Adapter Protocol's
  framing and messages. Every function carries a contract that Verus proves.
- `tests/` exercises the library on concrete values.
- `app/` holds what stays outside verification: file system, git, keychain
  and process I/O, settings files, and the serialized forms of the
  library's types.
