# helix-vue-proxy

An LSP proxy that gives [Helix](https://helix-editor.com/) full Vue support. It stands between
Helix and `vue-language-server`, and runs a `typescript-language-server` beside them:

- what Helix says goes to `vue-language-server`, and what that says goes to Helix, unchanged;
- the first `initialize` and the `didOpen`, `didChange`, `didClose` and `didSave` notifications
  go to `typescript-language-server` too;
- a `tsserver/request` of `vue-language-server` becomes a `workspace/executeCommand` for
  `typescript-language-server`, and its response comes back as a `tsserver/response`.

The library in `src/` is verified with [Verus](https://github.com/verus-lang/verus):

| module | what it holds |
|---|---|
| `json` | JSON values and what they mean |
| `codec` | JSON text, read and written by `serde_json` |
| `text` | characters, white space, decimal numerals |
| `transport` | the `Content-Length` framing |
| `message` | the messages that the proxy tells apart and builds |
| `bridge` | which tsserver requests wait, and for what |
| `proxy` | which message goes where: a machine from events to actions |
| `run` | what holds of every run of that machine |

The program in `app/` starts the two servers, reads and writes the messages, and asks the
machine what to do.
