# pagezest

A small blog server whose posts are markdown documents stored in a binary form, pre-rendered
to HTML when they are saved, and served with their custom tags (`[[name attr="v"]]…[[/name]]`)
resolved: `custom-html` by its content, `posts` by a list of the stored posts, any other name
by a WebAssembly plugin. After each request the server reports how much the process's memory
grew.

- `src/` is the library, verified with Verus: HTML escaping and number formatting, custom-tag
  parsing, the renderers (of the token tree and of the JSON form of markdown blocks), the
  pre-rendering, the sharded post cache, the plugin registry with its output cache and the
  plugin call protocol, the file-store index, UUIDs, the bundled plugins' logic, the
  command line, and the checks the HTTP handlers make on what the editor sends.
  The plugin call is verified as far as its protocol goes (the input written at a fixed
  offset, the function called with that offset and the input's length, the output read up
  to its first NUL and decoded); what the plugin computes is not. Plugins run on a fuel
  budget, so one that never ends fails instead of hanging the server.
- `app/` is the server around it: argument handling, SQLite through sqlx, the actix-web
  handlers and routes, the cache actor, reading plugin modules and manifests from disk, and the serde
  forms of the library's records.
- `tests/` runs the library on concrete inputs, plugins included (small WebAssembly modules).

The reader and writer of the documents' binary form are generated from a schema that is not
part of this tree. Without them `app/` refuses every document, so the server as it stands can
neither store a post nor serve one; the library renders documents given as values.
