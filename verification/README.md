# zagel

A desktop workbench for REST and GraphQL requests kept in `.http` files, with
environments from `.env` files.

- `src/` is the library, written in Verus: every function there carries a contract
  that Verus proves. It holds the file formats (`http_file`), the folders of projects
  and global environments (`pathing`, `domain`), the workspace of collections and its
  moves (`workspace`, `plans`), the request editor and its undo history (`editor`,
  `history`), the building of requests and the OAuth2 token exchange (`options`, `net`),
  the automation scenarios (`automation`, `runner`, `snapshot`) and the workbench state
  machine (`workbench`), whose handlers return what the window must do next.
  Laws that span several functions are public proof functions, named `lemma_*`.
- `app/` is the window, the file system, the network and the file watcher: it performs
  what the library asks for and hands the results back.
- `tests/` runs the library on concrete values.
