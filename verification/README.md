# fileshare

A small file hosting service for IRC clients: uploads are stored under a name
derived from their SHA-256 hash, and each stored file is served either raw or
as an HTML page with an Open Graph description for link previews.

- `src/` is the verified library (Verus): who may upload (`auth`), how an
  upload is named (`upload`, `encoding`), how a request is answered (`serve`,
  `media`, `templates`, `template`, `error`), and the text operations they are
  built from (`text`, `extensions`).
- `tests/` runs the library on concrete inputs.
- `app/` is the actix-web server around the library: request handling, file
  I/O, the serde and askama types, and the server's `main`.
