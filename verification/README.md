# invidious

An alternative front-end to YouTube. The crate is in two parts:

- `src/` is the library, written in Verus and verified. It holds the logic of
  the server: reading YouTube's internal API responses (`yt_backend::extractors`),
  sanitizing user-supplied YouTube URLs (`yt_backend::url_sanitizer`), the
  descriptions of the API clients and their request context and headers
  (`yt_backend::youtube_api`), the JSON answers of the `/api/v1` endpoints
  (`api`), authentication decisions, password and session handling (`auth`),
  configuration defaults (`config`), migration planning and playlist privacy
  (`db`), job descriptions and interval parsing (`jobs`), the media proxy's
  header and address rules (`proxy`), and the text of a video length
  (`templates`). JSON documents are held in the library's own `Json` type.
- `app/` is the server around it: command line, configuration file, logging,
  the HTTP router and handlers, the database queries, the HTTP clients that
  talk to YouTube, the background job runner and the HTML templates. It
  converts between `serde_json` values and `Json` and hands the library plain
  values.

`tests/` exercises the library from outside.
