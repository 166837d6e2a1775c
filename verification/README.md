# media_source

The decisions of a music player's media sources, verified with Verus.

- `text`, `json`: searching, splitting and replacing text; reading JSON values.
- `artwork`, `track`: artwork URLs and their cover tags; tracks of the SoundCloud catalog.
- `scrape`: the web player's `client_id`.
- `request`, `search`, `resolve`: the catalog's requests, a search, and the way from a track id to
  the URL of its file.
- `cover`, `home`: which cover to look up; how the home page is laid out.

A conversation with the outside is a sequence of steps. A step names what to do next, and the
answer goes back to the value that the step carries. `app/` carries the steps out, with HTTP and
the user interface. The proof functions named `law_...` state what holds of several functions
together.
