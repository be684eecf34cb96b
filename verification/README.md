# yayti

Reads YouTube's pages and innertube API responses and writes what they hold
in the shape of the Invidious API: video titles, descriptions (with their
links as HTML), dates, counts, formats, captions, recommendations, music,
playlists and the JavaScript that deciphers stream addresses.

The library under `src/` is verified with Verus: each function states what it
returns over a model of the responses (`json::JsonValue`, viewed as
`json::JsonView`), and Verus proves the code against it.

- `json` — the JSON model, paths into it, and building objects member by member.
- `text`, `utf16` — strings as character sequences: search, replace, split,
  integers, UTF-16.
- `bindings` — the calls into `regex`, `urlencoding`, `chrono` and `substring`,
  each with the contract that the rest of the library relies on.
- `helpers` — thumbnails, sub-vectors, UTF-16 substrings, localized dates.
- `parsers` — the client context and the readers of the web, Android and TV
  responses and of the player script.
- `extractors` — the requests to make and what to take from the replies.
- `month_names` — month names of each language, read off dates the site shows
  in that language.

`app/` holds what talks to the network, to files, to serde and to the
JavaScript engine: fetching pages and API responses, reading and writing the
language and month data, running the deciphering scripts that the library
makes (in `boa_engine`) and handing their outcomes back, and converting
`serde_json` values to the library's model and back.
