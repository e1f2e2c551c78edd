# fedilinks

Fedilinks turns a URL into a short link under `http://fedilinks.net/`, of the
form `http://fedilinks.net/<platform>/<CODE>`, where `<platform>` is one of
`lemmy`, `pixelfed`, `mastodon` and `<CODE>` is eight letters or digits drawn
from random bytes. The library records `<platform>/<CODE> -> original URL`,
never over a code that is already taken, and reads a fedilink back to the URL
it stands for.

What is proved rests on the contracts given to the `url` and `getrandom`
calls in `src/urls.rs` and `src/entropy.rs`. Among them: for a base URL with a
rooted path and a path of plain letter/digit segments, `url` sets exactly that
path and parses it back unchanged. From these, `Fedilinker::create_fedilink`
is proved to return a link that the fedilinker reads back to its original URL,
and links made one after another are proved to differ.

Layout:

- `src/constants.rs`: the alphabet, base URL, platforms and store settings.
- `src/shortcode.rs`: short codes, map keys and store keys, platform checks,
  and the facts proved of keys.
- `src/fedilinker.rs`: the `Fedilinker` map, making and reading fedilinks, and
  the laws that tie the two together.
- `src/urls.rs`, `src/entropy.rs`: the calls into the `url` and `getrandom`
  crates, with the contracts the rest of the library relies on.
- `app/lib.rs`: the Cloudflare worker (routing, JSON, key-value store).
