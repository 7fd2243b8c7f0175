# btboy

A Telegram bot that follows anime releases: it polls RSS feeds, reads each
release title (episode, version, language, quality, codec, source), turns
feed items into magnet links (from the feed, or from a `.torrent`'s `info`
dictionary and trackers), pushes new episodes to a channel, and asks the
administrator when an episode comes from several sources or in several
versions.

## Layout

- `src/` — the library, verified with Verus:
  - `text`, `num` — characters and decimal numbers (trim, split, `to_string`, `from_str`);
  - `bencode` — finding a key's value in a bencoded dictionary;
  - `parser`, `pattern` — release titles (`title_from` reads what the
    patterns found; `parse_title` runs them);
  - `rss` — feed items and magnet links;
  - `filter`, `scheduler` — screening, deduplication, grouping, decisions,
    checks after each poll, the questions asked;
  - `answer` — the administrator's answers to those questions;
  - `commands`, `conversation`, `guide`, `replies`, `panels` — the bot's
    commands, conversations, the choices offered to a command sent without
    its arguments, replies, texts and keyboards;
  - `config`, `timing`, `tmdb`, `models`, `notifier`;
  - `laws` — properties that span several of the above.
- `app/` — the program: Telegram, HTTP, SQLite, logging and the polling loop.
- `tests/` — tests of the library.
