# rustcord

Keeps a store of trading cards in step with a card source, and connects a bot
to the chat where the cards are asked for.

`src/` is the library: everything that decides something. It is written in
Verus, and what each function promises is proved. The proofs rest on the
contracts of a few items that stand for other crates and for the standard
library: those contracts are believed without proof, and each of these items says
in its comment what is believed of it.

- `bulk` reads bulk downloads, `bulk_fetch` decides where to get one from, and
  `bulk_cache` which kept download to use and which ones to delete.
- `search` collects the cards of several sets page by page, and `cards` turns
  cards into the records that are stored.
- `sets` knows which sets are recent, `source` what the card source has told of
  so far, and `emoji` for which sets and symbols an emoji is missing;
  `emoji_laws` says what holds of that from one question to the next.
- `response`, `rate`, `clock`, `discord` and `error` settle what to make of a
  response, how fast to ask, what day it is, what the bot listens to and how
  errors read.
- `data` and `text` hold the shapes of what is sent and the handling of text.

Proof functions whose names begin with `law_` state what holds of the library as
a whole.

`app/` is the service around the library: the network, the file system and the
types of the surrounding store. `tests/` runs the library on concrete values.
