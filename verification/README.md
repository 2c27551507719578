# lemonbot

A Discord bot that squawks when mentioned (and now and then on its own), and
reads the text of a guild's messages aloud in the voice channel it has joined,
using a Piper text-to-speech server.

- `src/` is the library, verified with Verus: what is said for each message
  (code blocks, spoilers, emojis, links and attachments turned into speech),
  the slash commands' decisions and answers, the paged model and speaker
  lists, the squawk schedule and cooldowns, and reading the settings.
- `app/` is the program around it: the Discord client, the voice connection,
  the database, HTTP requests to the Piper server and the files on disk.
- `tests/` runs the library on concrete inputs.

The voice parts of `app/` use the `songbird` crate, which `Cargo.toml` does not list.
