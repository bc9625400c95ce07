# reaction_jail

The verified core of a Discord moderation bot. Members vote a message's
author into a "jail" role with cross reactions and out again with key
reactions; every flagged message is kept in a record file named after its
author, so that deleting it can be traced back.

- `src/` holds the rules, each with a contract proved by Verus: record files
  (`store`, `lines`, `folder`), decimal text (`decimal`), reactions and the
  jail rules (`reactions`, `moderation`, `handler`), and reply texts
  (`replies`).
- `app/` is the bot itself: Discord events, file access and JSON, calling
  the library for every decision.
- `tests/` runs the library on concrete values.
