# Chat Cats

A chat bot for Discord that answers requests addressed to it ("cc ..." or
"chat-cats ..."): slaps, hugs, reminders, the time in a few time zones, and
a profanity filter.

- `src/` is the command logic, verified with Verus: recognising and routing
  requests, reading each command's requests, composing the answers, the
  small cache of user names, and the laws that hold of them.
- `tests/` runs the library on concrete requests.
- `app/` is the bot itself: it reads the configuration, talks to Discord
  and MongoDB, and carries out what the library decides.
