# tagbot

A Telegram bot for group mentions: people join named tags in a chat
(`/join devs`), and `/call devs` mentions everyone in the tag. `/call` with
no tag calls the default tag `алл`, leaving out those who muted all calls.
`/list` shows the chat's tags, `/ask` picks one member at random, `/mute`
and `/unmute` control whether one is called. Any message sent to the bot in
a private chat registers its sender for private notices.

- `src/` is the verified library (Verus): text rules (`text`), users and
  mentions (`models`), the tag store (`db`), one module per command
  (`commands`), and properties that span several operations (`laws`).
- `app/` is the program around it: the Telegram dispatcher, the SQLite file
  that keeps the store between runs (it writes the rows each reply lists as
  changed), and sending the messages the library returns.
- `tests/` runs the library on concrete chats.
