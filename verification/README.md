# aionui_channel

Chat channels for an assistant: messages come in from Lark, DingTalk, WeChat,
Slack and Discord, are tied to an authorized user, go to an agent, and the agent's
answers go back in the form that the platform wants. Telegram is known as a
platform, with its text format and its wire objects, but no plugin runs it.

The library in `src/` is written in Verus. It holds the rules and no input or
output:

- `text`, `text_map`, `json`, `random`: texts, ordered maps, JSON documents and
  random ids.
- `types`, `error`: the messages, buttons and errors that all platforms share.
- `formatter`: markdown and HTML in the dialect of each platform.
- `pairing`, `action`, `orchestrator`: who may write, what a button does, and
  what happens to the outcome of a message.
- `channel_settings`, `message_service`: which agent answers on a platform, and
  the conversation with it.
- `manager`: which plugins run, and what is stored about them.
- `plugins`: for each platform its requests and replies, its connection as a
  function from events to steps, and the messages that it carries. `callback`,
  `dedup`, `lifecycle`, `reconnect`, `time` and `token` are shared.

Each function states in its `ensures` what it returns; the functions named
`law_...` state what holds of several of them together. Calls into other crates
(`regex`, `serde_json`, `dashmap`, `base64`, `uuid`, `getrandom`) go through
small functions whose doc comments say what is taken for granted of the call.

`app/` is the service around the library: it sends the requests, keeps sockets
and timers, and reads and writes the stores that the application provides.
`tests/` runs the library on examples.
