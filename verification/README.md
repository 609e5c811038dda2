# neurox

The verified core of NeuroX, a network of neuron services watched by a
supervisor that answers an operator through a chat bot.

- `src/table.rs` — an insertion-ordered table keyed by text, with distinct keys
  as its type invariant, and the laws of storing into it.
- `src/supervisor.rs` — the supervisor's record of the latest status and
  metrics of each neuron, and its answers to the chat commands `/neuron_status`,
  `/neuron_metrics <id>` and `/help`.
- `src/telegram_bot.rs` — the chat id of the bot's configuration, read as a
  signed decimal integer.
- `src/messenger_api_client.rs`, `src/extensions/` — the messenger API client
  and the outgoing messenger extension.
- `src/activation.rs`, `src/weight_init.rs` — the names of the activation
  functions and of the weight initializer.

`app/` holds the program around it: the floating-point activation and weight
code, the RocksDB store, the channels, the RPC handlers and the Telegram
client.
