# two_meat

The core of 2Meat, a bot that relays messages between chat services
(Discord first) through *transceivers*: each transceiver has an id and a
list of subscribers, the transceivers it broadcasts to.

Layout:

- `src/` — the verified library (Verus).
  - `transceiver` — the transceiver registry: unique ids, each transceiver's
    subscribers (those it broadcasts to),
    lookups and drops, with the laws that relate them.
  - `discord` — the first Discord design: transceivers in slots that commands
    empty, sender/receiver registries and the transferer.
  - `commands` — the command traits and, in `discord::impl_commands`, their
    implementations.
  - `interface` — the front ends' plain parts: the data of a Discord message
    and the bindings between transceivers and channels.
  - `model` — the message data and the text it is shown as.
  - `utils` — decimal text and the search for the smallest free number.
- `app/` — the program: the async runtime, the serenity client and the
  channels of the first design, and serde copies of the data types.
- `tests/` — tests of the library.
