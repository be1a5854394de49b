# cex_core

Shared-memory ring channels that carry exchange market data (klines, snapshots,
orders, trades) between processes, with the feed clients that fill them and a dump
tool that drains them.

- `src/` is the library, proved with Verus:
  - `layout` — where the header ends and the slots begin in a ring mapping;
  - `ring` — every cursor decision of senders and receivers (send and receive
    windows, commits, peeking, popping, start positions), and `ring_laws` — what
    those decisions guarantee: sending appends, receiving takes from the front,
    an overwriting ring keeps its newest items, cursors stay within one lap;
  - `shm_chan`, `listing` — configuration, reports on existing rings, and listing
    them sorted by name;
  - `v1` — fixed-size text fields, with their round trip;
  - `quot` — decisions of the Binance and OKX feeds; `dump` — of the dump tool;
  - `text` — text search, integer parsing and equality, and the case mappings taken
    from the standard library.
- `app/` holds what touches the operating system: the mappings and their atomics,
  WebSocket clients, file output, and the record types with floating-point prices.
