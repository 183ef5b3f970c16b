# ecapplog

A client for [ECAppLog](https://github.com/RangelReale/ecapplog), a GUI for viewing debug logs,
verified with [Verus](https://github.com/verus-lang/verus).

`src/` is the library. It holds everything the client decides -- what goes on the wire, which
entries are kept, what the background worker does next, how records of the `log` facade and events
of `tracing` become entries -- as functions with contracts that Verus proves. Nothing in it touches
a socket, a thread or a lock.

`app/` is the running client around it: the background thread, the locks that handles share, the
error callback, and the implementations of `log::Log` and `tracing_subscriber::Layer`.

`tests/` runs the library.

## What is proved

* **The protocol.** A frame is a `u8` command, a `u32` big-endian payload length and the payload.
  Frames, the banner and payloads read back as what was written (`wire`).
* **Timestamps.** Every instant renders as `yyyy-MM-ddThh:mm:ss.zzz` in UTC, truncated to the
  millisecond. In the years that four digits can show, the text is 23 characters long, identifies
  its millisecond and sorts by time (`instants`).
* **The queue.** It is bounded, and past capacity the oldest entry goes: it keeps the newest ones
  that fit, in order, and counts the rest (`queue`).
* **The worker.** The banner is the first thing on every connection and is sent once on each. A
  closed client's worker runs out of steps, drains first if it is to, and does not wait for a GUI
  that is not there (`worker`). The flush timeout, counted from the close, is the ceiling on how
  long a close waits; the worker keeps to it too, but for what it was in the middle of (`closing`).
* **Delivery.** Whatever the connection does, each entry that was logged is delivered, waiting or
  counted as lost, in the order in which it was logged. A flush that succeeds means that nothing is
  waiting. While a client is open its worker goes on connecting and delivering (`delivery`).
* **The facades.** Which records are forwarded, under which category, and what their `source` says
  (`adapter_log`, `adapter_tracing`).

What is relied on of `serde_json` and of the standard library is stated in `json`, `clock`, `error`,
`priority` and `text`, each with the function it speaks of.

## Options

| Builder method | Default | |
|---|---|---|
| `app_name` | `ECAPPLOG-RUST` | The GUI labels the connection `<app_name>:<n>`. |
| `address` | `127.0.0.1:13991` | The GUI listens on loopback unless its `listen_all_interfaces` setting is on. |
| `buffer_size` | `1000` | Entries held while disconnected before the oldest are discarded. |
| `flush_on_close` | `true` | Whether closing drains the queue first. |
| `flush_timeout` | 5 s | Ceiling on how long closing may take. |
| `connect_timeout` | 10 s | Also the socket write timeout. |
| `reconnect_delay` | 5 s | Fixed, not exponential. |
