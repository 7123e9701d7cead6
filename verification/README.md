# opcua-plc-bridge

A bridge between PLCs and OPC UA clients. Tags of PLCs are polled over FINS/TCP or Modbus/TCP,
kept in a registry, and offered as variable nodes of an OPC UA server; what clients write is
carried back to the PLCs.

`src/` is the verified library. It decides and computes; it does no I/O.

- `core_model`: tag values and qualities, definitions, the registry and its store, JSON values.
- `driver_common`: byte orders, 16-bit words, read planning, health events, write confirmation.
- `driver_fins`, `driver_modbus`: mappings and their validation, value coding, frames, and the
  read/write cycle as a step function from event to action. Their `laws` modules state what
  holds of every cycle.
- `opcua_server`: configuration, address space, variants, reads and writes of a variable node.
- `runtime`: configuration rules, tag conversion, write routing, polling, the health board.
- `text`, `time`: texts and instants.

`app/` runs the library: command line, files, sockets, timers, channels and the native OPC UA
server. `tests/` exercises the library on concrete values.
