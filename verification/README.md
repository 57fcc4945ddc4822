# lora_online

Radio online control for orienteering. SportIdent punches read at remote control
points travel over LoRa to a base station, wait there in a buffer, and go on to
the event's results software.

`src/` is the library: everything that is decided or computed, with its contracts
proved by Verus.

- `sx127x`, `sx126x`: drivers of the transceivers, as machines that say what has
  to be done on the bus or the serial port and judge what came back.
- `sportident`: the station's protocol, card images, live punches and recovery of
  missed ones, plugging and unplugging.
- `lora_server`: the base station daemon, its frames, buffer, dashboard and
  terminal.
- `roc_server`, `lora_output`: the results servers.
- `lora_cli`: the terminal for a serial module.
- `esp32_node`: the node that reads a station and sends its punches.
- `text`, `decimal`, `html`, `env_file`, `clock`: what these share.

`app/` holds the programs around it: buses, ports, sockets, HTTP, SQLite and the
terminal. The first argument names the program (`lora-server`, `lora-tui`,
`roc-server`, `lora-output` or `lora-cli`); for an ESP32 the node's firmware is
built instead.

Statements that relate several functions are the public proof functions whose
names begin with `law_`.
