# mstp_gateway

A BACnet router between an MS/TP (RS-485) network and a BACnet/IP network,
written for the M5StickC Plus2 with the RS-485 HAT, with its protocol logic
verified by Verus.

## Layout

- `src/` is the verified library. Each function states what it returns or
  changes in `requires`/`ensures` over mathematical models (views), and the
  library's laws stand there as public proof functions.
  - `crc`, `mstp_types`, `mstp_frame`: MS/TP frame encoding, CRCs, receive
    parsing.
  - `mstp_driver`, `state_machine`: the MS/TP master node state machine.
  - `npdu`, `router_msgs`, `bytes`: NPDU parsing and routing, network layer
    messages.
  - `gateway`, `gateway_tables`, `transaction`, `segmentation`: the router:
    address tables, BDT/FDT, confirmed-request tracking, segment reassembly.
  - `bip`: the BACnet/IP data link (BVLC messages, broadcast destinations).
  - `local_device`, `local_dispatch`, `rx_dispatch`: the gateway's own device
    object and the answers it gives.
  - `schedule`: which periodic jobs of the main loop are due on each pass.
  - `config`, `form`, `web`, `pages`, `display`, `text`: configuration and
    its stored form, the web portal's forms, JSON and HTML pages, what the LCD
    screens redraw.
- `tests/` exercises the library on concrete values.
- `app/` is the firmware around the library: WiFi, UART, UDP, the HTTP
  server, NVS storage, the LCD and the buttons.
