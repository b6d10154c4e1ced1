# aerolink_simple

A bridge between a PC and a pair of LoRa nodes (one transmitting, one
receiving) that talk a small framed protocol over serial links.

`src/` is the verified library:

- `wire` – little-endian integer layouts;
- `node_packets` – the packets and the byte layout of their payloads;
- `node_codec` – the frame encoder and the streaming frame decoder, whose
  behaviour is stated as a state machine (`step`, `run`);
- `codec_laws` – what decoding gives back of what encoding wrote, and
  independence from how the byte stream is cut;
- `bridge`, `serial_bridge` – cutting outgoing data into TX packets, and what
  to do with the packets the nodes send back;
- `clients` – the UDP client lists of the UDP gateway;
- `input` – what the configuration prompts make of keys and typed lines.

`app/` holds the programs (`cli`, `serial`, `tcp`, `udp` modes): serial, network
and terminal I/O around the library.
