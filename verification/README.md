# rsmpp

The protocol core of an SMPP v3.4 client, written in Verus: PDU encoders and
parsers, the GSM 7-bit, Latin-1 and UCS-2 text encodings, message splitting into
segments, and the decisions of a client session (what to report and what to send
for each user command and each PDU that the SMSC sends).

- `src/` is the verified library. Each public function states in its contract
  what it returns; properties that relate several functions are public proof
  functions named `law_*`. The `smpp-codec` encoders and decoders, the message
  splitter, `regex` and `rand` are reached through small trusted wrappers
  (`codec.rs`, `responses.rs`, `deliver_sm.rs`, `chance.rs`, `text.rs`) whose
  doc comments say what is claimed of the outside code.
- `app/` is the program around it: the asynchronous event loop (tokio), the TCP
  and TLS connector, and a terminal front end.
- `tests/` runs the library on concrete inputs.
