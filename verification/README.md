# stage_protocols

Verified decoders and encoders for three show-control wire protocols:

- `eap`: EtherCAT Automation Protocol network variables (Beckhoff TwinCAT),
  little-endian publisher telegrams.
- `otp`: ANSI E1.59 Object Transform Protocol, big-endian nested PDUs carrying
  transform and advertisement messages.
- `psn`: PosiStageNet v2, little-endian chunk trees carrying tracker data and
  system/tracker info.

Layout:

- `src/` is the library, written in Verus. Every decoder's result is stated as
  a spec function of the input bytes (errors and their offsets included), every
  encoder's output as a spec function of the value's model, and the readers'
  `next` as popping the sequence of items still to come. Public proof
  functions state the laws: decoding what an encoder writes gives the value
  back, readers hand out a run of PDUs or chunks in order and end after an
  error, a reader's base only shifts error offsets.
- `tests/` runs the library on concrete inputs.
- `app/` holds what stays outside the verified library: sockets, floating-point
  views and unit conversions, and error types with `Display`.
