# efd-station

A software-defined radio station around an Elad FDM-DUO: a server that drives
the radio, and a window through which an operator uses it. The logic of both is
a library whose functions are proved against their contracts with Verus.

## Layout

- `src/proto` – messages between server and client, their encoding (bincode's
  variable-length integers behind a version byte), filters and modes.
- `src/cat` – the radio's commands and answers, polling, finding the serial
  port, and a responder that speaks the `rigctld` protocol.
- `src/audio`, `src/iq` – sound cards, recordings, and IQ samples over USB.
- `src/dsp` – decimation, framing, tuning, the DRM decoder's screen.
- `src/client` – what is shown, typed and clicked; the connection; the ring of
  samples for the loudspeaker.
- `src/text.rs` – text as sequences of characters.
- `tests` – the library on concrete values.
- `app` – the window, and the pieces that touch hardware, processes, sockets
  and floating-point numbers. It hands the library what it has read and does
  what the library decides.

## What is proved

Each public function says in its `ensures` what it returns for every input.
Properties that span functions are public proof functions named `law_…`: that a
frame decodes to the message it was made of, that a shown frequency can be typed
in again, that framing and decimation do not depend on how a stream is cut into
blocks, that a batch holds one command of each kind, and others.

## What is trusted

A few functions are taken at their documented word, each behind a declaration
whose doc comment says what it relies on: `String::push`, `String::from_utf8`
and `String::from_utf8_lossy` of the standard library, and `bincode`'s encoding
and decoding of single integers (`src/text.rs` and `src/proto/codec.rs`).
`bincode`'s error and the system's paths are carried as opaque values, of which
nothing is claimed.
