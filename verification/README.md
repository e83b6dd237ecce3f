# audio_relay

Desktop-audio relay: a WASAPI capture client, Opus framing of the captured
stream, a WebRTC sender setup, and a small HTTP signalling server through
which a sender publishes its SDP offer and a receiver returns its answer.

* `src/` — the verified library (Verus):
  * `mapper.rs` — the signalling state (offers, answers, id counter), its
    request handlers and expiry, each specified by a spec function over
    `MapperState`;
  * `route.rs`, `bean.rs`, `reply.rs` — routing, request bodies, replies;
  * `capture.rs` — capture settings, chunking of the capture queue, sample
    decoding and the cutting of 960-sample encoder frames;
  * `sender.rs` — the codec and ICE settings of the WebRTC sender and the
    assembly of its API object (through trusted wrappers of `webrtc`);
  * `laws.rs` — properties that span several operations.
* `app/` — the programs: the hyper/tokio signalling server with its JSON
  bodies, WASAPI capture, the Opus round trip, the
  registration of the sender's codec, and the actix page server.
* `tests/` — tests of the library.

Registering a codec with webrtc reads the system clock and panics where it
reads before the Unix epoch, so the library does not make that call: it
describes the Opus codec (`opus_codec_settings`), `app/sender.rs` registers it
on a fresh media engine, and `AudioSender::run` takes that engine, configures
the default interceptors and builds the API object.
