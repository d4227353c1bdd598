# multisink

Combines several PulseAudio/PipeWire outputs into one combined sink by
driving `pactl`, from the command line or from a small GTK window.

- `src/` is the verified library:
  - `text.rs`: trimming, line splitting, words, joining and decimal numbers over characters;
  - `pactl.rs`: reading `pactl list sinks short` (tab-separated index and name per line), `pactl list modules`, `pactl list sink-inputs short` and the output of `load-module`;
  - `sink.rs`: sinks, how they are made from the lines of `pactl list sinks short` (the name doubles as pretty name), and which of them to combine;
  - `flow.rs`: each operation (probe, list, enable, disable) as a state machine that decides the next `pactl` call from the last reply;
  - `cli.rs`, `panel.rs`: what the command line prints and what the window shows;
  - `error.rs`, `decode.rs`: errors and UTF-8 decoding.
- `app/` runs the flows against the real `pactl`, the module-id file and the GTK window.
