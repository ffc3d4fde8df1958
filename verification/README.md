# midi_struck

A parser for Standard MIDI Files and the MIDI messages they carry, written in
Verus: every parsing function states what it returns in its contract, and the
contracts are proved.

- `src/variable_length_quantity.rs`: the variable-length numbers of the format.
- `src/message_*.rs`: channel voice, system common and system real-time messages.
- `src/meta_event.rs`: meta events of a track.
- `src/note.rs`: note numbers, octaves and pitch classes.
- `src/file/`: the file itself: its chunks, the header chunk, track chunks and
  the events in them.
- `src/text.rs`: decimal and list formatting used by the descriptions.
- `app/lib.rs`: `file_dump`, which reads a file from disk and prints its contents.
- `tests/`: tests on concrete values, including one per law.
