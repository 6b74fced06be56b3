# micast_broadcaster

The decisions of a small RTP radio station, written in Verus and proved
against their contracts:

- `src/scheduler`: time tables of spots, the `HH:MM` and weekday-list
  attributes they are written with, the runs of each spot on a day, and the
  time-ordered list of all runs.
- `src/broadcast`: the play queue and the life of its items and spots, the
  fallback stream, and where the mix is played to.
- `src/player`: the playback client's choices of server, clock and output, and
  the layout of its receiving pipeline.
- `src/services`: the announcements by which servers make themselves known on
  the local network, and how clients read and confirm them.
- `src/encryption`: the names and keys used to set up SRTP.
- `src/text.rs`, `src/weekday.rs`: digits, splitting and day names, with the
  facts about them that the proofs use.

`app/` holds what runs around the library: reading and writing time tables as
XML, and the UDP sockets and threads of the announcement services.
