# vlcsync

Peer-to-peer synchronisation of media playback: players on several machines are kept
at the same position and play state by exchanging small messages.

`src/` is the library, verified with Verus: the 32-byte message and event block
formats and their parsers, friend codes (socket addresses written in base 62), the
STUN binding request and the reading of its reply, the merging of peers' event
groups, the decisions that keep a local player in step with its peers, the parsing of what the supported players report, and the routing of log
records. Laws about them (round trips of the encodings, how event groups merge, what
a turn of the relay loop does) stand in `src/` as proof functions.

`app/` is the command-line program around it: arguments, sockets, the player
processes and requests, and the logger. `tests/` runs the library on concrete values.
