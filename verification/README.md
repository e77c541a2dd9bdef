# localtransfer

Copies folders between two computers on the same network, and holds the
first pieces of a relay that helps two peers connect to each other.

A client sends each file of a folder in a request of its own: an operation
byte, the file's path with its length and CRC-32, then the file's length, its
data and the data's CRC-32, all numbers big-endian. The server checks both
checksums and saves the file below its saving directory.

The library in `src/` is verified with Verus:

- `checksum`, `endian`, `byte_buffer`, `text`: CRC-32, big-endian numbers,
  byte buffers and text, each with its specification;
- `client`: building requests and the running checksum of the data sent;
- `server`: decoding requests from a buffer that a stream fills, with a
  record of where each read of the stream went and what it returned, the
  saved location of a received path, and the answers;
- `relay`: the frames exchanged with the relay, the relay's decisions and
  the handshake of a peer that connects to another.

`app/` holds the program around it: the command line, sockets, the file
system and the relay's registry of connections.
