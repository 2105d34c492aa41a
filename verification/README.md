# xiu

The verified core of a live media server, written in Verus.

- `src/` is the library, every function of it verified:
  - `bytes_io`, `text`: byte cursors and decimal text.
  - `amf0`: the AMF0 reader and writer, held to one wire grammar, with the
    law that what the writer writes the reader reads back.
  - `chunk`: the RTMP chunk stream packetizer and unpacketizer, with the
    law that a packetized message is read back whole.
  - `handshake`: the plain and digest RTMP handshakes; the HMAC-SHA256
    comes from the `hmac` and `sha2` crates.
  - `cache`: the GOP cache and the sequence headers a late player gets.
  - `channels`: the registry of published streams and their transmitters.
  - `hls`: request paths, blocking playlist requests, the playlist model
    and where the remuxer cuts segments.
  - `httpflv`: request paths and the FLV stream of one player.
  - `gb28181`: the session registry, dump records and the control API.
  - `wrappers`: the calls into code that is not verified (std's clock and
    UTF-8 check, `rand`, `hmac`), each with the contract it is trusted for.
- `tests/`: tests of the library on concrete values.
- `app/`: the sockets, files, HTTP servers and tasks around the library.

What `app/` does not do: the FLV demuxing and MPEG-TS muxing that turn a
published stream into HLS segments need crates this project does not have,
so no HLS segments are produced here. The library decides where segments
are cut (`hls::remuxer`, `hls::media`) and what the playlist says
(`hls::m3u8`); `app/hls_server.rs` serves the files and writes playlists
when asked, and a producer of segments would call those. Likewise the
GB28181 sessions only receive and dump their packets.
