# radrad

A small client for the radiko live radio service, split in two.

`src/` is the library, verified with Verus. It reads the station list and a
station's stream description (XML, through `quick_xml`), looks stations up,
runs the authorization handshake (partial key through `base64`, area check
through `regex`), resolves HLS playlists (through `m3u8-rs`), and keeps the
player's state. Every network exchange is a state machine: the library says
which request to send and takes the answer; it never does I/O itself.

`app/` is the program around it: an HTTP server (`actix-web`) with
`GET /radrad` and `POST /radrad/{play|stop}`, the requests (`reqwest`), the
`ffplay` process, signal handling, and the table of area coordinates.

`tests/` exercises the library on concrete documents and answers.
