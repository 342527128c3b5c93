# pvz_remote

Remote play of a desktop game from a browser: the game's video is streamed
over WebRTC and clicks on the video are sent back and replayed on the game
window.

- `src/` is the verified library: a FIFO linked list (`linklist::list1`),
  the scaling of a click from video to window coordinates and its packing
  into a mouse message (`control::control`), the replies of the signalling
  endpoint (`server`) and the session's reactions to connection-state
  changes (`webrtc::connect`).
- `app/` is the program around it: the HTTP server, the WebRTC session and
  the Win32 calls that click the game window.
