# Flight Chat

A desktop window onto a web chat. The user signs in to the chat in one window, a web view; the
main window, Flight, shows the conversation and sends messages through a bridge script that
runs in the page.

- `src/` is the library: which requests are accepted, what the host does for each command and
  in which order, the scripts for the page, the split view, and the cookies that may pass in
  and out. It is verified with Verus, but for the two functions named below.
- `tests/` runs the library.
- `app/` is the program: the windows, the web view's cookie store, and the bridge script.

Texts are sequences of characters, and a command is a *flow*: a list of actions, each with
what is told if it fails, and the answer after the last of them. The host performs the
pending action and reports its outcome; the first failure ends the flow.

Two functions call other crates and are believed rather than proved: `json::to_json`
(`serde_json`) and `address::parse_address` (`url`). Their contracts say what is believed.
