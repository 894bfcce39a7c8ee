# linuxsgc

A Slint backend for Linux that renders one fullscreen window on a display card
leased from a graphics controller, and reads the input devices that come with
it. What it decides is verified with Verus; what it does to the outside is
ordinary Rust around that.

## Layout

`src/` is the verified library.

| module | what it is about |
| --- | --- |
| `sgc` | the session: what the controller offers, what is held, what to ask for |
| `lease` | the lease on the card: revoke, re-grant, which device is opened |
| `registry`, `flags`, `path` | granted input devices, their descriptors and paths |
| `handler`, `touch`, `keys` | what the window is told of an input event |
| `rotation`, `cursor`, `pixel`, `format`, `frame` | a frame of the software renderer and the cursor over it |
| `gl`, `renderer` | setting up GL, choosing a renderer, moving it to a new display |
| `eventloop` | how the event loop starts, goes round and ends |
| `backend`, `injected`, `clipboard` | the backend with a session, the one without, the clipboards |

`app/` performs what the library decides: the controller's socket, `fcntl`,
libinput, the event loop, Slint's platform interface and its renderers. The
display stack on the opened card and the window are brought in by the program.

`tests/` runs the library on concrete values.

## How the pieces meet

The library does no input or output. Where deciding and doing alternate, it says
what to do next and is told what came of it: `SharedState::pump_sgc` and
`action_performed` for the controller's events, `EventLoopState::advance` for the
event loop, `continue_gl` for the GL context, `continue_open_flags` for
descriptors. Where everything can be asked for at once, it says what to ask for and takes note of the answers:
`SgcSession::acquire_inputs` with `record_grants`,
`InputState::devices_to_add` with `add_pending_devices`.
