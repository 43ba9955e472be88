# wluma

Adjusts the brightness of screens by what they show and by the ambient light.

- `src/` is the library: what the daemon decides, reads and remembers. Every
  function has a contract that Verus proves. What rests on outside code is marked
  `external_body` or `assume_specification`, each with a comment that says what is
  believed of it.
- `tests/` runs the library on concrete values.
- `app/` is the daemon around it: files, sockets, D-Bus, Wayland, PipeWire, Vulkan
  and the computations in floating point.

## Modules

| Module | Holds |
| --- | --- |
| `als` | sources of ambient light, and when a reading counts |
| `brightness` | backlights and DDC/CI displays, steps towards a brightness |
| `cli` | the command line |
| `config` | the configuration, its checks and the discovery of outputs |
| `control` | requests on the control socket, answers and status |
| `frame` | formats, devices and memory of captured frames, choice of capturer |
| `idle` | when the user is away |
| `maps` | maps by name and by threshold |
| `predictor` | what was learned, and what follows from it |
| `runtime` | which outputs have a session, and when that changes |
| `state` | where data of earlier versions is moved |
| `text` | characters, numbers and paths |
