# mado

The verified core of Mado, a minimal Neovim GUI client. Mado starts Neovim in
embedded mode, mirrors its line-grid UI in a GPU-rendered window and forwards
keyboard, mouse and committed IME input to Neovim.

- `src/` is the library, written in Verus: decoding of MessagePack-RPC
  messages and `redraw` batches, the grid model and its updates, IME
  composition, key encoding, text widths and the preedit window, cursor
  blinking, and the per-frame drawing plan in cell units. Each public
  function states its result over mathematical models (`GridModel`,
  `MsgModel`, character sequences), and `grid_laws.rs` and the `lemma_*`
  proof functions state properties that span several calls.
- `app/` is the program around it: the winit event loop, the wgpu/glyphon
  renderer (pixel geometry is floating-point), the Neovim child process and
  its reader thread, settings files and platform integration.
- `tests/` exercise the library on concrete values.
