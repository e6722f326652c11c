use vstd::prelude::*;

/// What is drawn for cells and the cursor, and the font roles of text.
pub mod appearance;
/// The settings Mado checks and its defaults.
pub mod config;
/// Choosing installed font families.
pub mod fonts;
/// The main grid and its redraw semantics.
pub mod grid;
/// Properties of the grid model.
pub mod grid_laws;
/// Input-method composition.
pub mod ime;
/// Keyboard and wheel input as Neovim expects it.
pub mod input;
/// Display widths, byte offsets and the preedit window.
pub mod layout;
/// MessagePack values.
pub mod msgpack;
/// The embedded Neovim's command line.
pub mod process;
/// Decoding `redraw` notifications.
pub mod redraw;
/// What a frame draws, in cell units.
pub mod render_plan;
/// MessagePack-RPC messages.
pub mod rpc;
/// Decimal text and character-level string helpers.
pub mod text;
/// The requests that set up Neovim's user interface.
pub mod ui_protocol;
/// The decisions of the window: IME availability, blink, mouse, titles.
pub mod ui_state;

verus! {

} // verus!
