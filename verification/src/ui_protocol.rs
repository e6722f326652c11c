use vstd::prelude::*;

use crate::msgpack::{is_key, MsgValue};

verus! {

/// Why Neovim cannot host Mado's user interface.
#[derive(Debug, Clone, Copy, PartialEq, Eq)]
pub enum LinegridError {
    /// `nvim_get_api_info` did not return `[channel, metadata-map]`.
    InvalidMetadata,
    /// The metadata does not list `ext_linegrid` among its UI options.
    Unsupported,
}

/// The metadata map of an `nvim_get_api_info` reply.
pub open spec fn api_metadata(api_info: MsgValue) -> Option<Seq<(MsgValue, MsgValue)>> {
    match api_info {
        MsgValue::Array(items) => if items@.len() > 1 {
            match items@[1] {
                MsgValue::Dict(entries) => Some(entries@),
                _ => None,
            }
        } else {
            None
        },
        _ => None,
    }
}

/// `options` is an array that holds the string `ext_linegrid`.
pub open spec fn lists_linegrid(options: MsgValue) -> bool {
    match options {
        MsgValue::Array(items) => exists|j: int|
            0 <= j < items@.len() && #[trigger] is_key(items@[j], "ext_linegrid"@),
        _ => false,
    }
}

/// Some `ui_options` entry of the metadata lists `ext_linegrid`.
pub open spec fn advertises_linegrid(entries: Seq<(MsgValue, MsgValue)>) -> bool {
    exists|i: int|
        0 <= i < entries.len() && #[trigger] is_key(entries[i].0, "ui_options"@) && lists_linegrid(
            entries[i].1,
        )
}

fn is_string(value: &MsgValue, text: &str) -> (r: bool)
    ensures
        r == is_key(*value, text@),
{
    match value {
        MsgValue::Str(s) => *s == String::from_str(text),
        _ => false,
    }
}

fn lists_linegrid_exec(options: &MsgValue) -> (r: bool)
    ensures
        r == lists_linegrid(*options),
{
    match options {
        MsgValue::Array(items) => {
            let mut j: usize = 0;
            while j < items.len()
                invariant
                    *options == MsgValue::Array(*items),
                    j <= items@.len(),
                    forall|k: int| 0 <= k < j ==> !#[trigger] is_key(items@[k], "ext_linegrid"@),
                decreases items@.len() - j,
            {
                if is_string(&items[j], "ext_linegrid") {
                    assert(is_key(items@[j as int], "ext_linegrid"@));
                    assert(options->Array_0 == *items);
                    return true;
                }
                j += 1;
            }
            assert(options->Array_0 == *items);
            false
        },
        _ => false,
    }
}

/// Checks that Neovim supports the line-grid UI protocol Mado speaks, from
/// the reply to `nvim_get_api_info`.
pub fn ensure_linegrid_support(api_info: &MsgValue) -> (r: Result<(), LinegridError>)
    ensures
        match api_metadata(*api_info) {
            None => r == Err::<(), LinegridError>(LinegridError::InvalidMetadata),
            Some(entries) => r == if advertises_linegrid(entries) {
                Ok::<(), LinegridError>(())
            } else {
                Err(LinegridError::Unsupported)
            },
        },
{
    let entries = match api_info {
        MsgValue::Array(items) => {
            if items.len() > 1 {
                match &items[1] {
                    MsgValue::Dict(entries) => entries,
                    _ => {
                        return Err(LinegridError::InvalidMetadata);
                    },
                }
            } else {
                return Err(LinegridError::InvalidMetadata);
            }
        },
        _ => {
            return Err(LinegridError::InvalidMetadata);
        },
    };
    let mut i: usize = 0;
    while i < entries.len()
        invariant
            api_metadata(*api_info) == Some(entries@),
            i <= entries@.len(),
            forall|k: int|
                0 <= k < i ==> !(#[trigger] is_key(entries@[k].0, "ui_options"@) && lists_linegrid(
                    entries@[k].1,
                )),
        decreases entries@.len() - i,
    {
        if is_string(&entries[i].0, "ui_options") && lists_linegrid_exec(&entries[i].1) {
            assert(is_key(entries@[i as int].0, "ui_options"@));
            return Ok(());
        }
        i += 1;
    }
    Err(LinegridError::Unsupported)
}

/// The arguments of `nvim_ui_attach`: the grid size and the options
/// `{rgb = true, ext_linegrid = true}`.
pub fn ui_attach_params(width: u64, height: u64) -> (r: Vec<MsgValue>)
    ensures
        r@.len() == 3,
        r@[0] == MsgValue::Integer(width as i128),
        r@[1] == MsgValue::Integer(height as i128),
        r@[2] matches MsgValue::Dict(options) && options@.len() == 2 && is_key(
            options@[0].0,
            "rgb"@,
        ) && options@[0].1 == MsgValue::Boolean(true) && is_key(options@[1].0, "ext_linegrid"@)
            && options@[1].1 == MsgValue::Boolean(true),
{
    let mut options: Vec<(MsgValue, MsgValue)> = Vec::new();
    options.push((MsgValue::from_str("rgb"), MsgValue::Boolean(true)));
    options.push((MsgValue::from_str("ext_linegrid"), MsgValue::Boolean(true)));
    let mut params: Vec<MsgValue> = Vec::new();
    params.push(MsgValue::from_u64(width));
    params.push(MsgValue::from_u64(height));
    params.push(MsgValue::Dict(options));
    params
}

/// The arguments of `nvim_input_mouse` for a mouse event at (`row`, `col`)
/// of the main grid.
pub fn mouse_input_params(button: &str, action: &str, modifiers: &str, row: u64, col: u64) -> (r:
    Vec<MsgValue>)
    ensures
        r@.len() == 6,
        is_key(r@[0], button@),
        is_key(r@[1], action@),
        is_key(r@[2], modifiers@),
        r@[3] == MsgValue::Integer(1),
        r@[4] == MsgValue::Integer(row as i128),
        r@[5] == MsgValue::Integer(col as i128),
{
    let mut params: Vec<MsgValue> = Vec::new();
    params.push(MsgValue::from_str(button));
    params.push(MsgValue::from_str(action));
    params.push(MsgValue::from_str(modifiers));
    params.push(MsgValue::Integer(1));
    params.push(MsgValue::from_u64(row));
    params.push(MsgValue::from_u64(col));
    params
}

/// The `nvim_cmd` dictionary for `:confirm edit <path>`, with file-name
/// expansion and `|` handling switched off so that any path is taken as it is.
pub open spec fn edit_command_ok(command: MsgValue, path: Seq<char>) -> bool {
    match command {
        MsgValue::Dict(entries) => {
            &&& entries@.len() == 4
            &&& is_key(entries@[0].0, "cmd"@) && is_key(entries@[0].1, "edit"@)
            &&& is_key(entries@[1].0, "args"@)
            &&& entries@[1].1 matches MsgValue::Array(args) && args@.len() == 1 && is_key(
                args@[0],
                path,
            )
            &&& is_key(entries@[2].0, "magic"@)
            &&& entries@[2].1 matches MsgValue::Dict(magic) && magic@.len() == 2 && is_key(
                magic@[0].0,
                "file"@,
            ) && magic@[0].1 == MsgValue::Boolean(false) && is_key(magic@[1].0, "bar"@)
                && magic@[1].1 == MsgValue::Boolean(false)
            &&& is_key(entries@[3].0, "mods"@)
            &&& entries@[3].1 matches MsgValue::Dict(mods) && mods@.len() == 1 && is_key(
                mods@[0].0,
                "confirm"@,
            ) && mods@[0].1 == MsgValue::Boolean(true)
        },
        _ => false,
    }
}

/// The arguments of `nvim_cmd` that open `path` in Neovim, asking for
/// confirmation instead of dropping unsaved changes.
pub fn open_file_params(path: &str) -> (r: Vec<MsgValue>)
    ensures
        r@.len() == 2,
        edit_command_ok(r@[0], path@),
        r@[1] matches MsgValue::Dict(opts) && opts@.len() == 0,
{
    let mut args: Vec<MsgValue> = Vec::new();
    args.push(MsgValue::from_str(path));
    let mut magic: Vec<(MsgValue, MsgValue)> = Vec::new();
    magic.push((MsgValue::from_str("file"), MsgValue::Boolean(false)));
    magic.push((MsgValue::from_str("bar"), MsgValue::Boolean(false)));
    let mut mods: Vec<(MsgValue, MsgValue)> = Vec::new();
    mods.push((MsgValue::from_str("confirm"), MsgValue::Boolean(true)));
    let mut entries: Vec<(MsgValue, MsgValue)> = Vec::new();
    entries.push((MsgValue::from_str("cmd"), MsgValue::from_str("edit")));
    entries.push((MsgValue::from_str("args"), MsgValue::Array(args)));
    entries.push((MsgValue::from_str("magic"), MsgValue::Dict(magic)));
    entries.push((MsgValue::from_str("mods"), MsgValue::Dict(mods)));
    let mut params: Vec<MsgValue> = Vec::new();
    params.push(MsgValue::Dict(entries));
    params.push(MsgValue::Dict(Vec::new()));
    params
}

} // verus!
