//! Choice of the command-line tool that types or pastes text on Linux.

use vstd::prelude::*;

verus! {

/// External tools able to synthesise key presses.
#[derive(Debug, Clone, Copy, PartialEq, Eq, Structural)]
pub enum InputTool {
    Wtype,
    Dotool,
    Xdotool,
}

/// The tool to use: on Wayland `wtype`, else `dotool`; on X11 `xdotool`;
/// `None` when the preferred tools are all missing.
pub fn choose_input_tool(wayland: bool, has_wtype: bool, has_dotool: bool, has_xdotool: bool) -> (r: Option<InputTool>)
    ensures
        r == (if wayland {
            if has_wtype { Some(InputTool::Wtype) } else if has_dotool { Some(InputTool::Dotool) } else { None }
        } else {
            if has_xdotool { Some(InputTool::Xdotool) } else { None }
        }),
{
    if wayland {
        if has_wtype {
            Some(InputTool::Wtype)
        } else if has_dotool {
            Some(InputTool::Dotool)
        } else {
            None
        }
    } else if has_xdotool {
        Some(InputTool::Xdotool)
    } else {
        None
    }
}

} // verus!
