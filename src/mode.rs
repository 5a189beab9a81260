use vstd::prelude::*;

verus! {

/// The two addressable clipboard buffers.
#[derive(Clone, Copy, Debug, PartialEq, Eq, Structural, Hash)]
pub enum ClipboardMode {
    /// The standard system clipboard.
    Clipboard,
    /// The primary selection buffer.
    Selection,
}

/// Wire code of the system clipboard.
pub const CLIPBOARD_CODE: i32 = 0;

/// Wire code of the primary selection.
pub const SELECTION_CODE: i32 = 1;

/// The wire code that stands for `mode`.
pub open spec fn spec_mode_code(mode: ClipboardMode) -> i32 {
    match mode {
        ClipboardMode::Clipboard => CLIPBOARD_CODE,
        ClipboardMode::Selection => SELECTION_CODE,
    }
}

impl ClipboardMode {
    /// The mode's code in a request.
    pub fn code(self) -> (r: i32)
        ensures
            r == spec_mode_code(self),
    {
        match self {
            ClipboardMode::Clipboard => CLIPBOARD_CODE,
            ClipboardMode::Selection => SELECTION_CODE,
        }
    }

    /// The mode that a wire code stands for; `None` for an unknown code.
    pub fn from_code(code: i32) -> (r: Option<ClipboardMode>)
        ensures
            r matches Some(m) ==> spec_mode_code(m) == code,
            r is None <==> (code != CLIPBOARD_CODE && code != SELECTION_CODE),
    {
        if code == CLIPBOARD_CODE {
            Some(ClipboardMode::Clipboard)
        } else if code == SELECTION_CODE {
            Some(ClipboardMode::Selection)
        } else {
            None
        }
    }
}

} // verus!
