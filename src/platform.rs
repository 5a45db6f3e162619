//! Window-style decisions for a frameless window that keeps its resize
//! borders.
use vstd::prelude::*;

verus! {

/// The window-style bits of a title bar and its border.
pub const WS_CAPTION: u32 = 0x00C0_0000;

/// Attempts made to find the window and strip its title bar.
pub const STYLE_ATTEMPTS: u32 = 15;

/// Prepares the window where the platform needs a step for it; where the
/// platform draws a frameless window without help, there is nothing to do.
pub fn setup_frameless_resize() {
}

/// Milliseconds to wait before an attempt: longer before the first, while
/// the window is being created.
pub fn retry_delay_ms(attempt: u32) -> (r: u64)
    ensures
        r == (if attempt == 0 { 400u64 } else { 200u64 }),
{
    if attempt == 0 { 400 } else { 200 }
}

/// Whether a window style has no title bar.
pub fn caption_removed(style: i32) -> (r: bool)
    ensures
        r == (style & (WS_CAPTION as i32) == 0),
{
    style & (WS_CAPTION as i32) == 0
}

/// The style without its title bar, keeping every other bit.
pub fn strip_caption(style: i32) -> (r: i32)
    ensures
        r == style & !(WS_CAPTION as i32),
{
    style & !(WS_CAPTION as i32)
}

} // verus!
