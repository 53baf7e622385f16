//! The style bits of a window that the tiler reads and changes.

use vstd::prelude::*;
use windows::Win32::UI::WindowsAndMessaging::{WS_CAPTION, WS_EX_DLGMODALFRAME, WS_EX_LAYERED,
    WS_EX_TOOLWINDOW, WS_MAXIMIZE, WS_MAXIMIZEBOX, WS_MINIMIZE, WS_MINIMIZEBOX, WS_POPUP, WS_VISIBLE};

verus! {

/// The masks of the style bits that matter to the tiler. The last three are masks of
/// the extended style.
#[derive(Clone, Copy, Debug, PartialEq, Eq, Structural)]
pub struct StyleMasks {
    pub minimize: u32,
    pub minimize_box: u32,
    pub maximize_box: u32,
    pub maximize: u32,
    pub visible: u32,
    pub caption: u32,
    pub popup: u32,
    pub tool_window: u32,
    pub dialog_frame: u32,
    pub layered: u32,
}

/// What a window's two style words say, as far as the tiler asks.
#[derive(Clone, Copy, Debug, PartialEq, Eq, Structural)]
pub struct StyleFlags {
    pub minimized: bool,
    pub tool_window: bool,
    pub style_visible: bool,
    pub captioned: bool,
    pub popup_style: bool,
    pub dialog_frame: bool,
    pub layered: bool,
}

/// The masks as the windowing system defines them.
pub open spec fn system_masks() -> StyleMasks {
    StyleMasks {
        minimize: 0x2000_0000,
        minimize_box: 0x0002_0000,
        maximize_box: 0x0001_0000,
        maximize: 0x0100_0000,
        visible: 0x1000_0000,
        caption: 0x00C0_0000,
        popup: 0x8000_0000,
        tool_window: 0x0000_0080,
        dialog_frame: 0x0000_0001,
        layered: 0x0008_0000,
    }
}

/// Reads the constants `WS_MINIMIZE`, `WS_MINIMIZEBOX`, `WS_MAXIMIZEBOX`, `WS_MAXIMIZE`,
/// `WS_VISIBLE`, `WS_CAPTION`, `WS_POPUP`, `WS_EX_TOOLWINDOW`, `WS_EX_DLGMODALFRAME` and
/// `WS_EX_LAYERED` of the `windows` crate. Their values are taken on trust: each is
/// the number that the crate's source gives the constant.
#[verifier::external_body]
fn style_masks() -> (m: StyleMasks)
    ensures
        m == system_masks(),
{
    StyleMasks {
        minimize: WS_MINIMIZE.0,
        minimize_box: WS_MINIMIZEBOX.0,
        maximize_box: WS_MAXIMIZEBOX.0,
        maximize: WS_MAXIMIZE.0,
        visible: WS_VISIBLE.0,
        caption: WS_CAPTION.0,
        popup: WS_POPUP.0,
        tool_window: WS_EX_TOOLWINDOW.0,
        dialog_frame: WS_EX_DLGMODALFRAME.0,
        layered: WS_EX_LAYERED.0,
    }
}

/// The style of a window as a tile: the window's own style without the boxes to
/// minimize and maximize it, and not maximized.
pub open spec fn tile_style(style: u32) -> u32 {
    style & !system_masks().minimize_box & !system_masks().maximize_box & !system_masks().maximize
}

/// The extended style with the layered bit, which a window needs to be translucent.
pub open spec fn with_layer(ex_style: u32) -> u32 {
    ex_style | system_masks().layered
}

/// The extended style without the layered bit.
pub open spec fn without_layer(ex_style: u32) -> u32 {
    ex_style & !system_masks().layered
}

/// What the two style words say.
pub open spec fn flags_of(style: u32, ex_style: u32) -> StyleFlags {
    StyleFlags {
        minimized: style & system_masks().minimize != 0,
        tool_window: ex_style & system_masks().tool_window != 0,
        style_visible: style & system_masks().visible != 0,
        captioned: style & system_masks().caption != 0,
        popup_style: style & system_masks().popup != 0,
        dialog_frame: ex_style & system_masks().dialog_frame != 0,
        layered: ex_style & system_masks().layered != 0,
    }
}

/// The style to give a window that becomes a tile.
pub fn tiled_style(style: u32) -> (r: u32)
    ensures
        r == tile_style(style),
{
    let m: StyleMasks = style_masks();
    style & !m.minimize_box & !m.maximize_box & !m.maximize
}

/// The extended style to give a window that is to be translucent.
pub fn layered(ex_style: u32) -> (r: u32)
    ensures
        r == with_layer(ex_style),
{
    let m: StyleMasks = style_masks();
    ex_style | m.layered
}

/// The extended style to give a window that is to be opaque again.
pub fn unlayered(ex_style: u32) -> (r: u32)
    ensures
        r == without_layer(ex_style),
{
    let m: StyleMasks = style_masks();
    ex_style & !m.layered
}

/// Reads the two style words of a window.
pub fn read_styles(style: u32, ex_style: u32) -> (f: StyleFlags)
    ensures
        f == flags_of(style, ex_style),
{
    let m: StyleMasks = style_masks();
    StyleFlags {
        minimized: style & m.minimize != 0,
        tool_window: ex_style & m.tool_window != 0,
        style_visible: style & m.visible != 0,
        captioned: style & m.caption != 0,
        popup_style: style & m.popup != 0,
        dialog_frame: ex_style & m.dialog_frame != 0,
        layered: ex_style & m.layered != 0,
    }
}

/// Whether the style says that the window is minimized.
pub fn is_minimized(style: u32) -> (b: bool)
    ensures
        b == flags_of(style, 0).minimized,
{
    let m: StyleMasks = style_masks();
    style & m.minimize != 0
}

/// A tile's style has neither box and is not maximized; every other bit is the
/// window's own. Making a tile's style of a tile's style changes nothing.
pub proof fn lemma_tile_style(style: u32)
    ensures
        tile_style(style) & 0x0002_0000 == 0,
        tile_style(style) & 0x0001_0000 == 0,
        tile_style(style) & 0x0100_0000 == 0,
        tile_style(style) & !0x0103_0000u32 == style & !0x0103_0000u32,
        tile_style(tile_style(style)) == tile_style(style),
{
    let t = style & !0x0002_0000u32 & !0x0001_0000u32 & !0x0100_0000u32;
    assert(tile_style(style) == t);
    assert(t & 0x0002_0000 == 0) by (bit_vector)
        requires
            t == style & !0x0002_0000u32 & !0x0001_0000u32 & !0x0100_0000u32,
    ;
    assert(t & 0x0001_0000 == 0) by (bit_vector)
        requires
            t == style & !0x0002_0000u32 & !0x0001_0000u32 & !0x0100_0000u32,
    ;
    assert(t & 0x0100_0000 == 0) by (bit_vector)
        requires
            t == style & !0x0002_0000u32 & !0x0001_0000u32 & !0x0100_0000u32,
    ;
    assert(t & !0x0103_0000u32 == style & !0x0103_0000u32) by (bit_vector)
        requires
            t == style & !0x0002_0000u32 & !0x0001_0000u32 & !0x0100_0000u32,
    ;
    assert(t & !0x0002_0000u32 & !0x0001_0000u32 & !0x0100_0000u32 == t) by (bit_vector)
        requires
            t == style & !0x0002_0000u32 & !0x0001_0000u32 & !0x0100_0000u32,
    ;
}

/// The layered bit is set by `with_layer` and cleared by `without_layer`, and neither
/// touches another bit.
pub proof fn lemma_layer(ex_style: u32)
    ensures
        flags_of(0, with_layer(ex_style)).layered,
        !flags_of(0, without_layer(ex_style)).layered,
        with_layer(ex_style) & !0x0008_0000u32 == ex_style & !0x0008_0000u32,
        without_layer(ex_style) & !0x0008_0000u32 == ex_style & !0x0008_0000u32,
        without_layer(with_layer(ex_style)) == without_layer(ex_style),
{
    let on = ex_style | 0x0008_0000u32;
    let off = ex_style & !0x0008_0000u32;
    assert(with_layer(ex_style) == on);
    assert(without_layer(ex_style) == off);
    assert(on & 0x0008_0000 != 0) by (bit_vector)
        requires
            on == ex_style | 0x0008_0000u32,
    ;
    assert(off & 0x0008_0000 == 0) by (bit_vector)
        requires
            off == ex_style & !0x0008_0000u32,
    ;
    assert(on & !0x0008_0000u32 == ex_style & !0x0008_0000u32) by (bit_vector)
        requires
            on == ex_style | 0x0008_0000u32,
    ;
    assert(off & !0x0008_0000u32 == ex_style & !0x0008_0000u32) by (bit_vector)
        requires
            off == ex_style & !0x0008_0000u32,
    ;
    assert(on & !0x0008_0000u32 == off) by (bit_vector)
        requires
            on == ex_style | 0x0008_0000u32,
            off == ex_style & !0x0008_0000u32,
    ;
}

} // verus!
