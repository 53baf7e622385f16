use thymeline::commands::{TilerCommand, WindowProbe};
use thymeline::eligibility::{WindowFacts, WindowTraits};
use thymeline::geometry::Rect;
use thymeline::keys::{command_for_key, Key, Modifiers};
use thymeline::styles::{is_minimized, layered, read_styles, tiled_style, unlayered, StyleFlags};

fn ordinary() -> WindowTraits {
    WindowTraits {
        visible: true,
        minimized: false,
        tool_window: false,
        class_known: true,
        system_class: false,
        dialog_class: false,
        browser_class: false,
        titled: true,
        system_title: false,
        style_visible: true,
        captioned: true,
        popup_style: false,
        dialog_frame: false,
        owned: false,
    }
}

fn held(ctrl: bool, alt: bool, shift: bool, win: bool) -> Modifiers {
    Modifiers { ctrl, alt, shift, win }
}

#[test]
fn an_ordinary_window_is_managed() {
    assert!(ordinary().should_manage_window());
    assert!(!ordinary().is_popup_window());
}

#[test]
fn hidden_minimized_and_tool_windows_are_not_managed() {
    assert!(!WindowTraits { visible: false, ..ordinary() }.should_manage_window());
    assert!(!WindowTraits { minimized: true, ..ordinary() }.should_manage_window());
    assert!(!WindowTraits { tool_window: true, ..ordinary() }.should_manage_window());
}

#[test]
fn a_window_without_a_class_name_is_managed_whatever_else_it_is() {
    let t = WindowTraits {
        class_known: false,
        system_title: true,
        titled: false,
        style_visible: false,
        captioned: false,
        popup_style: true,
        ..ordinary()
    };
    assert!(t.should_manage_window());
}

#[test]
fn system_windows_are_not_managed() {
    assert!(!WindowTraits { system_class: true, ..ordinary() }.should_manage_window());
    assert!(!WindowTraits { system_title: true, ..ordinary() }.should_manage_window());
}

#[test]
fn an_untitled_window_is_managed_only_if_it_is_a_browser() {
    assert!(!WindowTraits { titled: false, ..ordinary() }.should_manage_window());
    assert!(WindowTraits { titled: false, browser_class: true, ..ordinary() }.should_manage_window());
}

#[test]
fn a_captionless_popup_is_not_managed() {
    assert!(!WindowTraits { captioned: false, popup_style: true, ..ordinary() }.should_manage_window());
    assert!(WindowTraits { captioned: false, ..ordinary() }.should_manage_window());
    assert!(WindowTraits { popup_style: true, ..ordinary() }.should_manage_window());
    assert!(!WindowTraits { style_visible: false, ..ordinary() }.should_manage_window());
}

#[test]
fn dialogs_and_owned_popups_float() {
    assert!(WindowTraits { dialog_class: true, ..ordinary() }.is_popup_window());
    assert!(WindowTraits { popup_style: true, captioned: false, owned: true, ..ordinary() }.is_popup_window());
    assert!(!WindowTraits { popup_style: true, captioned: false, ..ordinary() }.is_popup_window());
    assert!(!WindowTraits { popup_style: true, owned: true, ..ordinary() }.is_popup_window());
    assert!(WindowTraits { dialog_frame: true, owned: true, ..ordinary() }.is_popup_window());
    assert!(!WindowTraits { dialog_frame: true, ..ordinary() }.is_popup_window());
    assert!(!WindowTraits { owned: true, ..ordinary() }.is_popup_window());
}

#[test]
fn the_probe_carries_both_verdicts() {
    let rect = Rect { left: 1, top: 2, right: 3, bottom: 4 };
    let p = WindowTraits { dialog_class: true, ..ordinary() }.probe(7, 8, rect);
    assert_eq!(p, WindowProbe { eligible: true, popup: true, style: 7, ex_style: 8, rect });
    let q = WindowTraits { visible: false, ..ordinary() }.probe(7, 8, rect);
    assert_eq!(q, WindowProbe { eligible: false, popup: false, style: 7, ex_style: 8, rect });
}

#[test]
fn keys_alone_with_the_windows_key() {
    let m = held(false, false, false, true);
    assert_eq!(command_for_key(Key::Up, m), Some(TilerCommand::PanUp));
    assert_eq!(command_for_key(Key::Down, m), Some(TilerCommand::PanDown));
    assert_eq!(command_for_key(Key::Left, m), Some(TilerCommand::PanLeft));
    assert_eq!(command_for_key(Key::Right, m), Some(TilerCommand::PanRight));
    assert_eq!(command_for_key(Key::C, m), Some(TilerCommand::ForceRecalc));
    assert_eq!(command_for_key(Key::Plus, m), Some(TilerCommand::IncreaseTransparency));
    assert_eq!(command_for_key(Key::Minus, m), Some(TilerCommand::DecreaseTransparency));
    assert_eq!(command_for_key(Key::S, m), Some(TilerCommand::ScrollToWindow));
    assert_eq!(command_for_key(Key::M, m), Some(TilerCommand::IncreaseMargins));
    assert_eq!(command_for_key(Key::N, m), Some(TilerCommand::DecreaseMargins));
    assert_eq!(command_for_key(Key::F, m), Some(TilerCommand::CycleFPS));
    assert_eq!(command_for_key(Key::T, m), None);
    assert_eq!(command_for_key(Key::R, m), None);
    assert_eq!(command_for_key(Key::Other, m), None);
}

#[test]
fn keys_with_ctrl_resize_and_with_ctrl_and_shift_move() {
    let ctrl = held(true, false, false, true);
    assert_eq!(command_for_key(Key::Left, ctrl), Some(TilerCommand::ResizeLeft));
    assert_eq!(command_for_key(Key::Right, ctrl), Some(TilerCommand::ResizeRight));
    assert_eq!(command_for_key(Key::Up, ctrl), None);
    let both = held(true, false, true, true);
    assert_eq!(command_for_key(Key::Up, both), Some(TilerCommand::MoveUp));
    assert_eq!(command_for_key(Key::Down, both), Some(TilerCommand::MoveDown));
    assert_eq!(command_for_key(Key::Left, both), Some(TilerCommand::MoveLeft));
    assert_eq!(command_for_key(Key::Right, both), Some(TilerCommand::MoveRight));
    assert_eq!(command_for_key(Key::T, both), None);
}

#[test]
fn keys_with_shift_add_and_remove() {
    let shift = held(false, false, true, true);
    assert_eq!(command_for_key(Key::T, shift), Some(TilerCommand::AddWindow));
    assert_eq!(command_for_key(Key::R, shift), Some(TilerCommand::RemoveWindow));
    assert_eq!(command_for_key(Key::Plus, shift), Some(TilerCommand::IncreaseTransparency));
    assert_eq!(command_for_key(Key::Minus, shift), Some(TilerCommand::DecreaseTransparency));
    assert_eq!(command_for_key(Key::Left, shift), None);
}

#[test]
fn no_binding_without_the_windows_key_or_with_alt() {
    for key in [Key::Up, Key::Left, Key::T, Key::C, Key::Plus] {
        assert_eq!(command_for_key(key, held(false, false, false, false)), None);
        assert_eq!(command_for_key(key, held(true, false, true, false)), None);
        assert_eq!(command_for_key(key, held(false, true, false, true)), None);
        assert_eq!(command_for_key(key, held(true, true, false, true)), None);
        assert_eq!(command_for_key(key, held(true, true, true, true)), None);
        assert_eq!(command_for_key(key, held(false, true, true, true)), None);
    }
}

#[test]
fn a_tile_loses_its_boxes_and_the_maximized_bit() {
    // Overlapped window, visible, maximized, with both boxes.
    assert_eq!(tiled_style(0x15CF_0000), 0x14CC_0000);
    assert_eq!(tiled_style(0xFFFF_FFFF), 0xFEFC_FFFF);
    assert_eq!(tiled_style(0x0000_0000), 0x0000_0000);
    assert_eq!(tiled_style(0x0103_0000), 0x0000_0000);
    // Nothing to take away: the style stays.
    assert_eq!(tiled_style(0x14CC_0000), 0x14CC_0000);
}

#[test]
fn the_layered_bit_is_set_and_cleared_alone() {
    assert_eq!(layered(0x0000_0100), 0x0008_0100);
    assert_eq!(layered(0x0008_0100), 0x0008_0100);
    assert_eq!(unlayered(0x0008_0100), 0x0000_0100);
    assert_eq!(unlayered(0x0000_0100), 0x0000_0100);
    assert_eq!(unlayered(0xFFFF_FFFF), 0xFFF7_FFFF);
}

#[test]
fn style_words_are_read_bit_by_bit() {
    let none = StyleFlags {
        minimized: false,
        tool_window: false,
        style_visible: false,
        captioned: false,
        popup_style: false,
        dialog_frame: false,
        layered: false,
    };
    assert_eq!(read_styles(0, 0), none);
    assert_eq!(read_styles(0x2000_0000, 0), StyleFlags { minimized: true, ..none });
    assert_eq!(read_styles(0x1000_0000, 0), StyleFlags { style_visible: true, ..none });
    assert_eq!(read_styles(0x8000_0000, 0), StyleFlags { popup_style: true, ..none });
    // Either half of the caption counts as a caption.
    assert_eq!(read_styles(0x0080_0000, 0), StyleFlags { captioned: true, ..none });
    assert_eq!(read_styles(0x0040_0000, 0), StyleFlags { captioned: true, ..none });
    assert_eq!(read_styles(0, 0x80), StyleFlags { tool_window: true, ..none });
    assert_eq!(read_styles(0, 0x1), StyleFlags { dialog_frame: true, ..none });
    assert_eq!(read_styles(0, 0x0008_0000), StyleFlags { layered: true, ..none });
    // The bits of one word mean nothing in the other.
    assert_eq!(read_styles(0x0008_0081, 0x3000_0000), none);
    assert!(is_minimized(0x2000_0000));
    assert!(!is_minimized(0xDFFF_FFFF));
}

#[test]
fn the_traits_of_a_window_come_from_its_facts_and_its_styles() {
    let facts = WindowFacts {
        visible: true,
        class_known: true,
        system_class: false,
        dialog_class: false,
        browser_class: false,
        titled: true,
        system_title: false,
        owned: true,
    };
    // Visible, captioned, overlapped.
    let plain = WindowTraits::observe(&facts, 0x14CF_0000, 0x100);
    assert_eq!(plain, WindowTraits { owned: true, ..ordinary() });
    assert!(plain.should_manage_window());
    assert!(!plain.is_popup_window());
    // An owned popup without a caption floats and is not tiled.
    let popup = WindowTraits::observe(&facts, 0x9000_0000, 0);
    assert!(popup.popup_style && !popup.captioned);
    assert!(!popup.should_manage_window());
    assert!(popup.is_popup_window());
    // Minimized, or a tool window: not managed.
    assert!(!WindowTraits::observe(&facts, 0x34CF_0000, 0).should_manage_window());
    assert!(!WindowTraits::observe(&facts, 0x14CF_0000, 0x80).should_manage_window());
    // A dialog frame on an owned window floats.
    assert!(WindowTraits::observe(&facts, 0x14CF_0000, 0x1).is_popup_window());
}
