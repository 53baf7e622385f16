//! Which windows may be managed, and which of them float instead of being tiled.

use vstd::prelude::*;
use crate::commands::WindowProbe;
use crate::geometry::Rect;
use crate::styles::{flags_of, read_styles, StyleFlags};

verus! {

/// What the windowing side reports of a window, as far as eligibility goes.
#[derive(Clone, Copy, Debug, PartialEq, Eq, Structural)]
pub struct WindowTraits {
    /// The window is shown.
    pub visible: bool,
    /// The window is minimized.
    pub minimized: bool,
    /// The window is a tool window.
    pub tool_window: bool,
    /// The window's class has a name.
    pub class_known: bool,
    /// The class is one of the shell's or of the standard controls.
    pub system_class: bool,
    /// The class is that of a dialog box.
    pub dialog_class: bool,
    /// The class is that of a browser, whose windows may have no title.
    pub browser_class: bool,
    /// The window has a title.
    pub titled: bool,
    /// The title is one of the shell's.
    pub system_title: bool,
    /// The style has the visible bit.
    pub style_visible: bool,
    /// The window has a caption.
    pub captioned: bool,
    /// The style has the popup bit.
    pub popup_style: bool,
    /// The window has a dialog frame.
    pub dialog_frame: bool,
    /// The window has an owner.
    pub owned: bool,
}

/// What the windowing side reports of a window besides its two style words.
#[derive(Clone, Copy, Debug, PartialEq, Eq, Structural)]
pub struct WindowFacts {
    /// The window is shown.
    pub visible: bool,
    /// The window's class has a name.
    pub class_known: bool,
    /// The class is one of the shell's or of the standard controls.
    pub system_class: bool,
    /// The class is that of a dialog box.
    pub dialog_class: bool,
    /// The class is that of a browser.
    pub browser_class: bool,
    /// The window has a title.
    pub titled: bool,
    /// The title is one of the shell's.
    pub system_title: bool,
    /// The window has an owner.
    pub owned: bool,
}

impl WindowTraits {
    /// The traits of a window of which the windowing side reports `facts` and whose
    /// style words say `flags`.
    pub open spec fn observed(facts: WindowFacts, flags: StyleFlags) -> WindowTraits {
        WindowTraits {
            visible: facts.visible,
            minimized: flags.minimized,
            tool_window: flags.tool_window,
            class_known: facts.class_known,
            system_class: facts.system_class,
            dialog_class: facts.dialog_class,
            browser_class: facts.browser_class,
            titled: facts.titled,
            system_title: facts.system_title,
            style_visible: flags.style_visible,
            captioned: flags.captioned,
            popup_style: flags.popup_style,
            dialog_frame: flags.dialog_frame,
            owned: facts.owned,
        }
    }

    /// Puts together what is known of a window: what the windowing side reports, and
    /// what the window's two style words say.
    pub fn observe(facts: &WindowFacts, style: u32, ex_style: u32) -> (t: WindowTraits)
        ensures
            t == Self::observed(*facts, flags_of(style, ex_style)),
    {
        let flags: StyleFlags = read_styles(style, ex_style);
        WindowTraits {
            visible: facts.visible,
            minimized: flags.minimized,
            tool_window: flags.tool_window,
            class_known: facts.class_known,
            system_class: facts.system_class,
            dialog_class: facts.dialog_class,
            browser_class: facts.browser_class,
            titled: facts.titled,
            system_title: facts.system_title,
            style_visible: flags.style_visible,
            captioned: flags.captioned,
            popup_style: flags.popup_style,
            dialog_frame: flags.dialog_frame,
            owned: facts.owned,
        }
    }

    /// The window may be managed: it is shown, not minimized, no tool window, and,
    /// where its class has a name, neither of the system's by class or title, nor
    /// untitled unless a browser's, nor a captionless popup.
    pub open spec fn manageable(self) -> bool {
        &&& self.visible
        &&& !self.minimized
        &&& !self.tool_window
        &&& (self.class_known ==> {
            &&& !self.system_class
            &&& !self.system_title
            &&& (self.titled || self.browser_class)
            &&& self.style_visible
            &&& (self.captioned || !self.popup_style)
        })
    }

    /// The window is a transient popup: a dialog by class, or an owned window that is a
    /// captionless popup or has a dialog frame.
    pub open spec fn transient(self) -> bool {
        self.dialog_class || (self.popup_style && !self.captioned && self.owned) || (
        self.dialog_frame && self.owned)
    }

    /// Whether the window may be managed.
    pub fn should_manage_window(&self) -> (b: bool)
        ensures
            b == self.manageable(),
    {
        if !self.visible {
            return false;
        }
        if self.minimized {
            return false;
        }
        if self.tool_window {
            return false;
        }
        if !self.class_known {
            return true;
        }
        if self.system_class {
            return false;
        }
        if self.system_title {
            return false;
        }
        if !self.titled && !self.browser_class {
            return false;
        }
        if !self.style_visible {
            return false;
        }
        if !self.captioned && self.popup_style {
            return false;
        }
        true
    }

    /// Whether the window is a transient popup.
    pub fn is_popup_window(&self) -> (b: bool)
        ensures
            b == self.transient(),
    {
        let popup_no_caption: bool = self.popup_style && !self.captioned;
        self.dialog_class || (popup_no_caption && self.owned) || (self.dialog_frame && self.owned)
    }

    /// What a command carries about its window.
    pub fn probe(&self, style: u32, ex_style: u32, rect: Rect) -> (p: WindowProbe)
        ensures
            p == (WindowProbe {
                eligible: self.manageable(),
                popup: self.transient(),
                style,
                ex_style,
                rect,
            }),
    {
        WindowProbe {
            eligible: self.should_manage_window(),
            popup: self.is_popup_window(),
            style,
            ex_style,
            rect,
        }
    }
}

} // verus!
