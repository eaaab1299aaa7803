//! Visibility flag of the history panel, shared between the panel's
//! delegate callbacks and whoever needs to know whether it is on screen.
use vstd::prelude::*;

verus! {

/// Whether the panel is currently the key window.
#[derive(Debug)]
pub struct PanelState {
    visible: bool,
}

impl PanelState {
    /// The flag as a plain boolean.
    pub closed spec fn view(&self) -> bool {
        self.visible
    }

    /// A panel that has not been shown yet.
    pub fn new() -> (state: Self)
        ensures
            !state@,
    {
        PanelState { visible: false }
    }

    /// Records that the panel became the key window.
    pub fn show(&mut self)
        ensures
            final(self)@,
    {
        self.visible = true;
    }

    /// Records that the panel resigned from being the key window.
    pub fn set_hidden(&mut self)
        ensures
            !final(self)@,
    {
        self.visible = false;
    }

    /// Reads the flag.
    pub fn is_visible(&self) -> (visible: bool)
        ensures
            visible == self@,
    {
        self.visible
    }
}

} // verus!
