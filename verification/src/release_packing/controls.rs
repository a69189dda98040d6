//! The keys that the browser tells of.

use vstd::prelude::*;

use crate::release_packing::state::{PackingModel, ReleasePackingBrowserState};
use crate::screen::{list4, list7, list9, nothing, put};

verus! {

/// What a piece of a line of keys is.
#[derive(Debug, Clone, Copy, PartialEq, Eq, Structural)]
pub enum ControlKind {
    /// A key that goes on
    Nav,
    /// A key that goes back
    Cancel,
    /// Words
    Text,
}

/// A piece of a line of keys.
#[derive(Debug)]
pub struct Control {
    pub kind: ControlKind,
    pub words: String,
}

/// The model of a [`Control`].
pub struct ControlModel {
    pub kind: ControlKind,
    pub words: Seq<char>,
}

impl DeepView for Control {
    type V = ControlModel;

    open spec fn deep_view(&self) -> ControlModel {
        ControlModel { kind: self.kind, words: self.words@ }
    }
}

/// A key that goes on.
pub open spec fn nav(words: Seq<char>) -> ControlModel {
    ControlModel { kind: ControlKind::Nav, words }
}

/// A key that goes back.
pub open spec fn cancel(words: Seq<char>) -> ControlModel {
    ControlModel { kind: ControlKind::Cancel, words }
}

/// Words.
pub open spec fn words(words: Seq<char>) -> ControlModel {
    ControlModel { kind: ControlKind::Text, words }
}

fn control(kind: ControlKind, words: &str) -> (r: Control)
    ensures
        r.deep_view() == (ControlModel { kind, words: words@ }),
{
    Control { kind, words: words.to_owned() }
}

/// The keys of the browser, with the one that pins a release where there is one
/// to pin.
pub open spec fn browser_keys(pins: bool) -> Seq<ControlModel> {
    if pins {
        list9(
            words(" "@),
            nav("^v"@),
            words(" nav  "@),
            nav("Shift+Arrow"@),
            words(" switch pane  "@),
            nav("p"@),
            words(" pin release  "@),
            cancel("Esc"@),
            words(" close"@),
        )
    } else {
        list7(
            words(" "@),
            nav("^v"@),
            words(" nav  "@),
            nav("Shift+Arrow"@),
            words(" switch pane  "@),
            cancel("Esc"@),
            words(" close"@),
        )
    }
}

/// The keys while an id is typed.
pub open spec fn pin_keys() -> Seq<ControlModel> {
    list4(nav("Enter"@), words(" confirm  "@), cancel("Esc"@), words(" cancel"@))
}

impl PackingModel {
    /// Whether a release can be pinned: one is in hand, and no id is being typed.
    pub open spec fn can_pin(self) -> bool {
        self.pin_input is None && self.release() is Some
    }
}

impl ReleasePackingBrowserState {
    /// The keys of the browser.
    pub fn controls(&self) -> (r: Vec<Control>)
        ensures
            r.deep_view() == browser_keys(self@.can_pin()),
    {
        let mut out: Vec<Control> = nothing();
        put(&mut out, control(ControlKind::Text, " "));
        put(&mut out, control(ControlKind::Nav, "^v"));
        put(&mut out, control(ControlKind::Text, " nav  "));
        put(&mut out, control(ControlKind::Nav, "Shift+Arrow"));
        put(&mut out, control(ControlKind::Text, " switch pane  "));
        if self.pin_input.is_none() && self.selected_release().is_some() {
            put(&mut out, control(ControlKind::Nav, "p"));
            put(&mut out, control(ControlKind::Text, " pin release  "));
        }
        put(&mut out, control(ControlKind::Cancel, "Esc"));
        put(&mut out, control(ControlKind::Text, " close"));
        out
    }
}

/// The keys while an id is typed.
pub fn pin_controls() -> (r: Vec<Control>)
    ensures
        r.deep_view() == pin_keys(),
{
    let mut out: Vec<Control> = nothing();
    put(&mut out, control(ControlKind::Nav, "Enter"));
    put(&mut out, control(ControlKind::Text, " confirm  "));
    put(&mut out, control(ControlKind::Cancel, "Esc"));
    put(&mut out, control(ControlKind::Text, " cancel"));
    out
}

} // verus!
