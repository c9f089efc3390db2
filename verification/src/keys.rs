//! Keystrokes and shortcuts: the input half of action resolution.

use vstd::prelude::*;

verus! {

/// The modifier keys held together with a key press.
#[derive(Clone, Copy, PartialEq, Eq, Structural, Debug)]
pub struct Modifiers {
    pub control: bool,
    pub alt: bool,
    pub shift: bool,
    pub platform: bool,
}

impl Modifiers {
    /// No modifier held.
    pub open spec fn spec_none() -> Modifiers {
        Modifiers { control: false, alt: false, shift: false, platform: false }
    }

    pub fn none() -> (m: Modifiers)
        ensures
            m == Modifiers::spec_none(),
    {
        Modifiers { control: false, alt: false, shift: false, platform: false }
    }
}

/// A single key press: a key name plus the modifiers held with it.
#[derive(Debug)]
pub struct Keystroke {
    pub modifiers: Modifiers,
    pub key: String,
}

/// The mathematical value of a keystroke.
pub ghost struct KeyView {
    pub modifiers: Modifiers,
    pub key: Seq<char>,
}

impl View for Keystroke {
    type V = KeyView;

    open spec fn view(&self) -> KeyView {
        KeyView { modifiers: self.modifiers, key: self.key@ }
    }
}

impl Keystroke {
    pub fn new(key: &str, modifiers: Modifiers) -> (k: Keystroke)
        ensures
            k@ == (KeyView { modifiers, key: key@ }),
    {
        Keystroke { modifiers, key: String::from_str(key) }
    }

    /// Two keystrokes are the same press exactly when their views agree.
    pub fn matches(&self, other: &Keystroke) -> (r: bool)
        ensures
            r == (self@ == other@),
    {
        self.modifiers == other.modifiers && self.key == other.key
    }

    pub fn duplicate(&self) -> (k: Keystroke)
        ensures
            k@ == self@,
    {
        Keystroke { modifiers: self.modifiers, key: self.key.clone() }
    }
}

/// A shortcut is a keystroke bound to an action, built up fluently.
#[derive(Debug)]
pub struct Shortcut {
    pub inner: Keystroke,
}

impl View for Shortcut {
    type V = KeyView;

    open spec fn view(&self) -> KeyView {
        self.inner@
    }
}

impl Shortcut {
    /// A bare key with no modifiers.
    pub fn new(key: &str) -> (s: Shortcut)
        ensures
            s@ == (KeyView { modifiers: Modifiers::spec_none(), key: key@ }),
    {
        Shortcut { inner: Keystroke::new(key, Modifiers::none()) }
    }

    /// Adds the primary command modifier.
    pub fn cmd(self) -> (s: Shortcut)
        ensures
            s@.modifiers == (Modifiers { platform: true, ..self@.modifiers }),
            s@.key == self@.key,
    {
        let mut inner = self.inner;
        inner.modifiers.platform = true;
        Shortcut { inner }
    }

    pub fn shift(self) -> (s: Shortcut)
        ensures
            s@.modifiers == (Modifiers { shift: true, ..self@.modifiers }),
            s@.key == self@.key,
    {
        let mut inner = self.inner;
        inner.modifiers.shift = true;
        Shortcut { inner }
    }

    pub fn alt(self) -> (s: Shortcut)
        ensures
            s@.modifiers == (Modifiers { alt: true, ..self@.modifiers }),
            s@.key == self@.key,
    {
        let mut inner = self.inner;
        inner.modifiers.alt = true;
        Shortcut { inner }
    }

    pub fn ctrl(self) -> (s: Shortcut)
        ensures
            s@.modifiers == (Modifiers { control: true, ..self@.modifiers }),
            s@.key == self@.key,
    {
        let mut inner = self.inner;
        inner.modifiers.control = true;
        Shortcut { inner }
    }

    /// The keystroke this shortcut is bound to.
    pub fn get(&self) -> (k: Keystroke)
        ensures
            k@ == self@,
    {
        self.inner.duplicate()
    }

    pub fn duplicate(&self) -> (s: Shortcut)
        ensures
            s@ == self@,
    {
        Shortcut { inner: self.inner.duplicate() }
    }
}

} // verus!
