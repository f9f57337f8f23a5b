//! Saved maps: which one is open and which one is loaded at start-up, and
//! how choosing, unsetting and deleting maps changes them.
use vstd::prelude::*;

verus! {

/// Whether `map` names the map called `name`.
pub open spec fn names_map(map: Option<String>, name: Seq<char>) -> bool {
    match map {
        Some(current) => current@ == name,
        None => false,
    }
}

/// The map that is open in the editor, if any.
#[derive(Debug)]
pub struct ActiveMap {
    pub current_map: Option<String>,
}

/// The map loaded at start-up, if any.
#[derive(Debug)]
pub struct DefaultMapConfig {
    pub default_map: Option<String>,
}

impl Default for ActiveMap {
    fn default() -> (active: Self)
        ensures
            active.current_map is None,
    {
        Self { current_map: None }
    }
}

impl Default for DefaultMapConfig {
    fn default() -> (config: Self)
        ensures
            config.default_map is None,
    {
        Self { default_map: None }
    }
}

/// Whether `map` names the map called `name`.
fn is_named(map: &Option<String>, name: &String) -> (same: bool)
    ensures
        same == names_map(*map, name@),
{
    match map {
        Some(current) => *current == *name,
        None => false,
    }
}

impl ActiveMap {
    /// Records that the map called `name` is open.
    pub fn open(&mut self, name: &String)
        ensures
            names_map(final(self).current_map, name@),
    {
        self.current_map = Some(name.clone());
    }

    /// A map was deleted: it is no longer open. Returns whether it was.
    pub fn forget(&mut self, name: &String) -> (was_open: bool)
        ensures
            was_open == names_map(old(self).current_map, name@),
            was_open ==> final(self).current_map is None,
            !was_open ==> final(self).current_map == old(self).current_map,
    {
        if is_named(&self.current_map, name) {
            self.current_map = None;
            true
        } else {
            false
        }
    }
}

impl DefaultMapConfig {
    /// The "default" button: the map called `name` becomes the start-up map,
    /// or stops being it when it already is. Returns whether it is now the
    /// start-up map.
    pub fn toggle_default(&mut self, name: &String) -> (now_default: bool)
        ensures
            now_default == !names_map(old(self).default_map, name@),
            now_default ==> names_map(final(self).default_map, name@),
            !now_default ==> final(self).default_map is None,
    {
        if is_named(&self.default_map, name) {
            self.default_map = None;
            false
        } else {
            self.default_map = Some(name.clone());
            true
        }
    }

    /// A map was deleted, or could not be loaded: it is no longer the
    /// start-up map. Returns whether it was.
    pub fn forget(&mut self, name: &String) -> (was_default: bool)
        ensures
            was_default == names_map(old(self).default_map, name@),
            was_default ==> final(self).default_map is None,
            !was_default ==> final(self).default_map == old(self).default_map,
    {
        if is_named(&self.default_map, name) {
            self.default_map = None;
            true
        } else {
            false
        }
    }
}

} // verus!
