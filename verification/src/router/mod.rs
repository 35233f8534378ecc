//! The navigator: the application's current route. Navigation callbacks run
//! in the view layer.

use vstd::prelude::*;

verus! {

/// The current route of an initialised navigator.
pub struct Navigator {
    pub current_path: String,
}

impl Navigator {
    /// A navigator starting at `path`.
    pub fn init(path: String) -> (r: Navigator)
        ensures
            r.current_path@ == path@,
    {
        Navigator { current_path: path }
    }

    /// Navigate to `path` on the navigator, if there is one. Returns whether
    /// it navigated (the caller then runs its navigation callback with `path`).
    pub fn push(nav: &mut Option<Navigator>, path: String) -> (navigated: bool)
        ensures
            navigated == old(nav).is_some(),
            match *final(nav) {
                Some(n) => old(nav).is_some() && n.current_path@ == path@,
                None => old(nav).is_none(),
            },
    {
        match nav {
            Some(n) => {
                n.current_path = path;
                true
            },
            None => false,
        }
    }

    /// The current path, if the navigator is initialised.
    pub fn current_path(nav: &Option<Navigator>) -> (r: Option<String>)
        ensures
            match r {
                Some(p) => nav.is_some() && p@ == nav->0.current_path@,
                None => nav.is_none(),
            },
    {
        match nav {
            Some(n) => Some(n.current_path.clone()),
            None => None,
        }
    }
}

} // verus!
