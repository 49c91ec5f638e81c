//! Decisions of the development-mode reload watcher.
//!
//! The watcher observes plugin build directories and reloads the overlays
//! of the plugin a changed file belongs to.  Watching the filesystem and
//! reloading webviews are the caller's work; which changes matter and which
//! plugin a path maps to is decided here.

use vstd::prelude::*;

use crate::strutil::{
    spec_contains_str, spec_has_prefix, spec_has_suffix, str_contains, str_has_prefix,
    str_has_suffix,
};

verus! {

/// Whether a changed path lies in a plugin's build output: inside a `dist`
/// directory or at one.
pub fn is_dist_path(path: &str) -> (r: bool)
    ensures
        r == (spec_contains_str(path@, "/dist/"@) || spec_has_suffix(path@, "/dist"@)),
{
    str_contains(path, "/dist/") || str_has_suffix(path, "/dist")
}

/// The plugin the first matching watch entry maps a path to: entries pair
/// a watched directory with the plugin id it belongs to, and a path under
/// a watched directory belongs to that entry's plugin.
pub open spec fn spec_watched_plugin(watched: Seq<(String, String)>, path: Seq<char>) -> Option<
    Seq<char>,
>
    decreases watched.len(),
{
    if watched.len() == 0 {
        Option::None
    } else if spec_has_prefix(path, watched[0].0@) {
        Option::Some(watched[0].1@)
    } else {
        spec_watched_plugin(watched.skip(1), path)
    }
}

/// Maps a changed path to the plugin whose watched directory it lies
/// under, if any.
pub fn extract_plugin_id_from_path(path: &str, watched: &Vec<(String, String)>) -> (r: Option<
    String,
>)
    ensures
        match spec_watched_plugin(watched@, path@) {
            Option::Some(id) => r matches Some(s) && s@ == id,
            Option::None => r is None,
        },
{
    let mut i: usize = 0;
    proof {
        assert(watched@.skip(0) =~= watched@);
    }
    while i < watched.len()
        invariant
            i <= watched@.len(),
            spec_watched_plugin(watched@, path@) == spec_watched_plugin(
                watched@.skip(i as int),
                path@,
            ),
        decreases watched@.len() - i,
    {
        let entry = &watched[i];
        proof {
            assert(watched@.skip(i as int)[0] == watched@[i as int]);
        }
        if str_has_prefix(path, entry.0.as_str()) {
            return Some(entry.1.clone());
        }
        proof {
            assert(watched@.skip(i as int).skip(1) =~= watched@.skip(i + 1));
        }
        i += 1;
    }
    proof {
        assert(watched@.skip(i as int) =~= Seq::<(String, String)>::empty());
    }
    None
}

} // verus!
