//! The core plugins bundled with the host binary.
//!
//! The bundled archive is a flat list of file paths of the shape
//! `<plugin-id>/<path>`; extracting it to disk is the caller's I/O.  The
//! decisions over the listing — which plugin ids it contains, whether
//! extraction is needed at all — are made here.

use vstd::prelude::*;

use crate::strutil::{spec_split, split_char, str_eq};

verus! {

/// The plugin id a bundled file path belongs to: everything before the
/// first `/`.
pub open spec fn spec_first_component(f: Seq<char>) -> Seq<char> {
    spec_split(f, '/')[0]
}

/// Whether `x` is the leading component of some listed file.
pub open spec fn some_file_has_component(files: Seq<String>, x: Seq<char>) -> bool {
    exists|i: int| 0 <= i < files.len() && x == spec_first_component((#[trigger] files[i])@)
}

/// Whether some string in the list reads `x`.
pub open spec fn views_contain(v: Seq<String>, x: Seq<char>) -> bool {
    exists|k: int| 0 <= k < v.len() && (#[trigger] v[k])@ == x
}

/// Membership survives appending.
proof fn lemma_views_contain_push(v: Seq<String>, x: Seq<char>, y: String)
    requires
        views_contain(v, x),
    ensures
        views_contain(v.push(y), x),
{
    let k = choose|k: int| 0 <= k < v.len() && (#[trigger] v[k])@ == x;
    assert(v.push(y)[k] == v[k]);
}

/// The appended string is a member.
proof fn lemma_views_contain_pushed(v: Seq<String>, y: String)
    ensures
        views_contain(v.push(y), y@),
{
    assert(v.push(y)[v.len() as int] == y);
}

/// Exec test of [`views_contain`].
fn vec_contains_str(v: &Vec<String>, x: &str) -> (r: bool)
    ensures
        r == views_contain(v@, x@),
{
    let mut k: usize = 0;
    while k < v.len()
        invariant
            k <= v@.len(),
            forall|j: int| 0 <= j < k ==> (#[trigger] v@[j])@ != x@,
        decreases v@.len() - k,
    {
        if str_eq(v[k].as_str(), x) {
            assert(views_contain(v@, x@));
            return true;
        }
        k += 1;
    }
    proof {
        if views_contain(v@, x@) {
            let w = choose|w: int| 0 <= w < v@.len() && (#[trigger] v@[w])@ == x@;
            assert(false);
        }
    }
    false
}

/// The core plugins bundled with the host.
pub struct EmbeddedPlugins {
}

impl EmbeddedPlugins {
    /// The distinct plugin ids the bundled file listing covers: every
    /// file's leading path component, each id once, in first-seen order.
    pub fn list_plugins(files: &Vec<String>) -> (r: Vec<String>)
        ensures
            forall|k1: int, k2: int|
                0 <= k1 < k2 < r@.len() ==> (#[trigger] r@[k1])@ != (#[trigger] r@[k2])@,
            forall|k: int|
                0 <= k < r@.len() ==> some_file_has_component(files@, (#[trigger] r@[k])@),
            forall|i: int|
                0 <= i < files@.len() ==> views_contain(
                    r@,
                    spec_first_component((#[trigger] files@[i])@),
                ),
    {
        let mut out: Vec<String> = Vec::new();
        let mut i: usize = 0;
        while i < files.len()
            invariant
                i <= files@.len(),
                forall|k1: int, k2: int|
                    0 <= k1 < k2 < out@.len() ==> (#[trigger] out@[k1])@ != (
                    #[trigger] out@[k2])@,
                forall|k: int|
                    0 <= k < out@.len() ==> some_file_has_component(
                        files@.take(i as int),
                        (#[trigger] out@[k])@,
                    ),
                forall|j: int|
                    0 <= j < i ==> views_contain(
                        out@,
                        spec_first_component((#[trigger] files@[j])@),
                    ),
            decreases files@.len() - i,
        {
            let parts = split_char(files[i].as_str(), '/');
            proof {
                assert(parts.deep_view()[0] == parts@[0]@);
            }
            let comp = &parts[0];
            proof {
                assert(comp@ == spec_first_component(files@[i as int]@));
            }
            let present = vec_contains_str(&out, comp.as_str());
            let ghost out0 = out@;
            if !present {
                out.push(comp.clone());
            }
            proof {
                if present {
                    assert forall|k: int|
                        0 <= k < out@.len() implies some_file_has_component(
                        files@.take(i + 1),
                        (#[trigger] out@[k])@,
                    ) by {
                        let j = choose|j: int|
                            0 <= j < files@.take(i as int).len() && out@[k]@
                                == spec_first_component(
                                (#[trigger] files@.take(i as int)[j])@,
                            );
                        assert(files@.take(i + 1)[j] == files@[j]);
                        assert(some_file_has_component(files@.take(i + 1), out@[k]@));
                    }
                }
                if !present {
                    let pushed = out@[out@.len() - 1];
                    assert(out@ =~= out0.push(pushed));
                    assert(pushed@ == comp@);
                    assert forall|j: int|
                        0 <= j < i + 1 implies views_contain(
                        out@,
                        spec_first_component((#[trigger] files@[j])@),
                    ) by {
                        if j < i {
                            lemma_views_contain_push(
                                out0,
                                spec_first_component(files@[j]@),
                                pushed,
                            );
                        } else {
                            lemma_views_contain_pushed(out0, pushed);
                        }
                    }
                    assert forall|k: int|
                        0 <= k < out@.len() implies some_file_has_component(
                        files@.take(i + 1),
                        (#[trigger] out@[k])@,
                    ) by {
                        if k < out0.len() {
                            assert(out@[k] == out0[k]);
                            let j = choose|j: int|
                                0 <= j < files@.take(i as int).len() && out0[k]@
                                    == spec_first_component(
                                    (#[trigger] files@.take(i as int)[j])@,
                                );
                            assert(files@.take(i + 1)[j] == files@[j]);
                            assert(some_file_has_component(files@.take(i + 1), out@[k]@));
                        } else {
                            assert(out@[k]@ == spec_first_component(files@[i as int]@));
                            assert(files@.take(i + 1)[i as int] == files@[i as int]);
                            assert(some_file_has_component(files@.take(i + 1), out@[k]@));
                        }
                    }
                    assert forall|k1: int, k2: int|
                        0 <= k1 < k2 < out@.len() implies (#[trigger] out@[k1])@ != (
                        #[trigger] out@[k2])@ by {
                        if k2 < out0.len() {
                            assert(out@[k1] == out0[k1] && out@[k2] == out0[k2]);
                        } else {
                            assert(out@[k2]@ == comp@);
                            assert(out@[k1] == out0[k1]);
                        }
                    }
                }
            }
            i += 1;
        }
        proof {
            assert(files@.take(i as int) =~= files@);
        }
        out
    }
}

/// Whether the bundled plugins still need extracting: they do until the
/// core settings plugin's manifest is among the files already on disk.
pub fn should_extract_plugins(installed_files: &Vec<String>) -> (r: bool)
    ensures
        r == !views_contain(installed_files@, "core-settings/overlay.json"@),
{
    !vec_contains_str(installed_files, "core-settings/overlay.json")
}

} // verus!
