//! Error dialogs for failed user actions.
//!
//! A tray menu closes the moment it is clicked, so an error recorded only in the
//! menu is invisible until the user reopens it. Anything the user explicitly asked
//! for therefore reports failure in a dialog as well, through whichever dialog
//! helper the desktop provides, preferring KDE's own.

use vstd::prelude::*;
use vstd::string::*;
use crate::text::{join_path, owned, path_join, split_char, split_on, str_eq};

verus! {

/// The dialog helpers we know how to drive, in order of preference.
pub open spec fn spec_helpers() -> Seq<Seq<char>> {
    seq!["kdialog"@, "zenity"@, "notify-send"@]
}

/// The dialog helpers we know how to drive, in order of preference.
pub fn helpers() -> (r: Vec<&'static str>)
    ensures
        r@.map_values(|h: &str| h@) == spec_helpers(),
{
    let mut r: Vec<&'static str> = Vec::new();
    r.push("kdialog");
    r.push("zenity");
    r.push("notify-send");
    assert(r@.map_values(|h: &str| h@) =~= spec_helpers());
    r
}

/// A helper and the path it would be run from.
#[derive(Debug, Clone)]
pub struct HelperCandidate {
    pub name: String,
    pub path: String,
}

/// Every place a helper may live, in order of preference: each helper in turn,
/// in each directory of `$PATH` in turn.
pub open spec fn spec_helper_candidates(path_var: Seq<char>) -> Seq<(Seq<char>, Seq<char>)> {
    let dirs = split_on(path_var, ':');
    Seq::new(
        (spec_helpers().len() * dirs.len()) as nat,
        |i: int| (spec_helpers()[i / dirs.len() as int], path_join(dirs[i % dirs.len() as int], spec_helpers()[i / dirs.len() as int])),
    )
}

pub open spec fn candidate_views(v: Seq<HelperCandidate>) -> Seq<(Seq<char>, Seq<char>)> {
    v.map_values(|c: HelperCandidate| (c.name@, c.path@))
}

/// Every place a helper may live, given the value of `$PATH`.
pub fn helper_candidates(path_var: &str) -> (r: Vec<HelperCandidate>)
    ensures
        candidate_views(r@) == spec_helper_candidates(path_var@),
{
    let dirs = split_char(path_var, ':');
    proof {
        crate::text::lemma_split_nonempty(path_var@, ':');
    }
    let names = helpers();
    let nd = dirs.len();
    let ghost dv = dirs@.map_values(|p: String| p@);
    let mut r: Vec<HelperCandidate> = Vec::new();
    let mut h: usize = 0;
    assert(names@.map_values(|x: &str| x@).len() == 3);
    while h < 3
        invariant
            names@.map_values(|x: &str| x@) == spec_helpers(),
            names@.len() == 3,
            dirs@.map_values(|p: String| p@) == split_on(path_var@, ':'),
            nd == dirs@.len(),
            nd >= 1,
            h <= 3,
            r@.len() == h * nd,
            forall|i: int| 0 <= i < h * nd ==> (#[trigger] candidate_views(r@)[i]) == spec_helper_candidates(path_var@)[i],
        decreases 3 - h,
    {
        let mut d: usize = 0;
        while d < nd
            invariant
                names@.map_values(|x: &str| x@) == spec_helpers(),
                names@.len() == 3,
                dirs@.map_values(|p: String| p@) == split_on(path_var@, ':'),
                nd == dirs@.len(),
                nd >= 1,
                h < 3,
                d <= nd,
                r@.len() == h * nd + d,
                forall|i: int| 0 <= i < h * nd + d ==> (#[trigger] candidate_views(r@)[i]) == spec_helper_candidates(path_var@)[i],
            decreases nd - d,
        {
            let name = names[h];
            let path = join_path(dirs[d].as_str(), name);
            let ghost before = r@;
            r.push(HelperCandidate { name: owned(name), path });
            proof {
                let i = h * nd + d;
                assert(i / (nd as int) == h && i % (nd as int) == d) by (nonlinear_arith)
                    requires
                        i == h * nd + d,
                        d < nd,
                        0 <= d,
                        0 <= h;
                assert(i < 3 * nd) by (nonlinear_arith)
                    requires
                        i == h * nd + d,
                        d < nd,
                        h < 3;
                assert(names@.map_values(|x: &str| x@)[h as int] == names@[h as int]@);
                assert(dirs@.map_values(|p: String| p@)[d as int] == dirs@[d as int]@);
                let sp = spec_helper_candidates(path_var@);
                assert(sp.len() == 3 * nd);
                assert(sp[i] == (spec_helpers()[h as int], path_join(split_on(path_var@, ':')[d as int], spec_helpers()[h as int])));
                assert(candidate_views(r@)[i] == (name@, path@));
                assert forall|k: int| 0 <= k < h * nd + d + 1 implies (#[trigger] candidate_views(r@)[k]) == spec_helper_candidates(path_var@)[k] by {
                    if k < h * nd + d {
                        assert(candidate_views(r@)[k] == candidate_views(before)[k]);
                    }
                }
            }
            d += 1;
        }
        proof {
            assert((h + 1) * nd == h * nd + nd) by (nonlinear_arith);
        }
        h += 1;
    }
    assert(candidate_views(r@) =~= spec_helper_candidates(path_var@));
    r
}

/// The first candidate that is present.
pub open spec fn first_present_candidate(present: Seq<bool>) -> Option<int>
    decreases present.len(),
{
    if present.len() == 0 {
        None
    } else if present[0] {
        Some(0)
    } else {
        match first_present_candidate(present.drop_first()) {
            Some(i) => Some(i + 1),
            None => None,
        }
    }
}

/// Where the candidate for the `h`th helper in the `j`th of `d` directories
/// stands in the candidate list.
pub open spec fn candidate_at(h: int, j: int, d: int) -> int {
    h * d + j
}

proof fn lemma_first_present_candidate(present: Seq<bool>)
    ensures
        match first_present_candidate(present) {
            Some(i) => 0 <= i < present.len() && present[i] && forall|k: int| 0 <= k < i ==> !present[k],
            None => forall|k: int| 0 <= k < present.len() ==> !present[k],
        },
    decreases present.len(),
{
    if present.len() > 0 && !present[0] {
        let rest = present.drop_first();
        lemma_first_present_candidate(rest);
        assert forall|k: int| 1 <= k < present.len() && !rest[k - 1] implies !present[k] by {
            assert(rest[k - 1] == present[k]);
        }
    }
}

/// The helper chosen is the most preferred helper installed in any directory
/// of `$PATH`, found in the first such directory in `$PATH` order: every
/// candidate of a more preferred helper, and every earlier directory for the
/// chosen helper, is absent; when nothing is chosen, nothing is installed.
pub proof fn law_first_helper_in_path_order(path_var: Seq<char>, present: Seq<bool>)
    requires
        present.len() == spec_helper_candidates(path_var).len(),
    ensures
        ({
            let dirs = split_on(path_var, ':');
            let d = dirs.len() as int;
            match first_present_candidate(present) {
                Some(i) => {
                    &&& 0 <= i < present.len()
                    &&& present[i]
                    &&& spec_helper_candidates(path_var)[i] == (
                        spec_helpers()[i / d],
                        path_join(dirs[i % d], spec_helpers()[i / d]),
                    )
                    &&& forall|h: int, j: int|
                        0 <= h < spec_helpers().len() && 0 <= j < d && (h < i / d || (h == i / d && j < i
                            % d)) ==> !present[#[trigger] candidate_at(h, j, d)]
                },
                None => forall|k: int| 0 <= k < present.len() ==> !present[k],
            }
        }),
{
    crate::text::lemma_split_nonempty(path_var, ':');
    let d = split_on(path_var, ':').len() as int;
    lemma_first_present_candidate(present);
    if let Some(i) = first_present_candidate(present) {
        assert forall|h: int, j: int|
            0 <= h < spec_helpers().len() && 0 <= j < d && (h < i / d || (h == i / d && j < i % d))
            implies !present[#[trigger] candidate_at(h, j, d)] by {
            assert(0 <= h * d + j < i) by (nonlinear_arith)
                requires
                    d >= 1,
                    0 <= h,
                    0 <= j < d,
                    0 <= i,
                    h < i / d || (h == i / d && j < i % d),
            {
                assert(i == (i / d) * d + i % d);
                if h < i / d {
                    assert(h * d + d <= (i / d) * d);
                }
            }
        }
    }
}

/// The helper to use: the first candidate whose file exists (`present[i]`
/// says whether `candidates[i]` does); `None` when none is installed.
pub fn choose_helper(candidates: &Vec<HelperCandidate>, present: &Vec<bool>) -> (r: Option<HelperCandidate>)
    requires
        candidates@.len() == present@.len(),
    ensures
        match first_present_candidate(present@) {
            Some(i) => r matches Some(c) && c.name@ == candidates@[i].name@ && c.path@ == candidates@[i].path@,
            None => r is None,
        },
{
    let n = present.len();
    let mut i: usize = 0;
    assert(present@.skip(0) =~= present@);
    while i < n
        invariant
            n == present@.len(),
            n == candidates@.len(),
            i <= n,
            first_present_candidate(present@) == match first_present_candidate(present@.skip(i as int)) {
                Some(j) => Some(j + i),
                None => None,
            },
        decreases n - i,
    {
        assert(present@.skip(i as int)[0] == present@[i as int]);
        if present[i] {
            let c = &candidates[i];
            return Some(HelperCandidate { name: c.name.clone(), path: c.path.clone() });
        }
        assert(present@.skip(i as int).drop_first() =~= present@.skip(i + 1));
        i += 1;
    }
    None
}

/// The arguments each helper takes for an error with `title` and `message`.
/// Arguments are passed as a vector, never through a shell, so a message
/// beginning with a dash stays a message.
pub open spec fn spec_arguments(helper: Seq<char>, title: Seq<char>, message: Seq<char>) -> Seq<Seq<char>> {
    if helper == "kdialog"@ {
        seq!["--title"@, title, "--error"@, message]
    } else if helper == "zenity"@ {
        seq!["--error"@, "--title="@ + title, "--text="@ + message]
    } else {
        // Not a dialog, but the last resort still needs to be visible.
        seq!["--urgency=critical"@, "--icon=state-error"@, title, message]
    }
}

/// The arguments `helper` is run with to show an error.
pub fn arguments(helper: &str, title: &str, message: &str) -> (r: Vec<String>)
    ensures
        r@.map_values(|a: String| a@) == spec_arguments(helper@, title@, message@),
{
    let mut r: Vec<String> = Vec::new();
    if str_eq(helper, "kdialog") {
        r.push(owned("--title"));
        r.push(owned(title));
        r.push(owned("--error"));
        r.push(owned(message));
    } else if str_eq(helper, "zenity") {
        r.push(owned("--error"));
        let mut t = owned("--title=");
        t.append(title);
        r.push(t);
        let mut m = owned("--text=");
        m.append(message);
        r.push(m);
    } else {
        r.push(owned("--urgency=critical"));
        r.push(owned("--icon=state-error"));
        r.push(owned(title));
        r.push(owned(message));
    }
    assert(r@.map_values(|a: String| a@) =~= spec_arguments(helper@, title@, message@));
    r
}

/// The message is always the last argument, untouched, for the helpers that
/// take it as an argument of its own.
pub proof fn law_message_is_last_argument(helper: Seq<char>, title: Seq<char>, message: Seq<char>)
    requires
        helper != "zenity"@,
    ensures
        spec_arguments(helper, title, message).last() == message,
        spec_arguments(helper, title, message).len() == 4,
{
}

/// Title of the dialog reporting a failed action.
pub fn dialog_title(action_label: &str) -> (r: String)
    ensures
        r@ == "Syncthing Tray: "@ + action_label@,
{
    let mut t = owned("Syncthing Tray: ");
    t.append(action_label);
    t
}

} // verus!
