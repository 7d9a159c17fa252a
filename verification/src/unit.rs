//! The `syncthing.service` user unit: what systemd's answers say about it,
//! where a unit written by the tray goes, what it holds, and which binary it
//! runs.

use vstd::prelude::*;
use vstd::string::*;
use crate::model::UnitState;
use crate::places;
use crate::text::{join_path, owned, path_join, split_char, split_on, str_eq};

verus! {

pub const UNIT_NAME: &'static str = "syncthing.service";

/// The unit state systemd's answers describe. `load_state` is `None` when the
/// unit could not be loaded at all (systemd refuses a unit with no fragment
/// on disk), and otherwise the unit's `LoadState` (empty if it could not be
/// read); `active_state` and `file_state` are the `ActiveState` and
/// `UnitFileState` properties, `None` where a read failed. A missing unit is
/// reported as not installed rather than as an error, since that is an
/// expected first-run condition.
pub fn unit_state(load_state: Option<&str>, active_state: Option<String>, file_state: Option<String>) -> (r: UnitState)
    ensures
        match load_state {
            None => !r.installed && r.active_state@.len() == 0 && r.file_state@.len() == 0,
            Some(ls) => if ls@ == "not-found"@ {
                !r.installed && r.active_state@.len() == 0 && r.file_state@.len() == 0
            } else {
                &&& r.installed
                &&& r.active_state@ == match active_state {
                    Some(a) => a@,
                    None => Seq::<char>::empty(),
                }
                &&& r.file_state@ == match file_state {
                    Some(f) => f@,
                    None => Seq::<char>::empty(),
                }
            },
        },
{
    let ls = match load_state {
        Some(ls) => ls,
        None => return UnitState::default(),
    };
    if str_eq(ls, "not-found") {
        return UnitState::default();
    }
    UnitState {
        installed: true,
        active_state: match active_state {
            Some(a) => a,
            None => String::new(),
        },
        file_state: match file_state {
            Some(f) => f,
            None => String::new(),
        },
    }
}

/// Where a user unit written by the tray belongs under a config directory.
pub open spec fn spec_user_unit_path(config_dir: Seq<char>) -> Seq<char> {
    path_join(path_join(config_dir, "systemd/user"@), UNIT_NAME@)
}

pub fn user_unit_path_in(config_dir: &str) -> (r: String)
    ensures
        r@ == spec_user_unit_path(config_dir@),
{
    let dir = join_path(config_dir, "systemd/user");
    join_path(dir.as_str(), UNIT_NAME)
}

/// Where a user unit we write ourselves belongs, or `None` when the user
/// config directory cannot be determined.
pub fn user_unit_path() -> (r: Option<String>)
    ensures
        r matches Some(p) ==> exists|dir: Seq<char>| p@ == #[trigger] spec_user_unit_path(dir),
{
    match places::config_dir() {
        Some(dir) => {
            let p = user_unit_path_in(dir.as_str());
            assert(p@ == spec_user_unit_path(dir@));
            Some(p)
        },
        None => None,
    }
}

/// The unit written for the binary at `binary`, mirroring the unit Syncthing
/// ships upstream.
pub open spec fn spec_unit_file(binary: Seq<char>) -> Seq<char> {
    "[Unit]\nDescription=Syncthing - Open Source Continuous File Synchronization\nDocumentation=man:syncthing(1)\nStartLimitIntervalSec=60\nStartLimitBurst=4\n\n[Service]\nExecStart="@
        + binary
        + " serve --no-browser --no-restart --logflags=0\nRestart=on-failure\nRestartSec=1\nSuccessExitStatus=3 4\nRestartForceExitStatus=3 4\n\n# Hardening\nProtectSystem=full\nPrivateTmp=true\nSystemCallArchitectures=native\nMemoryDenyWriteExecute=true\nNoNewPrivileges=true\n\n[Install]\nWantedBy=default.target\n"@
}

/// The contents of the user unit that runs `binary`.
pub fn unit_file_contents(binary: &str) -> (r: String)
    ensures
        r@ == spec_unit_file(binary@),
{
    let mut out = owned(
        "[Unit]\nDescription=Syncthing - Open Source Continuous File Synchronization\nDocumentation=man:syncthing(1)\nStartLimitIntervalSec=60\nStartLimitBurst=4\n\n[Service]\nExecStart=",
    );
    out.append(binary);
    out.append(
        " serve --no-browser --no-restart --logflags=0\nRestart=on-failure\nRestartSec=1\nSuccessExitStatus=3 4\nRestartForceExitStatus=3 4\n\n# Hardening\nProtectSystem=full\nPrivateTmp=true\nSystemCallArchitectures=native\nMemoryDenyWriteExecute=true\nNoNewPrivileges=true\n\n[Install]\nWantedBy=default.target\n",
    );
    out
}

/// Where a `syncthing` binary may be found: `syncthing` in each directory of
/// `$PATH`, in order.
pub open spec fn spec_binary_candidates(path_var: Seq<char>) -> Seq<Seq<char>> {
    split_on(path_var, ':').map_values(|d: Seq<char>| path_join(d, "syncthing"@))
}

/// Where a `syncthing` binary may be found, given the value of `$PATH`.
pub fn binary_candidates(path_var: &str) -> (r: Vec<String>)
    ensures
        r@.map_values(|s: String| s@) == spec_binary_candidates(path_var@),
{
    let dirs = split_char(path_var, ':');
    let n = dirs.len();
    let mut r: Vec<String> = Vec::new();
    let mut i: usize = 0;
    while i < n
        invariant
            n == dirs@.len(),
            dirs@.map_values(|p: String| p@) == split_on(path_var@, ':'),
            i <= n,
            r@.len() == i,
            forall|k: int| 0 <= k < i ==> (#[trigger] r@[k])@ == path_join(dirs@[k]@, "syncthing"@),
        decreases n - i,
    {
        r.push(join_path(dirs[i].as_str(), "syncthing"));
        i += 1;
    }
    proof {
        assert forall|k: int| 0 <= k < n implies dirs@[k]@ == #[trigger] split_on(path_var@, ':')[k] by {
            assert(dirs@.map_values(|p: String| p@)[k] == dirs@[k]@);
        }
    }
    assert(r@.map_values(|s: String| s@) =~= spec_binary_candidates(path_var@));
    r
}

/// Why no `syncthing` binary could be chosen.
#[derive(Debug, Clone)]
pub enum BinaryError {
    /// `SYNCTHING_BINARY` is set but names something that is not a file.
    NotAFile { path: String },
    /// No `syncthing` on `$PATH`.
    NotOnPath,
}

/// What the tray says when no binary can be chosen.
pub open spec fn spec_binary_message(e: BinaryError) -> Seq<char> {
    match e {
        BinaryError::NotAFile { path } => "SYNCTHING_BINARY points at "@ + path@ + ", which is not a file"@,
        BinaryError::NotOnPath => "no `syncthing` binary on PATH - install Syncthing first, or set SYNCTHING_BINARY"@,
    }
}

impl BinaryError {
    /// What the tray says of this error.
    pub fn message(&self) -> (r: String)
        ensures
            r@ == spec_binary_message(*self),
    {
        match self {
            BinaryError::NotAFile { path } => {
                let mut out = owned("SYNCTHING_BINARY points at ");
                out.append(path.as_str());
                out.append(", which is not a file");
                out
            },
            BinaryError::NotOnPath => owned(
                "no `syncthing` binary on PATH - install Syncthing first, or set SYNCTHING_BINARY",
            ),
        }
    }
}

/// The first index whose flag is set.
pub open spec fn first_set(flags: Seq<bool>) -> Option<int>
    decreases flags.len(),
{
    if flags.len() == 0 {
        None
    } else if flags[0] {
        Some(0)
    } else {
        match first_set(flags.drop_first()) {
            Some(i) => Some(i + 1),
            None => None,
        }
    }
}

/// Chooses the binary the unit runs: `explicit` (the value of
/// `SYNCTHING_BINARY`, with whether it is a file) when set, which must then
/// be a file; otherwise the first candidate on `$PATH` that is a file.
pub fn choose_binary(explicit: Option<(&str, bool)>, candidates: &Vec<String>, present: &Vec<bool>) -> (r: Result<String, BinaryError>)
    requires
        candidates@.len() == present@.len(),
    ensures
        match explicit {
            Some((p, is_file)) => if is_file {
                r matches Ok(b) && b@ == p@
            } else {
                r matches Err(BinaryError::NotAFile { path }) && path@ == p@
            },
            None => match first_set(present@) {
                Some(i) => r matches Ok(b) && b@ == candidates@[i]@,
                None => r matches Err(BinaryError::NotOnPath),
            },
        },
{
    if let Some((p, is_file)) = explicit {
        if is_file {
            return Ok(owned(p));
        }
        return Err(BinaryError::NotAFile { path: owned(p) });
    }
    let n = present.len();
    let mut i: usize = 0;
    assert(present@.skip(0) =~= present@);
    while i < n
        invariant
            n == present@.len(),
            n == candidates@.len(),
            explicit is None,
            i <= n,
            first_set(present@) == match first_set(present@.skip(i as int)) {
                Some(j) => Some(j + i),
                None => None,
            },
        decreases n - i,
    {
        assert(present@.skip(i as int)[0] == present@[i as int]);
        if present[i] {
            return Ok(candidates[i].clone());
        }
        assert(present@.skip(i as int).drop_first() =~= present@.skip(i + 1));
        i += 1;
    }
    Err(BinaryError::NotOnPath)
}

} // verus!
