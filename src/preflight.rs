use vstd::prelude::*;

use crate::types::{join_path, AppPaths};

verus! {

/// The layout below a storage root.
pub fn _resolve_paths(base: String) -> (r: AppPaths)
    ensures
        r.base@ == base@,
        r.repo@ == join_path(base@, "repo"@),
        r.run@ == join_path(base@, "run"@),
        r.tmp@ == join_path(base@, "tmp"@),
        r.git_lock@ == join_path(join_path(base@, "run"@), "git.lock"@),
        r.idempotency@ == join_path(join_path(base@, "run"@), "idempotency"@),
{
    AppPaths::from_base(base)
}

/// The daemon lock file below the run directory.
pub fn daemon_lock_path(paths: &AppPaths) -> (r: String)
    ensures
        r@ == join_path(paths.run@, "daemon.lock"@),
{
    crate::types::join_path_exec(paths.run.as_str(), "daemon.lock")
}

} // verus!
