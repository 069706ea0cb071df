//! Joining path components as the daemon lays out its data directory.
use vstd::prelude::*;
use vstd::string::{StrSliceExecFns, StringExecFns};

verus! {

/// `a` followed by the component `b`, with one `/` between them.
pub open spec fn path_join(a: Seq<char>, b: Seq<char>) -> Seq<char> {
    if a.len() == 0 {
        b
    } else if a.last() == '/' {
        a + b
    } else {
        a + seq!['/'] + b
    }
}

/// Appends the component `b` to the path `a`.
pub fn join(a: &str, b: &str) -> (r: String)
    ensures
        r@ == path_join(a@, b@),
{
    let n = a.unicode_len();
    let mut out = String::from_str(a);
    if n > 0 && a.get_char(n - 1) != '/' {
        out.append("/");
        proof {
            reveal_strlit("/");
        }
    }
    out.append(b);
    out
}

/// The control socket under the per-user runtime directory.
pub fn socket_path(runtime_dir: &str) -> (r: String)
    ensures
        r@ == path_join(runtime_dir@, "minecraftd.sock"@),
{
    join(runtime_dir, "minecraftd.sock")
}

/// The single-instance lock file under the per-user runtime directory.
pub fn lock_path(runtime_dir: &str) -> (r: String)
    ensures
        r@ == path_join(runtime_dir@, "minecraftd.lock"@),
{
    join(runtime_dir, "minecraftd.lock")
}

/// The persisted auto-start set under the data directory.
pub fn auto_start_path(data_dir: &str) -> (r: String)
    ensures
        r@ == path_join(path_join(data_dir@, "minecraftd"@), "auto_start.json"@),
{
    let a = join(data_dir, "minecraftd");
    join(a.as_str(), "auto_start.json")
}

} // verus!
