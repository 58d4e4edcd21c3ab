use vstd::prelude::*;

verus! {

/// A path segment appended to a base directory, with one separator between.
pub open spec fn join_path_spec(base: Seq<char>, seg: Seq<char>) -> Seq<char> {
    if base.len() == 0 {
        seg
    } else if base.last() == '/' {
        base + seg
    } else {
        base + "/"@ + seg
    }
}

/// Appends the relative segment `seg` to the directory `base`.
pub fn join_path(base: &str, seg: &str) -> (r: String)
    ensures
        r@ == join_path_spec(base@, seg@),
{
    let n = base.unicode_len();
    if n == 0 {
        return String::from_str(seg);
    }
    let mut out = String::from_str(base);
    if base.get_char(n - 1) != '/' {
        out.append("/");
    }
    out.append(seg);
    proof {
        reveal_strlit("/");
    }
    out
}

/// The directory of user-supplied plugins under the configuration root.
pub fn modules_dir(base: &str) -> (r: String)
    ensures
        r@ == join_path_spec(base@, "modules"@),
{
    join_path(base, "modules")
}

/// The configuration file under the configuration root.
pub fn cfg_path(base: &str) -> (r: String)
    ensures
        r@ == join_path_spec(base@, "config.yaml"@),
{
    join_path(base, "config.yaml")
}

} // verus!
