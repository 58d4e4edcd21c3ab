use vstd::prelude::*;

use crate::paths::{join_path, join_path_spec};

verus! {

/// Stable identifier of a module slot, assigned at discovery.
#[derive(Clone, Copy, Debug, Hash, PartialEq, Eq, Structural)]
pub struct ModuleId(pub u32);

/// One discovered plugin: its name, the binary it comes from, whether the
/// binary is mapped, and whether the module is meant to be on screen.
#[derive(Debug)]
pub struct ModuleInfo {
    pub name: String,
    pub path: String,
    pub loaded: bool,
    pub toggled: bool,
}

impl ModuleInfo {
    /// A record for a plugin that is known but not loaded.
    pub fn new(name: String, path: String) -> (r: ModuleInfo)
        ensures
            r.name == name,
            r.path == path,
            !r.loaded,
            !r.toggled,
    {
        ModuleInfo { name, path, loaded: false, toggled: false }
    }

    pub fn is_loaded(&self) -> (r: bool)
        ensures
            r == self.loaded,
    {
        self.loaded
    }

    /// Records that the plugin's binary was mapped and its instance built;
    /// a record that is already loaded stays as it is.
    pub fn mark_loaded(&mut self)
        ensures
            final(self).loaded,
            final(self).toggled == old(self).toggled,
            final(self).name == old(self).name,
            final(self).path == old(self).path,
    {
        self.loaded = true;
    }

    /// Records that the instance was destroyed; an unloaded module is hidden.
    pub fn unload(&mut self)
        ensures
            !final(self).loaded,
            !final(self).toggled,
            final(self).name == old(self).name,
            final(self).path == old(self).path,
    {
        self.loaded = false;
        self.toggled = false;
    }
}

/// The file-name suffix of a plugin binary.
pub open spec fn plugin_suffix() -> Seq<char> {
    ".so"@
}

/// The module name of a plugin file: its name without the suffix, where
/// the file carries the suffix and something precedes it.
pub open spec fn stem_of(f: Seq<char>) -> Option<Seq<char>> {
    if f.len() > 3 && f.subrange(f.len() - 3, f.len() as int) == plugin_suffix() {
        Some(f.subrange(0, f.len() - 3))
    } else {
        None
    }
}

/// Gives the module name of plugin file `file`, or nothing for another file.
pub fn plugin_stem(file: &str) -> (r: Option<String>)
    ensures
        match r {
            Some(s) => stem_of(file@) == Some(s@),
            None => stem_of(file@) is None,
        },
{
    let n = file.unicode_len();
    if n <= 3 {
        return None;
    }
    let c0 = file.get_char(n - 3);
    let c1 = file.get_char(n - 2);
    let c2 = file.get_char(n - 1);
    proof {
        reveal_strlit(".so");
    }
    if c0 == '.' && c1 == 's' && c2 == 'o' {
        assert(file@.subrange(n - 3, n as int) =~= plugin_suffix());
        Some(String::from_str(file.substring_char(0, n - 3)))
    } else {
        assert(file@.subrange(n - 3, n as int)[0] == c0);
        assert(file@.subrange(n - 3, n as int)[1] == c1);
        assert(file@.subrange(n - 3, n as int)[2] == c2);
        None
    }
}

/// Lexicographic order on names, by code point.
pub open spec fn name_lt(a: Seq<char>, b: Seq<char>) -> bool
    decreases a.len(),
{
    if a.len() == 0 {
        b.len() > 0
    } else if b.len() == 0 {
        false
    } else if a[0] != b[0] {
        a[0] < b[0]
    } else {
        name_lt(a.subrange(1, a.len() as int), b.subrange(1, b.len() as int))
    }
}

proof fn lemma_name_lt_total(a: Seq<char>, b: Seq<char>)
    requires
        a != b,
        !name_lt(a, b),
    ensures
        name_lt(b, a),
    decreases a.len(),
{
    if a.len() > 0 && b.len() > 0 && a[0] == b[0] {
        let a1 = a.subrange(1, a.len() as int);
        let b1 = b.subrange(1, b.len() as int);
        if a1 == b1 {
            assert(a =~= seq![a[0]] + a1);
            assert(b =~= seq![b[0]] + b1);
        }
        lemma_name_lt_total(a1, b1);
    } else if a.len() == 0 && b.len() == 0 {
        assert(a =~= b);
    }
}

/// Whether name `a` sorts before name `b`.
pub fn name_less(a: &str, b: &str) -> (r: bool)
    ensures
        r == name_lt(a@, b@),
{
    let na = a.unicode_len();
    let nb = b.unicode_len();
    let mut i: usize = 0;
    assert(a@.subrange(0, na as int) =~= a@);
    assert(b@.subrange(0, nb as int) =~= b@);
    while i < na && i < nb
        invariant
            na == a@.len(),
            nb == b@.len(),
            i <= na,
            i <= nb,
            name_lt(a@, b@) == name_lt(a@.subrange(i as int, na as int), b@.subrange(i as int, nb as int)),
        decreases na - i,
    {
        let ca = a.get_char(i);
        let cb = b.get_char(i);
        let ghost sa = a@.subrange(i as int, na as int);
        let ghost sb = b@.subrange(i as int, nb as int);
        assert(sa[0] == ca);
        assert(sb[0] == cb);
        if ca != cb {
            return ca < cb;
        }
        assert(sa.subrange(1, sa.len() as int) =~= a@.subrange(i + 1, na as int));
        assert(sb.subrange(1, sb.len() as int) =~= b@.subrange(i + 1, nb as int));
        i = i + 1;
    }
    i == na && i < nb
}

/// Whether the names of `v` ascend strictly from each record to the next.
pub open spec fn sorted_by_name(v: Seq<ModuleInfo>) -> bool {
    forall|i: int| 0 <= i < v.len() - 1 ==> name_lt(#[trigger] v[i].name@, v[i + 1].name@)
}

pub open spec fn distinct_module_names(v: Seq<ModuleInfo>) -> bool {
    forall|i: int, j: int| 0 <= i < j < v.len() ==> v[i].name@ != v[j].name@
}

/// Whether some file of `files` is the plugin named `n`.
pub open spec fn offers(files: Seq<String>, n: Seq<char>) -> bool {
    exists|i: int| 0 <= i < files.len() && stem_of(#[trigger] files[i]@) == Some(n)
}

/// Where discovery takes plugin `n` from: the user directory shadows the
/// system one.
pub open spec fn source_path(
    system_dir: Seq<char>,
    system: Seq<String>,
    user_dir: Seq<char>,
    user: Seq<String>,
    n: Seq<char>,
) -> Seq<char> {
    if offers(user, n) {
        join_path_spec(user_dir, n + plugin_suffix())
    } else {
        join_path_spec(system_dir, n + plugin_suffix())
    }
}

/// Whether `v` holds a record named `n`.
pub open spec fn has_module(v: Seq<ModuleInfo>, n: Seq<char>) -> bool {
    exists|i: int| 0 <= i < v.len() && #[trigger] v[i].name@ == n
}

/// Adds the plugins among `files` to the discovered set, a plugin of the same
/// name taking the place of the one held before.
fn add_plugins(out: &mut Vec<ModuleInfo>, dir: &str, files: &Vec<String>)
    requires
        sorted_by_name(old(out)@),
        distinct_module_names(old(out)@),
        forall|i: int| 0 <= i < old(out)@.len() ==> !(#[trigger] old(out)@[i]).loaded && !old(out)@[i].toggled,
    ensures
        sorted_by_name(final(out)@),
        distinct_module_names(final(out)@),
        forall|i: int| 0 <= i < final(out)@.len() ==> !(#[trigger] final(out)@[i]).loaded && !final(out)@[i].toggled,
        forall|n: Seq<char>| #[trigger] has_module(final(out)@, n) <==> (has_module(old(out)@, n) || offers(files@, n)),
        forall|i: int| 0 <= i < final(out)@.len() ==> {
            let m = #[trigger] final(out)@[i];
            if offers(files@, m.name@) {
                m.path@ == join_path_spec(dir@, m.name@ + plugin_suffix())
            } else {
                exists|j: int| 0 <= j < old(out)@.len() && old(out)@[j].name@ == m.name@ && old(out)@[j].path@ == m.path@
            }
        },
{
    let mut k: usize = 0;
    while k < files.len()
        invariant
            k <= files.len(),
            sorted_by_name(out@),
            distinct_module_names(out@),
            forall|i: int| 0 <= i < out@.len() ==> !(#[trigger] out@[i]).loaded && !out@[i].toggled,
            forall|n: Seq<char>| has_module(out@, n) <==> (has_module(old(out)@, n) || offers(files@.subrange(0, k as int), n)),
            forall|i: int| 0 <= i < out@.len() ==> {
                let m = #[trigger] out@[i];
                if offers(files@.subrange(0, k as int), m.name@) {
                    m.path@ == join_path_spec(dir@, m.name@ + plugin_suffix())
                } else {
                    exists|j: int| 0 <= j < old(out)@.len() && old(out)@[j].name@ == m.name@ && old(out)@[j].path@ == m.path@
                }
            },
        decreases files.len() - k,
    {
        let ghost pre = files@.subrange(0, k as int);
        let ghost post = files@.subrange(0, k + 1);
        let ghost before = out@;
        proof {
            assert forall|n: Seq<char>| offers(post, n) <==> (offers(pre, n) || stem_of(files@[k as int]@) == Some(n)) by {
                if offers(post, n) {
                    let i = choose|i: int| 0 <= i < post.len() && stem_of(#[trigger] post[i]@) == Some(n);
                    if i < k {
                        assert(pre[i] == post[i]);
                    }
                }
                if offers(pre, n) {
                    let i = choose|i: int| 0 <= i < pre.len() && stem_of(#[trigger] pre[i]@) == Some(n);
                    assert(post[i] == pre[i]);
                }
                if stem_of(files@[k as int]@) == Some(n) {
                    assert(post[k as int] == files@[k as int]);
                }
            }
        }
        match plugin_stem(files[k].as_str()) {
            None => {
                proof {
                    assert forall|n: Seq<char>| offers(post, n) == offers(pre, n) by {}
                }
            },
            Some(name) => {
                let mut file_name = name.clone();
                file_name.append(".so");
                proof {
                    reveal_strlit(".so");
                }
                let path = join_path(dir, file_name.as_str());
                assert(path@ == join_path_spec(dir@, name@ + plugin_suffix()));
                insert_sorted(out, name, path);
                proof {
                    assert forall|i: int| 0 <= i < out@.len() implies {
                        let m = #[trigger] out@[i];
                        if offers(post, m.name@) {
                            m.path@ == join_path_spec(dir@, m.name@ + plugin_suffix())
                        } else {
                            exists|j: int| 0 <= j < old(out)@.len() && old(out)@[j].name@ == m.name@ && old(out)@[j].path@ == m.path@
                        }
                    } by {
                        let m = out@[i];
                        if m.name@ != name@ {
                            let j = choose|j: int| 0 <= j < before.len() && before[j].name@ == m.name@ && before[j].path@ == m.path@;
                            let bm = before[j];
                            assert(offers(post, m.name@) == offers(pre, m.name@));
                        }
                    }
                }
            },
        }
        k = k + 1;
    }
    assert(files@.subrange(0, files@.len() as int) =~= files@);
}

/// Puts a record named `name` into the sorted set `out`: in place of the
/// record of that name, or at the position its name sorts to.
#[verifier::rlimit(60)]
fn insert_sorted(out: &mut Vec<ModuleInfo>, name: String, path: String)
    requires
        sorted_by_name(old(out)@),
        distinct_module_names(old(out)@),
        forall|i: int| 0 <= i < old(out)@.len() ==> !(#[trigger] old(out)@[i]).loaded && !old(out)@[i].toggled,
    ensures
        sorted_by_name(final(out)@),
        distinct_module_names(final(out)@),
        forall|i: int| 0 <= i < final(out)@.len() ==> !(#[trigger] final(out)@[i]).loaded && !final(out)@[i].toggled,
        forall|n: Seq<char>| has_module(final(out)@, n) <==> (has_module(old(out)@, n) || n == name@),
        forall|i: int| 0 <= i < final(out)@.len() ==> {
            let m = #[trigger] final(out)@[i];
            if m.name@ == name@ {
                m.path@ == path@
            } else {
                exists|j: int| 0 <= j < old(out)@.len() && old(out)@[j].name@ == m.name@ && old(out)@[j].path@ == m.path@
            }
        },
{
    let ghost before = out@;
    let mut p: usize = 0;
    while p < out.len()
        invariant
            out@ == before,
            p <= out@.len(),
            forall|j: int| 0 <= j < p ==> name_lt(#[trigger] out@[j].name@, name@),
        ensures
            out@ == before,
            p <= out@.len(),
            forall|j: int| 0 <= j < p ==> name_lt(#[trigger] out@[j].name@, name@),
            p < out@.len() ==> !name_lt(out@[p as int].name@, name@),
        decreases out@.len() - p,
    {
        if !name_less(out[p].name.as_str(), name.as_str()) {
            break;
        }
        p = p + 1;
    }
    if p < out.len() && out[p].name == name {
        let record = ModuleInfo::new(name, path);
        out.set(p, record);
        proof {
            assert forall|i: int| 0 <= i < out@.len() - 1 implies name_lt(#[trigger] out@[i].name@, out@[i + 1].name@) by {
                assert(name_lt(before[i].name@, before[i + 1].name@));
            }
            assert forall|n: Seq<char>| has_module(out@, n) <==> (has_module(before, n) || n == out@[p as int].name@) by {
                if has_module(before, n) {
                    let j = choose|j: int| 0 <= j < before.len() && #[trigger] before[j].name@ == n;
                    assert(out@[j].name@ == n);
                }
                if has_module(out@, n) {
                    let j = choose|j: int| 0 <= j < out@.len() && #[trigger] out@[j].name@ == n;
                    assert(before[j].name@ == n);
                }
            }
            assert forall|i: int| 0 <= i < out@.len() implies {
                let m = #[trigger] out@[i];
                if m.name@ == out@[p as int].name@ {
                    m.path@ == out@[p as int].path@
                } else {
                    exists|j: int| 0 <= j < before.len() && before[j].name@ == m.name@ && before[j].path@ == m.path@
                }
            } by {
                if i != p {
                    assert(before[i] == out@[i]);
                }
            }
        }
    } else {
        proof {
            if p < before.len() {
                lemma_name_lt_total(before[p as int].name@, name@);
            }
            assert forall|j: int| 0 <= j < p implies #[trigger] before[j].name@ != name@ by {
                lemma_name_lt_irreflexive(before[j].name@, name@);
            }
            if has_module(before, name@) {
                let j = choose|j: int| 0 <= j < before.len() && #[trigger] before[j].name@ == name@;
                if j > p {
                    lemma_sorted_chain(before, p as int, j);
                    lemma_name_lt_irreflexive(name@, before[j].name@);
                    lemma_name_lt_asym(name@, before[p as int].name@);
                }
            }
        }
        let record = ModuleInfo::new(name, path);
        let ghost rname = record.name@;
        out.insert(p, record);
        proof {
            assert forall|i: int| 0 <= i < out@.len() - 1 implies name_lt(#[trigger] out@[i].name@, out@[i + 1].name@) by {
                if i < p as int - 1 {
                    assert(name_lt(before[i].name@, before[i + 1].name@));
                } else if i == p as int - 1 {
                } else if i == p as int {
                } else {
                    assert(name_lt(before[i - 1].name@, before[i].name@));
                }
            }
            assert forall|i: int, j: int| 0 <= i < j < out@.len() implies out@[i].name@ != out@[j].name@ by {
                if i == p as int {
                    assert(out@[j] == before[j - 1]);
                } else if j == p as int {
                    assert(out@[i] == before[i]);
                } else {
                    let bi = if i < p { i } else { i - 1 };
                    let bj = if j < p { j } else { j - 1 };
                    assert(out@[i] == before[bi]);
                    assert(out@[j] == before[bj]);
                }
            }
            assert forall|n: Seq<char>| has_module(out@, n) <==> (has_module(before, n) || n == rname) by {
                if has_module(before, n) {
                    let j = choose|j: int| 0 <= j < before.len() && #[trigger] before[j].name@ == n;
                    if j < p {
                        assert(out@[j].name@ == n);
                    } else {
                        assert(out@[j + 1].name@ == n);
                    }
                }
                if has_module(out@, n) {
                    let j = choose|j: int| 0 <= j < out@.len() && #[trigger] out@[j].name@ == n;
                    if j < p {
                        assert(before[j].name@ == n);
                    } else if j > p {
                        assert(before[j - 1].name@ == n);
                    }
                }
                if n == rname {
                    assert(out@[p as int].name@ == n);
                }
            }
            assert forall|i: int| 0 <= i < out@.len() implies {
                let m = #[trigger] out@[i];
                if m.name@ == rname {
                    m.path@ == path@
                } else {
                    exists|j: int| 0 <= j < before.len() && before[j].name@ == m.name@ && before[j].path@ == m.path@
                }
            } by {
                if i < p {
                    assert(before[i] == out@[i]);
                } else if i > p {
                    assert(before[i - 1] == out@[i]);
                }
            }
        }
    }
}

proof fn lemma_name_lt_irreflexive(a: Seq<char>, b: Seq<char>)
    requires
        name_lt(a, b),
    ensures
        a != b,
    decreases a.len(),
{
    if a == b && a.len() > 0 {
        lemma_name_lt_irreflexive(a.subrange(1, a.len() as int), b.subrange(1, b.len() as int));
    }
}

proof fn lemma_name_lt_asym(a: Seq<char>, b: Seq<char>)
    requires
        name_lt(a, b),
    ensures
        !name_lt(b, a),
    decreases a.len(),
{
    if a.len() > 0 && b.len() > 0 && a[0] == b[0] {
        lemma_name_lt_asym(a.subrange(1, a.len() as int), b.subrange(1, b.len() as int));
    }
}

proof fn lemma_name_lt_trans(a: Seq<char>, b: Seq<char>, c: Seq<char>)
    requires
        name_lt(a, b),
        name_lt(b, c),
    ensures
        name_lt(a, c),
    decreases a.len(),
{
    if a.len() > 0 && b.len() > 0 && c.len() > 0 && a[0] == b[0] && b[0] == c[0] {
        lemma_name_lt_trans(
            a.subrange(1, a.len() as int),
            b.subrange(1, b.len() as int),
            c.subrange(1, c.len() as int),
        );
    }
}

proof fn lemma_sorted_chain(v: Seq<ModuleInfo>, i: int, j: int)
    requires
        sorted_by_name(v),
        0 <= i < j < v.len(),
    ensures
        name_lt(v[i].name@, v[j].name@),
    decreases j - i,
{
    if j > i + 1 {
        lemma_sorted_chain(v, i, j - 1);
        assert(name_lt(v[j - 1].name@, v[j].name@));
        lemma_name_lt_trans(v[i].name@, v[j - 1].name@, v[j].name@);
    }
}

/// What discovery yields from the two directories: records sorted by name,
/// one per plugin name that either offers, each from the user directory where
/// it offers that name, none of them loaded or shown.
pub open spec fn discovered(
    r: Seq<ModuleInfo>,
    system_dir: Seq<char>,
    system: Seq<String>,
    user_dir: Seq<char>,
    user: Seq<String>,
) -> bool {
    &&& sorted_by_name(r)
    &&& distinct_module_names(r)
    &&& forall|n: Seq<char>| #[trigger] has_module(r, n) <==> (offers(system, n) || offers(user, n))
    &&& forall|i: int| 0 <= i < r.len() ==> (#[trigger] r[i]).path@ == source_path(system_dir, system, user_dir, user, r[i].name@)
    &&& forall|i: int| 0 <= i < r.len() ==> !(#[trigger] r[i]).loaded && !r[i].toggled
}

/// Discovers the plugins of the system directory and of the user directory.
pub fn discover(
    system_dir: &str,
    system_files: &Vec<String>,
    user_dir: &str,
    user_files: &Vec<String>,
) -> (r: Vec<ModuleInfo>)
    ensures
        discovered(r@, system_dir@, system_files@, user_dir@, user_files@),
{
    let mut out: Vec<ModuleInfo> = Vec::new();
    let ghost none = out@;
    add_plugins(&mut out, system_dir, system_files);
    let ghost sys = out@;
    add_plugins(&mut out, user_dir, user_files);
    proof {
        assert forall|n: Seq<char>| has_module(out@, n) <==> (offers(system_files@, n) || offers(user_files@, n)) by {
            assert(!has_module(none, n));
            assert(has_module(sys, n) <==> (has_module(none, n) || offers(system_files@, n)));
            assert(has_module(out@, n) <==> (has_module(sys, n) || offers(user_files@, n)));
        }
        assert forall|i: int| 0 <= i < out@.len() implies (#[trigger] out@[i]).path@ == source_path(system_dir@, system_files@, user_dir@, user_files@, out@[i].name@) by {
            let m = out@[i];
            if !offers(user_files@, m.name@) {
                let j = choose|j: int| 0 <= j < sys.len() && sys[j].name@ == m.name@ && sys[j].path@ == m.path@;
                let sm = sys[j];
                assert(offers(system_files@, sm.name@));
            }
        }
    }
    out
}

/// A plugin that both directories offer is discovered exactly once, and
/// from the user directory.
pub proof fn lemma_user_plugin_shadows(
    r: Seq<ModuleInfo>,
    system_dir: Seq<char>,
    system: Seq<String>,
    user_dir: Seq<char>,
    user: Seq<String>,
    n: Seq<char>,
)
    requires
        discovered(r, system_dir, system, user_dir, user),
        offers(system, n),
        offers(user, n),
    ensures
        exists|i: int| 0 <= i < r.len() && #[trigger] r[i].name@ == n && r[i].path@ == join_path_spec(user_dir, n + plugin_suffix()),
        forall|i: int, j: int| 0 <= i < r.len() && 0 <= j < r.len() && #[trigger] r[i].name@ == n && #[trigger] r[j].name@ == n ==> i == j,
{
    assert(has_module(r, n));
    let i = choose|i: int| 0 <= i < r.len() && #[trigger] r[i].name@ == n;
    assert(r[i].path@ == source_path(system_dir, system, user_dir, user, r[i].name@));
}

} // verus!
