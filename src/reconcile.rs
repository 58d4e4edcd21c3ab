use vstd::prelude::*;

use crate::config::{
    block_in, enabled_in, find_block, find_flag, has_key, named_in, ConfigSnapshot,
};
use crate::orbit::Orbit;
use crate::yaml::{blocks_same, same_block};

verus! {

/// What one module must do to follow a configuration change.
#[derive(Clone, Copy, Debug, PartialEq, Eq, Structural)]
pub struct ConfigInstruction {
    pub should_unrealize: bool,
    pub should_realize: bool,
    pub config_changed: bool,
}

/// The instruction that a change from `old` to `new` gives module `n`.
pub open spec fn instruction_for(old: ConfigSnapshot, new: ConfigSnapshot, n: Seq<char>) -> ConfigInstruction {
    ConfigInstruction {
        should_unrealize: enabled_in(old, n) && !enabled_in(new, n),
        should_realize: !enabled_in(old, n) && enabled_in(new, n),
        config_changed: enabled_in(new, n) && !blocks_same(block_in(old, n), block_in(new, n)),
    }
}

/// Whether `v` holds the name `n`.
pub open spec fn lists_name(v: Seq<String>, n: Seq<char>) -> bool {
    exists|i: int| 0 <= i < v.len() && #[trigger] v[i]@ == n
}

/// Whether no name occurs twice in `v`.
pub open spec fn distinct_names(v: Seq<String>) -> bool {
    forall|i: int, j: int| 0 <= i < j < v.len() ==> v[i]@ != v[j]@
}

/// Whether no key occurs twice in `v`.
pub open spec fn distinct_keys<V>(v: Seq<(String, V)>) -> bool {
    forall|i: int, j: int| 0 <= i < j < v.len() ==> v[i].0@ != v[j].0@
}

fn lists(names: &Vec<String>, name: &String) -> (r: bool)
    ensures
        r == lists_name(names@, name@),
{
    let mut i: usize = 0;
    while i < names.len()
        invariant
            i <= names.len(),
            forall|j: int| 0 <= j < i ==> #[trigger] names@[j]@ != name@,
        decreases names.len() - i,
    {
        if names[i] == *name {
            return true;
        }
        i = i + 1;
    }
    false
}

/// Appends each key of `src` that `names` does not list yet.
fn add_names<V>(names: &mut Vec<String>, src: &Vec<(String, V)>)
    requires
        distinct_names(old(names)@),
    ensures
        distinct_names(final(names)@),
        forall|n: Seq<char>| lists_name(final(names)@, n) <==> (lists_name(old(names)@, n) || has_key(src@, n)),
{
    let mut i: usize = 0;
    while i < src.len()
        invariant
            i <= src.len(),
            distinct_names(names@),
            forall|n: Seq<char>| lists_name(names@, n) <==> (lists_name(old(names)@, n) || exists|j: int| 0 <= j < i && #[trigger] src@[j].0@ == n),
        decreases src.len() - i,
    {
        let ghost before = names@;
        if !lists(names, &src[i].0) {
            names.push(src[i].0.clone());
            proof {
                assert(names@[before.len() as int] == src@[i as int].0);
                assert forall|n: Seq<char>| lists_name(names@, n) <==> (lists_name(before, n) || n == src@[i as int].0@) by {
                    if lists_name(names@, n) {
                        let k = choose|k: int| 0 <= k < names@.len() && #[trigger] names@[k]@ == n;
                        if k < before.len() {
                            assert(before[k]@ == n);
                        }
                    }
                    if lists_name(before, n) {
                        let k = choose|k: int| 0 <= k < before.len() && #[trigger] before[k]@ == n;
                        assert(names@[k]@ == n);
                    }
                    if n == src@[i as int].0@ {
                        assert(names@[before.len() as int]@ == n);
                    }
                }
            }
        } else {
            proof {
                let k = choose|k: int| 0 <= k < before.len() && #[trigger] before[k]@ == src@[i as int].0@;
            }
        }
        proof {
            assert(lists_name(names@, src@[i as int].0@));
            assert forall|n: Seq<char>| lists_name(names@, n) <==> (lists_name(old(names)@, n) || exists|j: int| 0 <= j < i + 1 && #[trigger] src@[j].0@ == n) by {
                if exists|j: int| 0 <= j < i + 1 && #[trigger] src@[j].0@ == n {
                    let j = choose|j: int| 0 <= j < i + 1 && #[trigger] src@[j].0@ == n;
                    if j < i {
                        assert(exists|j: int| 0 <= j < i && #[trigger] src@[j].0@ == n);
                    }
                }
                if exists|j: int| 0 <= j < i && #[trigger] src@[j].0@ == n {
                    let j = choose|j: int| 0 <= j < i && #[trigger] src@[j].0@ == n;
                    assert(0 <= j < i + 1 && src@[j].0@ == n);
                }
                if n == src@[i as int].0@ {
                    assert(0 <= i < i + 1 && src@[i as int].0@ == n);
                }
                if lists_name(before, n) {
                    assert(lists_name(old(names)@, n) || exists|j: int| 0 <= j < i && #[trigger] src@[j].0@ == n);
                }
            }
        }
        i = i + 1;
    }
}

impl<T> Orbit<T> {
    /// Compares two configurations and gives, for every module that either names,
    /// the instruction that the change implies. Each name occurs once.
    pub fn compare_configs(old: &ConfigSnapshot, new: &ConfigSnapshot) -> (r: Vec<(String, ConfigInstruction)>)
        ensures
            distinct_keys(r@),
            forall|n: Seq<char>| has_key(r@, n) <==> (named_in(*old, n) || named_in(*new, n)),
            forall|i: int| 0 <= i < r@.len() ==> #[trigger] r@[i].1 == instruction_for(*old, *new, r@[i].0@),
    {
        let mut names: Vec<String> = Vec::new();
        add_names(&mut names, &old.enables);
        add_names(&mut names, &old.blocks);
        add_names(&mut names, &new.enables);
        add_names(&mut names, &new.blocks);

        let mut out: Vec<(String, ConfigInstruction)> = Vec::new();
        let mut i: usize = 0;
        while i < names.len()
            invariant
                i <= names.len(),
                distinct_names(names@),
                out@.len() == i,
                forall|j: int| 0 <= j < i ==> #[trigger] out@[j].0@ == names@[j]@,
                forall|j: int| 0 <= j < i ==> #[trigger] out@[j].1 == instruction_for(*old, *new, out@[j].0@),
            decreases names.len() - i,
        {
            let name = &names[i];
            let was = find_flag(&old.enables, name) == Some(true);
            let now = find_flag(&new.enables, name) == Some(true);
            let same = same_block(find_block(&old.blocks, name), find_block(&new.blocks, name));
            let instr = ConfigInstruction {
                should_unrealize: was && !now,
                should_realize: !was && now,
                config_changed: now && !same,
            };
            let ghost prev = out@;
            out.push((name.clone(), instr));
            assert(out@[i as int].0@ == names@[i as int]@);
            assert forall|j: int| 0 <= j < i + 1 implies #[trigger] out@[j].0@ == names@[j]@ by {
                if j < i {
                    assert(out@[j] == prev[j]);
                    assert(prev[j].0@ == names@[j]@);
                }
            }
            i = i + 1;
        }
        proof {
            assert forall|n: Seq<char>| has_key(out@, n) <==> lists_name(names@, n) by {
                if has_key(out@, n) {
                    let k = choose|k: int| 0 <= k < out@.len() && #[trigger] out@[k].0@ == n;
                    assert(names@[k]@ == n);
                }
                if lists_name(names@, n) {
                    let k = choose|k: int| 0 <= k < names@.len() && #[trigger] names@[k]@ == n;
                    assert(out@[k].0@ == n);
                }
            }
        }
        out
    }
}

/// Comparing a configuration with itself asks nothing of any module.
pub proof fn lemma_identity_compare(s: ConfigSnapshot, n: Seq<char>)
    ensures
        instruction_for(s, s, n) == (ConfigInstruction {
            should_unrealize: false,
            should_realize: false,
            config_changed: false,
        }),
{
}

/// No change asks one module both to realize and to unrealize.
pub proof fn lemma_realize_excludes_unrealize(a: ConfigSnapshot, b: ConfigSnapshot, n: Seq<char>)
    ensures
        !(instruction_for(a, b, n).should_unrealize && instruction_for(a, b, n).should_realize),
{
}

} // verus!
