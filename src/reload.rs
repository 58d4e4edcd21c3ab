use vstd::prelude::*;

use crate::config::{enabled_in, has_key, named_in, ConfigSnapshot};
use crate::module::{ModuleId, ModuleInfo};
use crate::orbit::Orbit;
use crate::reconcile::{distinct_keys, instruction_for, ConfigInstruction};

verus! {

/// One action that a configuration change asks of a module, in the order
/// they are carried out.
#[derive(Clone, Copy, Debug, PartialEq, Eq, Structural)]
pub enum Step {
    /// Take the module off the screen; its library stays loaded.
    Unrealize,
    /// Load the module if needed and have it check its new configuration.
    Validate,
    /// Put the module on the screen.
    Realize,
    /// Hand the new configuration to the module, which stays on screen.
    PushConfig,
}

/// The steps of one instruction: unrealize before anything else, validate
/// before realizing, and a configuration push only for a module that stays
/// realized.
pub open spec fn steps_for(i: ConfigInstruction) -> Seq<Step> {
    (if i.should_unrealize { seq![Step::Unrealize] } else { Seq::empty() })
        + (if i.should_realize || i.config_changed { seq![Step::Validate] } else { Seq::empty() })
        + (if i.should_realize { seq![Step::Realize] } else { Seq::empty() })
        + (if !i.should_realize && i.config_changed { seq![Step::PushConfig] } else { Seq::empty() })
}

/// The steps that carry out instruction `i`, in order.
pub fn plan_instruction(i: ConfigInstruction) -> (r: Vec<Step>)
    ensures
        r@ == steps_for(i),
        r@.len() == 0 <==> !(i.should_unrealize || i.should_realize || i.config_changed),
{
    let mut out: Vec<Step> = Vec::new();
    if i.should_unrealize {
        out.push(Step::Unrealize);
    }
    if i.should_realize || i.config_changed {
        out.push(Step::Validate);
    }
    if i.should_realize {
        out.push(Step::Realize);
    }
    if !i.should_realize && i.config_changed {
        out.push(Step::PushConfig);
    }
    assert(out@ =~= steps_for(i));
    out
}

/// The message reported for a configured module that no plugin provides.
pub open spec fn missing_message(n: Seq<char>) -> Seq<char> {
    "Module "@ + n + " could not be found."@
}

/// Whether some module of `v` is named `n`.
pub open spec fn registered(v: Seq<ModuleInfo>, n: Seq<char>) -> bool {
    exists|j: int| 0 <= j < v.len() && #[trigger] v[j].name@ == n
}

/// The per-module steps of a configuration change, and the names it refers
/// to that no module answers to.
pub struct ReloadPlan {
    pub steps: Vec<(ModuleId, Vec<Step>)>,
    pub errors: Vec<String>,
}

/// Whether a change from `a` to `b` asks anything of module `n`.
pub open spec fn acts_on(a: ConfigSnapshot, b: ConfigSnapshot, n: Seq<char>) -> bool {
    (named_in(a, n) || named_in(b, n)) && steps_for(instruction_for(a, b, n)).len() > 0
}

/// Every planned entry concerns a known module that the change acts on, with
/// the steps of that module's instruction.
#[verifier::opaque]
pub open spec fn steps_valid<T>(o: Orbit<T>, new: ConfigSnapshot, steps: Seq<(ModuleId, Vec<Step>)>) -> bool {
    forall|k: int| 0 <= k < steps.len() ==> {
        let (m, s) = #[trigger] steps[k];
        &&& o.known(m)
        &&& acts_on(o.config, new, o.modules@[m.0 as int].name@)
        &&& s@ == steps_for(instruction_for(o.config, new, o.modules@[m.0 as int].name@))
    }
}

/// Every error names a module that the change acts on and that no plugin provides.
#[verifier::opaque]
pub open spec fn errors_valid<T>(o: Orbit<T>, new: ConfigSnapshot, errors: Seq<String>) -> bool {
    forall|e: int| 0 <= e < errors.len() ==> exists|n: Seq<char>| #[trigger] missing_message(n) == (#[trigger] errors[e])@
        && acts_on(o.config, new, n) && !registered(o.modules@, n)
}

/// Module name `n` is planned for, or reported missing.
#[verifier::opaque]
pub open spec fn covered<T>(o: Orbit<T>, steps: Seq<(ModuleId, Vec<Step>)>, errors: Seq<String>, n: Seq<char>) -> bool {
    &&& registered(o.modules@, n) ==> exists|k: int| 0 <= k < steps.len() && #[trigger] o.modules@[steps[k].0.0 as int].name@ == n
    &&& !registered(o.modules@, n) ==> exists|e: int| 0 <= e < errors.len() && #[trigger] errors[e]@ == missing_message(n)
}

proof fn lemma_covered_grows<T>(
    o: Orbit<T>,
    steps: Seq<(ModuleId, Vec<Step>)>,
    errors: Seq<String>,
    steps2: Seq<(ModuleId, Vec<Step>)>,
    errors2: Seq<String>,
    n: Seq<char>,
)
    requires
        covered(o, steps, errors, n),
        steps.len() <= steps2.len(),
        errors.len() <= errors2.len(),
        forall|k: int| 0 <= k < steps.len() ==> steps2[k] == steps[k],
        forall|e: int| 0 <= e < errors.len() ==> errors2[e] == errors[e],
    ensures
        covered(o, steps2, errors2, n),
{
    reveal(covered);
    if registered(o.modules@, n) {
        let k = choose|k: int| 0 <= k < steps.len() && #[trigger] o.modules@[steps[k].0.0 as int].name@ == n;
        assert(o.modules@[steps2[k].0.0 as int].name@ == n);
    } else {
        let e = choose|e: int| 0 <= e < errors.len() && #[trigger] errors[e]@ == missing_message(n);
        assert(errors2[e]@ == missing_message(n));
    }
}

impl<T> Orbit<T> {
    /// Plans one instruction of a change: its steps where a module has the
    /// name, an error where none has it, nothing where it asks nothing.
    fn plan_one(
        &self,
        new: &ConfigSnapshot,
        name: &String,
        instr: ConfigInstruction,
        steps: &mut Vec<(ModuleId, Vec<Step>)>,
        errors: &mut Vec<String>,
    )
        requires
            self.wf(),
            instr == instruction_for(self.config, *new, name@),
            named_in(self.config, name@) || named_in(*new, name@),
            steps_valid(*self, *new, old(steps)@),
            errors_valid(*self, *new, old(errors)@),
        ensures
            steps_valid(*self, *new, final(steps)@),
            errors_valid(*self, *new, final(errors)@),
            acts_on(self.config, *new, name@) ==> covered(*self, final(steps)@, final(errors)@, name@),
            old(steps)@.len() <= final(steps)@.len() <= old(steps)@.len() + 1,
            final(steps)@.len() == old(steps)@.len() + 1 ==> self.modules@[final(steps)@.last().0.0 as int].name@ == name@,
            old(errors)@.len() <= final(errors)@.len(),
            forall|k: int| 0 <= k < old(steps)@.len() ==> final(steps)@[k] == old(steps)@[k],
            forall|e: int| 0 <= e < old(errors)@.len() ==> final(errors)@[e] == old(errors)@[e],
    {
        let plan = plan_instruction(instr);
        if plan.len() == 0 {
            return;
        }
        let ghost n = name@;
        match self.find_module(name) {
            Some(m) => {
                steps.push((m, plan));
                proof {
                    reveal(steps_valid);
                    reveal(covered);
                    assert(self.modules@[steps@[steps@.len() - 1].0.0 as int].name@ == n);
                }
            },
            None => {
                let mut msg = String::from_str("Module ");
                msg.append(name.as_str());
                msg.append(" could not be found.");
                errors.push(msg);
                proof {
                    reveal(errors_valid);
                    reveal(covered);
                    assert(errors@[errors@.len() - 1]@ == missing_message(n));
                    assert(!registered(self.modules@, n));
                    assert forall|e: int| 0 <= e < errors@.len() implies exists|n2: Seq<char>| #[trigger] missing_message(n2) == (#[trigger] errors@[e])@
                        && acts_on(self.config, *new, n2) && !registered(self.modules@, n2) by {
                        if e < errors@.len() - 1 {
                            assert(errors@[e] == old(errors)@[e]);
                            let n2 = choose|n2: Seq<char>| #[trigger] missing_message(n2) == old(errors)@[e]@
                                && acts_on(self.config, *new, n2) && !registered(self.modules@, n2);
                            assert(missing_message(n2) == errors@[e]@);
                        } else {
                            assert(missing_message(n) == errors@[e]@);
                        }
                    }
                }
            },
        }
    }

    /// Plans the change from the configuration in force to `new`. Every module
    /// that the change acts on gets its steps; every name it acts on that no
    /// module has gives an error, and the other modules are planned all the
    /// same. Nothing changes until the caller carries the plan out.
    pub fn plan_reload(&self, new: &ConfigSnapshot) -> (r: ReloadPlan)
        requires
            self.wf(),
        ensures
            steps_valid(*self, *new, r.steps@),
            errors_valid(*self, *new, r.errors@),
            forall|n: Seq<char>| #[trigger] acts_on(self.config, *new, n) ==> covered(*self, r.steps@, r.errors@, n),
            forall|i: int, j: int| 0 <= i < j < r.steps@.len() ==> r.steps@[i].0 != r.steps@[j].0,
    {
        let instrs = Self::compare_configs(&self.config, new);
        let mut steps: Vec<(ModuleId, Vec<Step>)> = Vec::new();
        let mut errors: Vec<String> = Vec::new();
        proof {
            reveal(steps_valid);
            reveal(errors_valid);
        }
        let mut k: usize = 0;
        while k < instrs.len()
            invariant
                self.wf(),
                k <= instrs@.len(),
                forall|n: Seq<char>| has_key(instrs@, n) <==> (named_in(self.config, n) || named_in(*new, n)),
                forall|i: int| 0 <= i < instrs@.len() ==> #[trigger] instrs@[i].1 == instruction_for(self.config, *new, instrs@[i].0@),
                steps_valid(*self, *new, steps@),
                errors_valid(*self, *new, errors@),
                forall|j: int| 0 <= j < k && #[trigger] acts_on(self.config, *new, instrs@[j].0@) ==> covered(*self, steps@, errors@, instrs@[j].0@),
                distinct_keys(instrs@),
                forall|q: int| 0 <= q < steps@.len() ==> exists|j: int| 0 <= j < k && #[trigger] instrs@[j].0@ == self.modules@[(#[trigger] steps@[q]).0.0 as int].name@,
                forall|a: int, b: int| 0 <= a < b < steps@.len() ==> steps@[a].0 != steps@[b].0,
            decreases instrs@.len() - k,
        {
            let ghost steps0 = steps@;
            let ghost errors0 = errors@;
            proof {
                assert(has_key(instrs@, instrs@[k as int].0@));
            }
            self.plan_one(new, &instrs[k].0, instrs[k].1, &mut steps, &mut errors);
            proof {
                assert forall|j: int| 0 <= j < k && #[trigger] acts_on(self.config, *new, instrs@[j].0@) implies covered(*self, steps@, errors@, instrs@[j].0@) by {
                    lemma_covered_grows(*self, steps0, errors0, steps@, errors@, instrs@[j].0@);
                }
                assert forall|q: int| 0 <= q < steps@.len() implies exists|j: int| 0 <= j < k + 1 && #[trigger] instrs@[j].0@ == self.modules@[(#[trigger] steps@[q]).0.0 as int].name@ by {
                    if q < steps0.len() {
                        assert(steps@[q] == steps0[q]);
                        let j = choose|j: int| 0 <= j < k && #[trigger] instrs@[j].0@ == self.modules@[(#[trigger] steps0[q]).0.0 as int].name@;
                    } else {
                        assert(instrs@[k as int].0@ == self.modules@[steps@[q].0.0 as int].name@);
                    }
                }
                assert forall|a: int, b: int| 0 <= a < b < steps@.len() implies steps@[a].0 != steps@[b].0 by {
                    if b >= steps0.len() {
                        assert(steps@[a] == steps0[a]);
                        let j = choose|j: int| 0 <= j < k && #[trigger] instrs@[j].0@ == self.modules@[(#[trigger] steps0[a]).0.0 as int].name@;
                        if steps@[a].0 == steps@[b].0 {
                            assert(instrs@[j].0@ == instrs@[k as int].0@);
                        }
                    } else {
                        assert(steps@[a] == steps0[a]);
                        assert(steps@[b] == steps0[b]);
                    }
                }
            }
            k = k + 1;
        }
        proof {
            assert forall|n: Seq<char>| #[trigger] acts_on(self.config, *new, n) implies covered(*self, steps@, errors@, n) by {
                assert(has_key(instrs@, n));
                let j = choose|j: int| 0 <= j < instrs@.len() && #[trigger] instrs@[j].0@ == n;
                assert(acts_on(self.config, *new, instrs@[j].0@));
            }
        }
        ReloadPlan { steps, errors }
    }

    /// The modules that the configuration in force enables, in id order.
    /// Every module without an entry gets one, disabled, so that the
    /// configuration lists each known module.
    pub fn enabled_modules(&mut self) -> (r: Vec<ModuleId>)
        requires
            old(self).wf(),
        ensures
            final(self).wf(),
            final(self).modules == old(self).modules,
            final(self).targets == old(self).targets,
            final(self).timers == old(self).timers,
            forall|m: ModuleId| #[trigger] r@.contains(m) <==> (old(self).known(m) && enabled_in(old(self).config, old(self).modules@[m.0 as int].name@)),
            forall|j: int| 0 <= j < final(self).modules@.len() ==> has_key(final(self).config.enables@, #[trigger] final(self).modules@[j].name@),
            forall|n: Seq<char>| enabled_in(final(self).config, n) == enabled_in(old(self).config, n),
            final(self).config.blocks@ == old(self).config.blocks@,
    {
        let mut out: Vec<ModuleId> = Vec::new();
        let mut i: usize = 0;
        while i < self.modules.len()
            invariant
                self.wf(),
                self.modules == old(self).modules,
                self.targets == old(self).targets,
                self.timers == old(self).timers,
                i <= self.modules@.len(),
                forall|m: ModuleId| #[trigger] out@.contains(m) <==> (m.0 < i && enabled_in(old(self).config, old(self).modules@[m.0 as int].name@)),
                forall|j: int| 0 <= j < i ==> has_key(self.config.enables@, #[trigger] self.modules@[j].name@),
                forall|n: Seq<char>| enabled_in(self.config, n) == enabled_in(old(self).config, n),
                self.config.blocks@ == old(self).config.blocks@,
            decreases self.modules@.len() - i,
        {
            let ghost before = out@;
            let on = self.config.is_enabled(&self.modules[i].name);
            if on {
                out.push(ModuleId(i as u32));
            }
            proof {
                assert forall|m: ModuleId| #[trigger] out@.contains(m) <==> (m.0 < i + 1 && enabled_in(old(self).config, old(self).modules@[m.0 as int].name@)) by {
                    if m.0 == i && on {
                        assert(out@[out@.len() - 1] == m);
                    }
                    if out@.contains(m) && !(on && m.0 == i) {
                        let k = choose|k: int| 0 <= k < out@.len() && out@[k] == m;
                        assert(before[k] == m);
                        assert(before.contains(m));
                    }
                    if before.contains(m) {
                        let k = choose|k: int| 0 <= k < before.len() && before[k] == m;
                        assert(out@[k] == m);
                    }
                }
            }
            i = i + 1;
        }
        out
    }

    /// Ends a configuration change: `config` comes into force only where
    /// carrying out its plan gave no error; otherwise the configuration in
    /// force stays, and the errors are handed back to be shown.
    pub fn settle_reload(&mut self, config: ConfigSnapshot, errors: Vec<String>) -> (r: Result<(), Vec<String>>)
        requires
            old(self).wf(),
        ensures
            final(self).wf(),
            errors@.len() == 0 ==> r is Ok && final(self).config == config,
            errors@.len() > 0 ==> r == Err::<(), Vec<String>>(errors) && final(self).config == old(self).config,
            final(self).modules == old(self).modules,
            final(self).targets == old(self).targets,
            final(self).timers == old(self).timers,
    {
        if errors.len() == 0 {
            self.config = config;
            Ok(())
        } else {
            Err(errors)
        }
    }

    /// Puts `config` in force, once the plan made for it was carried out
    /// without error.
    pub fn commit_config(&mut self, config: ConfigSnapshot)
        requires
            old(self).wf(),
        ensures
            final(self).wf(),
            final(self).config == config,
            final(self).modules == old(self).modules,
            final(self).targets == old(self).targets,
            final(self).timers == old(self).timers,
    {
        self.config = config;
    }
}

} // verus!
