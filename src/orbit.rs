use vstd::prelude::*;

use crate::config::ConfigSnapshot;
use crate::module::{ModuleId, ModuleInfo};

verus! {

/// Identifier of one presentation target held by the rendering engine.
#[derive(Clone, Copy, Debug, Hash, PartialEq, Eq, Structural)]
pub struct TargetId(pub u64);

/// Identifier of one platform surface.
#[derive(Clone, Copy, Debug, Hash, PartialEq, Eq, Structural)]
pub struct SurfaceId(pub u64);

/// One live presentation surface, the target drawn into it, and the module
/// that owns both.
#[derive(Clone, Copy, Debug, PartialEq, Eq, Structural)]
pub struct TargetEntry {
    pub target: TargetId,
    pub surface: SurfaceId,
    pub module: ModuleId,
}

/// What the platform side must release after a module left the screen:
/// its targets, its surfaces and its timers.
pub struct Teardown<T> {
    pub targets: Vec<TargetId>,
    pub surfaces: Vec<SurfaceId>,
    pub timers: Vec<T>,
}

/// The orchestrator's bookkeeping: the module registry (a module's id is
/// its index), the target and surface index, each module's active timer set
/// (of timer handles `T`), and the configuration in force.
pub struct Orbit<T> {
    pub modules: Vec<ModuleInfo>,
    pub targets: Vec<TargetEntry>,
    pub timers: Vec<Vec<T>>,
    pub config: ConfigSnapshot,
}

/// The entries of `t` that module `m` owns, in order.
pub open spec fn owned_targets(t: Seq<TargetEntry>, m: ModuleId) -> Seq<TargetEntry>
    decreases t.len(),
{
    if t.len() == 0 {
        Seq::empty()
    } else {
        let rest = owned_targets(t.drop_last(), m);
        if t.last().module == m {
            rest.push(t.last())
        } else {
            rest
        }
    }
}

/// The entries of `t` that module `m` does not own, in order.
pub open spec fn other_targets(t: Seq<TargetEntry>, m: ModuleId) -> Seq<TargetEntry>
    decreases t.len(),
{
    if t.len() == 0 {
        Seq::empty()
    } else {
        let rest = other_targets(t.drop_last(), m);
        if t.last().module == m {
            rest
        } else {
            rest.push(t.last())
        }
    }
}

pub open spec fn target_ids(t: Seq<TargetEntry>) -> Seq<TargetId> {
    t.map_values(|e: TargetEntry| e.target)
}

pub open spec fn surface_ids(t: Seq<TargetEntry>) -> Seq<SurfaceId> {
    t.map_values(|e: TargetEntry| e.surface)
}

/// What follows a configuration push.
pub enum PushOutcome<T> {
    /// The module's surfaces must be rebuilt: release these first.
    Rebuild(Teardown<T>),
    /// The surfaces stay; cancel these timers and subscribe again.
    Refresh(Vec<T>),
}

/// What a toggle did.
pub enum Toggle<T> {
    /// No module has that name.
    Unknown,
    /// The module was shown and is now hidden.
    Hidden(ModuleId, Teardown<T>),
    /// The module was hidden and is now meant to be shown.
    Shown { module: ModuleId, load: bool },
}

/// The effect of one toggle on module `m`: its `toggled` flag flips, hiding
/// cancels all of its timers, showing leaves every timer set as it was, and
/// no other module changes.
pub open spec fn toggle_step<T>(a: Orbit<T>, b: Orbit<T>, m: ModuleId) -> bool {
    &&& a.known(m)
    &&& b.modules@.len() == a.modules@.len()
    &&& b.modules@[m.0 as int].toggled == !a.modules@[m.0 as int].toggled
    &&& b.modules@[m.0 as int].name == a.modules@[m.0 as int].name
    &&& b.modules@[m.0 as int].loaded == a.modules@[m.0 as int].loaded
    &&& forall|j: int| 0 <= j < b.modules@.len() && j != m.0 ==> #[trigger] b.modules@[j] == a.modules@[j]
    &&& a.modules@[m.0 as int].toggled ==> b.timer_count(m) == 0
        && b.timers@ == a.timers@.update(m.0 as int, b.timers@[m.0 as int])
        && b.targets@ == other_targets(a.targets@, m)
    &&& !a.modules@[m.0 as int].toggled ==> b.timers == a.timers && b.targets == a.targets
}

/// What a toggle of the module named `name` did, from `a` to `b`.
pub open spec fn toggle_outcome<T>(a: Orbit<T>, b: Orbit<T>, name: Seq<char>, r: Toggle<T>) -> bool {
    match r {
        Toggle::Unknown => b == a
            && forall|j: int| 0 <= j < a.modules@.len() ==> #[trigger] a.modules@[j].name@ != name,
        Toggle::Hidden(m, t) => a.known(m) && a.modules@[m.0 as int].name@ == name
            && a.modules@[m.0 as int].toggled
            && toggle_step(a, b, m)
            && t.targets@ == target_ids(owned_targets(a.targets@, m))
            && t.surfaces@ == surface_ids(owned_targets(a.targets@, m))
            && t.timers == a.timers@[m.0 as int],
        Toggle::Shown { module, load } => a.known(module) && a.modules@[module.0 as int].name@ == name
            && !a.modules@[module.0 as int].toggled
            && toggle_step(a, b, module)
            && load == !a.modules@[module.0 as int].loaded,
    }
}

/// Toggling a module twice gives it back its `toggled` flag, leaves every
/// other module as it was, and leaves a module that started hidden with as
/// many timers as before: none.
pub proof fn lemma_toggle_twice<T>(a: Orbit<T>, b: Orbit<T>, c: Orbit<T>, m: ModuleId)
    requires
        a.wf(),
        toggle_step(a, b, m),
        toggle_step(b, c, m),
    ensures
        c.modules@[m.0 as int].toggled == a.modules@[m.0 as int].toggled,
        forall|j: int| 0 <= j < c.modules@.len() && j != m.0 ==> #[trigger] c.modules@[j] == a.modules@[j],
        !a.modules@[m.0 as int].toggled ==> c.timer_count(m) == a.timer_count(m),
{
    if !a.modules@[m.0 as int].toggled {
        assert(a.timers@[m.0 as int]@.len() == 0);
    }
    assert forall|j: int| 0 <= j < c.modules@.len() && j != m.0 implies #[trigger] c.modules@[j] == a.modules@[j] by {
        assert(c.modules@[j] == b.modules@[j]);
    }
}

/// Toggling the module named `name` twice in succession flips the same
/// module back: every module keeps its `toggled` and `loaded` flags. A module
/// that started hidden holds as many timers as before, none; one that started
/// shown had every timer it held handed back for cancelling by the first
/// toggle, and holds none left over from before.
pub proof fn lemma_toggle_name_twice<T>(
    a: Orbit<T>,
    b: Orbit<T>,
    c: Orbit<T>,
    name: Seq<char>,
    r1: Toggle<T>,
    r2: Toggle<T>,
)
    requires
        a.wf(),
        b.wf(),
        toggle_outcome(a, b, name, r1),
        toggle_outcome(b, c, name, r2),
    ensures
        c.modules@.len() == a.modules@.len(),
        forall|j: int| 0 <= j < a.modules@.len() ==> (#[trigger] c.modules@[j]).toggled == a.modules@[j].toggled
            && c.modules@[j].loaded == a.modules@[j].loaded,
        r1 is Unknown <==> r2 is Unknown,
        match r1 {
            Toggle::Shown { module, load } => r2 is Hidden && r2->Hidden_0 == module
                && c.timer_count(module) == a.timer_count(module),
            Toggle::Hidden(m, t) => r2 is Shown && r2->module == m && t.timers == a.timers@[m.0 as int]
                && c.timer_count(m) == 0,
            Toggle::Unknown => c == a,
        },
{
    match r1 {
        Toggle::Unknown => {
            assert(b == a);
            match r2 {
                Toggle::Unknown => {},
                Toggle::Hidden(m, t) => {
                    assert(a.modules@[m.0 as int].name@ != name);
                },
                Toggle::Shown { module, load } => {
                    assert(a.modules@[module.0 as int].name@ != name);
                },
            }
        },
        Toggle::Hidden(m, t) => {
            assert(b.modules@[m.0 as int].name@ == name);
            match r2 {
                Toggle::Unknown => {
                    assert(b.modules@[m.0 as int].name@ != name);
                },
                Toggle::Hidden(m2, t2) => {
                    if m2 != m {
                        assert(b.modules@[m2.0 as int].name@ == b.modules@[m.0 as int].name@);
                        assert(m2.0 < m.0 || m.0 < m2.0);
                    }
                },
                Toggle::Shown { module, load } => {
                    if module != m {
                        assert(b.modules@[module.0 as int].name@ == b.modules@[m.0 as int].name@);
                        assert(module.0 < m.0 || m.0 < module.0);
                    }
                },
            }
            lemma_toggle_twice(a, b, c, m);
        },
        Toggle::Shown { module, load } => {
            let m = module;
            assert(b.modules@[m.0 as int].name@ == name);
            match r2 {
                Toggle::Unknown => {
                    assert(b.modules@[m.0 as int].name@ != name);
                },
                Toggle::Hidden(m2, t2) => {
                    if m2 != m {
                        assert(b.modules@[m2.0 as int].name@ == b.modules@[m.0 as int].name@);
                        assert(m2.0 < m.0 || m.0 < m2.0);
                    }
                },
                Toggle::Shown { module: m2, load: l2 } => {
                    if m2 != m {
                        assert(b.modules@[m2.0 as int].name@ == b.modules@[m.0 as int].name@);
                        assert(m2.0 < m.0 || m.0 < m2.0);
                    }
                },
            }
            lemma_toggle_twice(a, b, c, m);
        },
    }
}

impl<T> Orbit<T> {
    /// Module names are unique, and the registry and the index tables
    /// agree: every target belongs to a known module that is shown, no
    /// surface is indexed twice, there is one timer set per module, and only
    /// a shown module holds timers.
    pub open spec fn wf(&self) -> bool {
        &&& self.modules@.len() <= u32::MAX
        &&& forall|i: int, j: int| 0 <= i < j < self.modules@.len() ==> self.modules@[i].name@ != self.modules@[j].name@
        &&& self.timers@.len() == self.modules@.len()
        &&& forall|i: int| 0 <= i < self.targets@.len() ==> (#[trigger] self.targets@[i]).module.0 < self.modules@.len()
        &&& forall|i: int| 0 <= i < self.targets@.len() ==> self.modules@[(#[trigger] self.targets@[i]).module.0 as int].toggled
        &&& forall|i: int, j: int| 0 <= i < j < self.targets@.len() ==> self.targets@[i].surface != self.targets@[j].surface
        &&& forall|m: int| 0 <= m < self.modules@.len() && (#[trigger] self.timers@[m])@.len() > 0 ==> self.modules@[m].toggled
    }

    /// Whether `m` names a module of the registry.
    pub open spec fn known(&self, m: ModuleId) -> bool {
        m.0 < self.modules@.len()
    }

    /// The number of timers active for module `m`.
    pub open spec fn timer_count(&self, m: ModuleId) -> nat {
        self.timers@[m.0 as int]@.len()
    }

    /// A registry of the given modules, with nothing on screen and no timer.
    pub fn new(modules: Vec<ModuleInfo>, config: ConfigSnapshot) -> (r: Orbit<T>)
        requires
            modules@.len() <= u32::MAX,
            forall|i: int, j: int| 0 <= i < j < modules@.len() ==> modules@[i].name@ != modules@[j].name@,
        ensures
            r.wf(),
            r.modules == modules,
            r.config == config,
            r.targets@.len() == 0,
            forall|m: int| 0 <= m < r.timers@.len() ==> (#[trigger] r.timers@[m])@.len() == 0,
    {
        let mut timers: Vec<Vec<T>> = Vec::new();
        let mut i: usize = 0;
        while i < modules.len()
            invariant
                i <= modules@.len(),
                timers@.len() == i,
                forall|m: int| 0 <= m < i ==> (#[trigger] timers@[m])@.len() == 0,
            decreases modules@.len() - i,
        {
            timers.push(Vec::new());
            i = i + 1;
        }
        Orbit { modules, targets: Vec::new(), timers, config }
    }

    /// Finds the module named `name`.
    pub fn find_module(&self, name: &String) -> (r: Option<ModuleId>)
        requires
            self.wf(),
        ensures
            match r {
                Some(m) => self.known(m) && self.modules@[m.0 as int].name@ == name@
                    && forall|j: int| 0 <= j < m.0 ==> #[trigger] self.modules@[j].name@ != name@,
                None => forall|j: int| 0 <= j < self.modules@.len() ==> #[trigger] self.modules@[j].name@ != name@,
            },
    {
        let mut i: usize = 0;
        while i < self.modules.len()
            invariant
                self.wf(),
                i <= self.modules@.len(),
                forall|j: int| 0 <= j < i ==> #[trigger] self.modules@[j].name@ != name@,
            decreases self.modules@.len() - i,
        {
            if self.modules[i].name == *name {
                return Some(ModuleId(i as u32));
            }
            i = i + 1;
        }
        None
    }

    /// Sets the `toggled` flag of module `m`, leaving the rest as it was.
    fn set_toggled(&mut self, m: ModuleId, on: bool)
        requires
            old(self).known(m),
        ensures
            final(self).modules@.len() == old(self).modules@.len(),
            final(self).modules@[m.0 as int].toggled == on,
            final(self).modules@[m.0 as int].loaded == old(self).modules@[m.0 as int].loaded,
            final(self).modules@[m.0 as int].name == old(self).modules@[m.0 as int].name,
            final(self).modules@[m.0 as int].path == old(self).modules@[m.0 as int].path,
            forall|j: int| 0 <= j < final(self).modules@.len() && j != m.0 ==> #[trigger] final(self).modules@[j] == old(self).modules@[j],
            final(self).targets == old(self).targets,
            final(self).timers == old(self).timers,
            final(self).config == old(self).config,
    {
        let i = m.0 as usize;
        self.modules.push(ModuleInfo::new(String::new(), String::new()));
        let mut record = self.modules.swap_remove(i);
        record.toggled = on;
        self.modules.set(i, record);
    }

    /// Sets the `loaded` flag of module `m`; an unloaded module is hidden too.
    fn set_loaded(&mut self, m: ModuleId, on: bool)
        requires
            old(self).known(m),
        ensures
            final(self).modules@.len() == old(self).modules@.len(),
            final(self).modules@[m.0 as int].loaded == on,
            final(self).modules@[m.0 as int].toggled == (on && old(self).modules@[m.0 as int].toggled),
            final(self).modules@[m.0 as int].name == old(self).modules@[m.0 as int].name,
            final(self).modules@[m.0 as int].path == old(self).modules@[m.0 as int].path,
            forall|j: int| 0 <= j < final(self).modules@.len() && j != m.0 ==> #[trigger] final(self).modules@[j] == old(self).modules@[j],
            final(self).targets == old(self).targets,
            final(self).timers == old(self).timers,
            final(self).config == old(self).config,
    {
        let i = m.0 as usize;
        self.modules.push(ModuleInfo::new(String::new(), String::new()));
        let mut record = self.modules.swap_remove(i);
        if on {
            record.mark_loaded();
        } else {
            record.unload();
        }
        self.modules.set(i, record);
    }

    /// Indexes a new target of module `m` drawn into `surface`. Nothing is
    /// recorded, and `false` comes back, where `m` is unknown or hidden or
    /// the surface is indexed already.
    pub fn attach_target(&mut self, m: ModuleId, target: TargetId, surface: SurfaceId) -> (r: bool)
        requires
            old(self).wf(),
        ensures
            final(self).wf(),
            r == (old(self).known(m) && old(self).modules@[m.0 as int].toggled
                && forall|i: int| 0 <= i < old(self).targets@.len() ==> (#[trigger] old(self).targets@[i]).surface != surface),
            r ==> final(self).targets@ == old(self).targets@.push(TargetEntry { target, surface, module: m }),
            !r ==> final(self).targets@ == old(self).targets@,
            final(self).modules == old(self).modules,
            final(self).timers == old(self).timers,
            final(self).config == old(self).config,
    {
        if m.0 as usize >= self.modules.len() || !self.modules[m.0 as usize].toggled {
            return false;
        }
        let mut i: usize = 0;
        while i < self.targets.len()
            invariant
                *self == *old(self),
                self.wf(),
                self.known(m) && self.modules@[m.0 as int].toggled,
                i <= self.targets@.len(),
                forall|j: int| 0 <= j < i ==> (#[trigger] self.targets@[j]).surface != surface,
            decreases self.targets@.len() - i,
        {
            if self.targets[i].surface == surface {
                return false;
            }
            i = i + 1;
        }
        self.targets.push(TargetEntry { target, surface, module: m });
        true
    }

    /// The target and the module that surface `surface` is indexed under.
    pub fn route_surface(&self, surface: SurfaceId) -> (r: Option<(TargetId, ModuleId)>)
        requires
            self.wf(),
        ensures
            match r {
                Some((t, m)) => exists|i: int| 0 <= i < self.targets@.len() && #[trigger] self.targets@[i] == (TargetEntry { target: t, surface, module: m }),
                None => forall|i: int| 0 <= i < self.targets@.len() ==> (#[trigger] self.targets@[i]).surface != surface,
            },
    {
        let mut i: usize = 0;
        while i < self.targets.len()
            invariant
                i <= self.targets@.len(),
                forall|j: int| 0 <= j < i ==> (#[trigger] self.targets@[j]).surface != surface,
            decreases self.targets@.len() - i,
        {
            let e = self.targets[i];
            if e.surface == surface {
                assert(self.targets@[i as int] == (TargetEntry { target: e.target, surface, module: e.module }));
                return Some((e.target, e.module));
            }
            i = i + 1;
        }
        None
    }

    /// The targets that module `m` owns, in the order they were attached.
    pub fn targets_of(&self, m: ModuleId) -> (r: Vec<TargetId>)
        ensures
            r@ == target_ids(owned_targets(self.targets@, m)),
    {
        let mut out: Vec<TargetId> = Vec::new();
        let mut i: usize = 0;
        while i < self.targets.len()
            invariant
                i <= self.targets@.len(),
                out@ == target_ids(owned_targets(self.targets@.subrange(0, i as int), m)),
            decreases self.targets@.len() - i,
        {
            let ghost next = self.targets@.subrange(0, i + 1);
            assert(next.drop_last() =~= self.targets@.subrange(0, i as int));
            if self.targets[i].module == m {
                out.push(self.targets[i].target);
            }
            assert(out@ =~= target_ids(owned_targets(next, m)));
            i = i + 1;
        }
        assert(self.targets@.subrange(0, self.targets@.len() as int) =~= self.targets@);
        out
    }

    /// Every target with the module that owns it, in the order they were attached.
    pub fn all_targets(&self) -> (r: Vec<(TargetId, ModuleId)>)
        ensures
            r@ == self.targets@.map_values(|e: TargetEntry| (e.target, e.module)),
    {
        let mut out: Vec<(TargetId, ModuleId)> = Vec::new();
        let mut i: usize = 0;
        while i < self.targets.len()
            invariant
                i <= self.targets@.len(),
                out@ == self.targets@.subrange(0, i as int).map_values(|e: TargetEntry| (e.target, e.module)),
            decreases self.targets@.len() - i,
        {
            out.push((self.targets[i].target, self.targets[i].module));
            assert(out@ =~= self.targets@.subrange(0, i + 1).map_values(|e: TargetEntry| (e.target, e.module)));
            i = i + 1;
        }
        assert(self.targets@.subrange(0, self.targets@.len() as int) =~= self.targets@);
        out
    }

    /// Removes the timer set of module `m` and hands it back for cancelling.
    pub fn remove_subscriptions(&mut self, m: ModuleId) -> (r: Vec<T>)
        requires
            old(self).wf(),
            old(self).known(m),
        ensures
            final(self).wf(),
            r == old(self).timers@[m.0 as int],
            final(self).timers@ == old(self).timers@.update(m.0 as int, final(self).timers@[m.0 as int]),
            final(self).timers@[m.0 as int]@.len() == 0,
            final(self).modules == old(self).modules,
            final(self).targets == old(self).targets,
            final(self).config == old(self).config,
    {
        let i = m.0 as usize;
        self.timers.push(Vec::new());
        let set = self.timers.swap_remove(i);
        set
    }

    /// Installs `tokens` as the timer set of module `m`, which must be shown.
    /// What comes back is to be cancelled: the set that was replaced, or,
    /// for a hidden module, `tokens` themselves.
    pub fn add_subscriptions(&mut self, m: ModuleId, tokens: Vec<T>) -> (r: Vec<T>)
        requires
            old(self).wf(),
            old(self).known(m),
        ensures
            final(self).wf(),
            old(self).modules@[m.0 as int].toggled ==> r == old(self).timers@[m.0 as int]
                && final(self).timers@ == old(self).timers@.update(m.0 as int, tokens),
            !old(self).modules@[m.0 as int].toggled ==> r == tokens && final(self).timers == old(self).timers,
            final(self).modules == old(self).modules,
            final(self).targets == old(self).targets,
            final(self).config == old(self).config,
    {
        if !self.modules[m.0 as usize].toggled {
            return tokens;
        }
        let i = m.0 as usize;
        self.timers.push(tokens);
        let set = self.timers.swap_remove(i);
        set
    }

    /// Takes module `m` off the screen: drops its entries from the index and
    /// its timer set, and hands back what the platform side must release.
    /// The module's flags stay as they are.
    pub fn unrealize_module(&mut self, m: ModuleId) -> (r: Teardown<T>)
        requires
            old(self).wf(),
            old(self).known(m),
        ensures
            final(self).wf(),
            final(self).targets@ == other_targets(old(self).targets@, m),
            r.targets@ == target_ids(owned_targets(old(self).targets@, m)),
            r.surfaces@ == surface_ids(owned_targets(old(self).targets@, m)),
            r.timers == old(self).timers@[m.0 as int],
            final(self).timers@ == old(self).timers@.update(m.0 as int, final(self).timers@[m.0 as int]),
            final(self).timer_count(m) == 0,
            forall|i: int| 0 <= i < final(self).targets@.len() ==> (#[trigger] final(self).targets@[i]).module != m,
            final(self).modules == old(self).modules,
            final(self).config == old(self).config,
    {
        let mut kept: Vec<TargetEntry> = Vec::new();
        let mut targets: Vec<TargetId> = Vec::new();
        let mut surfaces: Vec<SurfaceId> = Vec::new();
        let mut i: usize = 0;
        while i < self.targets.len()
            invariant
                *self == *old(self),
                self.wf(),
                i <= self.targets@.len(),
                kept@ == other_targets(self.targets@.subrange(0, i as int), m),
                targets@ == target_ids(owned_targets(self.targets@.subrange(0, i as int), m)),
                surfaces@ == surface_ids(owned_targets(self.targets@.subrange(0, i as int), m)),
                forall|k: int| 0 <= k < kept@.len() ==> (#[trigger] kept@[k]).module != m,
                forall|k: int| 0 <= k < kept@.len() ==> exists|j: int| 0 <= j < i && #[trigger] self.targets@[j] == #[trigger] kept@[k],
                forall|k1: int, k2: int| 0 <= k1 < k2 < kept@.len() ==> kept@[k1].surface != kept@[k2].surface,
            decreases self.targets@.len() - i,
        {
            let ghost next = self.targets@.subrange(0, i + 1);
            assert(next.drop_last() =~= self.targets@.subrange(0, i as int));
            let e = self.targets[i];
            if e.module == m {
                targets.push(e.target);
                surfaces.push(e.surface);
            } else {
                proof {
                    assert forall|k: int| 0 <= k < kept@.len() implies kept@[k].surface != e.surface by {
                        let j = choose|j: int| 0 <= j < i && #[trigger] self.targets@[j] == kept@[k];
                    }
                }
                kept.push(e);
                proof {
                    assert forall|k: int| 0 <= k < kept@.len() implies exists|j: int| 0 <= j < i + 1 && #[trigger] self.targets@[j] == #[trigger] kept@[k] by {
                        if k < kept@.len() - 1 {
                            let j = choose|j: int| 0 <= j < i && #[trigger] self.targets@[j] == kept@[k];
                        } else {
                            assert(self.targets@[i as int] == kept@[k]);
                        }
                    }
                }
            }
            assert(kept@ =~= other_targets(next, m));
            assert(targets@ =~= target_ids(owned_targets(next, m)));
            assert(surfaces@ =~= surface_ids(owned_targets(next, m)));
            i = i + 1;
        }
        assert(self.targets@.subrange(0, self.targets@.len() as int) =~= self.targets@);
        self.targets = kept;
        let timers = self.remove_subscriptions(m);
        proof {
            assert forall|k: int| 0 <= k < self.targets@.len() implies self.modules@[(#[trigger] self.targets@[k]).module.0 as int].toggled
                && self.targets@[k].module.0 < self.modules@.len() by {
                let j = choose|j: int| 0 <= j < old(self).targets@.len() && #[trigger] old(self).targets@[j] == self.targets@[k];
            }
        }
        Teardown { targets, surfaces, timers }
    }

    /// Hides module `m`: it leaves the screen and its timers are handed back.
    pub fn hide_module(&mut self, m: ModuleId) -> (r: Teardown<T>)
        requires
            old(self).wf(),
            old(self).known(m),
        ensures
            final(self).wf(),
            !final(self).modules@[m.0 as int].toggled,
            final(self).modules@[m.0 as int].loaded == old(self).modules@[m.0 as int].loaded,
            final(self).modules@[m.0 as int].name == old(self).modules@[m.0 as int].name,
            final(self).modules@.len() == old(self).modules@.len(),
            forall|j: int| 0 <= j < final(self).modules@.len() && j != m.0 ==> #[trigger] final(self).modules@[j] == old(self).modules@[j],
            final(self).targets@ == other_targets(old(self).targets@, m),
            r.targets@ == target_ids(owned_targets(old(self).targets@, m)),
            r.surfaces@ == surface_ids(owned_targets(old(self).targets@, m)),
            r.timers == old(self).timers@[m.0 as int],
            final(self).timers@ == old(self).timers@.update(m.0 as int, final(self).timers@[m.0 as int]),
            final(self).timer_count(m) == 0,
            final(self).config == old(self).config,
    {
        let r = self.unrealize_module(m);
        self.set_toggled(m, false);
        proof {
            assert forall|k: int| 0 <= k < self.targets@.len() implies self.modules@[(#[trigger] self.targets@[k]).module.0 as int].toggled by {
                assert(self.targets@[k].module != m);
            }
        }
        r
    }

    /// Marks module `m` as meant to be on screen; its surfaces and timers
    /// are attached afterwards.
    pub fn show_module(&mut self, m: ModuleId)
        requires
            old(self).wf(),
            old(self).known(m),
        ensures
            final(self).wf(),
            final(self).modules@[m.0 as int].toggled,
            final(self).modules@[m.0 as int].loaded == old(self).modules@[m.0 as int].loaded,
            final(self).modules@[m.0 as int].name == old(self).modules@[m.0 as int].name,
            final(self).modules@.len() == old(self).modules@.len(),
            forall|j: int| 0 <= j < final(self).modules@.len() && j != m.0 ==> #[trigger] final(self).modules@[j] == old(self).modules@[j],
            final(self).targets == old(self).targets,
            final(self).timers == old(self).timers,
            final(self).config == old(self).config,
    {
        self.set_toggled(m, true);
    }

    /// Records that the plugin of module `m` was loaded.
    pub fn mark_loaded(&mut self, m: ModuleId)
        requires
            old(self).wf(),
            old(self).known(m),
        ensures
            final(self).wf(),
            final(self).modules@[m.0 as int].loaded,
            final(self).modules@[m.0 as int].toggled == old(self).modules@[m.0 as int].toggled,
            final(self).modules@.len() == old(self).modules@.len(),
            forall|j: int| 0 <= j < final(self).modules@.len() && j != m.0 ==> #[trigger] final(self).modules@[j] == old(self).modules@[j],
            final(self).targets == old(self).targets,
            final(self).timers == old(self).timers,
            final(self).config == old(self).config,
    {
        self.set_loaded(m, true);
    }

    /// Unloads module `m`: it is hidden first, then marked unloaded. What
    /// comes back is to be released before the plugin's cleanup and destructor run.
    pub fn unload_module(&mut self, m: ModuleId) -> (r: Teardown<T>)
        requires
            old(self).wf(),
            old(self).known(m),
        ensures
            final(self).wf(),
            !final(self).modules@[m.0 as int].loaded,
            !final(self).modules@[m.0 as int].toggled,
            final(self).modules@.len() == old(self).modules@.len(),
            forall|j: int| 0 <= j < final(self).modules@.len() && j != m.0 ==> #[trigger] final(self).modules@[j] == old(self).modules@[j],
            final(self).targets@ == other_targets(old(self).targets@, m),
            r.targets@ == target_ids(owned_targets(old(self).targets@, m)),
            r.surfaces@ == surface_ids(owned_targets(old(self).targets@, m)),
            r.timers == old(self).timers@[m.0 as int],
            final(self).timer_count(m) == 0,
            final(self).config == old(self).config,
    {
        let r = self.hide_module(m);
        self.set_loaded(m, false);
        proof {
            assert forall|k: int| 0 <= k < self.targets@.len() implies self.modules@[(#[trigger] self.targets@[k]).module.0 as int].toggled by {
                assert(self.targets@[k].module != m);
            }
        }
        r
    }

    /// Flips the visibility of the module named `name`. A shown module is
    /// hidden, and what it held on screen is handed back. A hidden module is
    /// marked shown; the caller loads it first where `load` says so, then
    /// attaches its surfaces and timers.
    pub fn toggle(&mut self, name: &String) -> (r: Toggle<T>)
        requires
            old(self).wf(),
        ensures
            final(self).wf(),
            final(self).config == old(self).config,
            toggle_outcome(*old(self), *final(self), name@, r),
    {
        match self.find_module(name) {
            None => {
                assert forall|j: int| 0 <= j < old(self).modules@.len() implies #[trigger] old(self).modules@[j].name@ != name@ by {
                    assert(self.modules@[j].name@ != name@);
                }
                Toggle::Unknown
            },
            Some(m) => {
                if self.modules[m.0 as usize].toggled {
                    let t = self.hide_module(m);
                    Toggle::Hidden(m, t)
                } else {
                    let load = !self.modules[m.0 as usize].loaded;
                    self.show_module(m);
                    Toggle::Shown { module: m, load }
                }
            },
        }
    }

    /// Follows a module's answer to a configuration push. Where it asks for
    /// a rebuild, its surfaces and timers go and it is realized afresh with
    /// its new options; otherwise its surfaces stay and only its timer set is
    /// handed back, to be replaced by the subscriptions of the new settings.
    pub fn after_config_push(&mut self, m: ModuleId, must_rebuild: bool) -> (r: PushOutcome<T>)
        requires
            old(self).wf(),
            old(self).known(m),
        ensures
            final(self).wf(),
            final(self).modules == old(self).modules,
            final(self).config == old(self).config,
            final(self).timer_count(m) == 0,
            final(self).timers@ == old(self).timers@.update(m.0 as int, final(self).timers@[m.0 as int]),
            match r {
                PushOutcome::Rebuild(t) => must_rebuild
                    && final(self).targets@ == other_targets(old(self).targets@, m)
                    && t.targets@ == target_ids(owned_targets(old(self).targets@, m))
                    && t.surfaces@ == surface_ids(owned_targets(old(self).targets@, m))
                    && t.timers == old(self).timers@[m.0 as int],
                PushOutcome::Refresh(timers) => !must_rebuild
                    && final(self).targets == old(self).targets
                    && timers == old(self).timers@[m.0 as int],
            },
    {
        if must_rebuild {
            PushOutcome::Rebuild(self.unrealize_module(m))
        } else {
            PushOutcome::Refresh(self.remove_subscriptions(m))
        }
    }
}

} // verus!
