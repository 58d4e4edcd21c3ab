use vstd::prelude::*;

use crate::module::{ModuleId, ModuleInfo};
use crate::orbit::{
    owned_targets, surface_ids, target_ids, toggle_outcome, Orbit, SurfaceId, TargetEntry,
    TargetId, Toggle,
};

verus! {

/// The run flag of the orchestrator loop: it runs until asked to close.
#[derive(Debug)]
pub struct OrbitLoop {
    exit: bool,
}

impl OrbitLoop {
    /// Whether the loop was asked to close.
    pub closed spec fn closing(&self) -> bool {
        self.exit
    }

    pub fn new() -> (r: OrbitLoop)
        ensures
            !r.closing(),
    {
        OrbitLoop { exit: false }
    }

    pub fn should_close(&self) -> (r: bool)
        ensures
            r == self.closing(),
    {
        self.exit
    }

    pub fn close(&mut self)
        ensures
            final(self).closing(),
    {
        self.exit = true;
    }
}

impl Default for OrbitLoop {
    fn default() -> (r: OrbitLoop)
        ensures
            !r.closing(),
    {
        OrbitLoop::new()
    }
}

/// A command of the external control channel.
#[derive(Clone, Debug, PartialEq, Eq)]
pub enum DbusEvent {
    Reload,
    Modules,
    Toggle(String),
    Exit,
}

/// Everything a full reload releases: every target and surface, every timer
/// set (by module), and the modules whose instances must be cleaned up.
pub struct FullTeardown<T> {
    pub targets: Vec<TargetId>,
    pub surfaces: Vec<SurfaceId>,
    pub timers: Vec<Vec<T>>,
    pub loaded: Vec<ModuleId>,
}

/// What the loop does after a control command.
pub enum ControlAction<T> {
    /// Release what the teardown lists, rediscover the plugins and start over.
    Reload(FullTeardown<T>),
    /// Send this text back.
    Reply(String),
    /// Carry out the toggle.
    Toggle(Toggle<T>),
    /// Leave the loop.
    Exit,
}

/// Where an event goes.
#[derive(Clone, Copy, Debug, PartialEq, Eq, Structural)]
pub enum Address {
    /// A platform event for one surface.
    Surface(SurfaceId),
    /// A platform event for no surface in particular.
    Everywhere,
    /// A timer event of one module.
    Module(ModuleId),
}

/// One line of the module listing.
pub open spec fn status_line(m: ModuleInfo) -> Seq<char> {
    "\t"@ + m.name@ + (if m.loaded { " (loaded, "@ } else { " (unloaded, "@ }) + (if m.toggled {
        "shown)\n"@
    } else {
        "hidden)\n"@
    })
}

pub open spec fn status_lines(v: Seq<ModuleInfo>) -> Seq<char>
    decreases v.len(),
{
    if v.len() == 0 {
        Seq::empty()
    } else {
        status_lines(v.drop_last()) + status_line(v.last())
    }
}

/// The reply to a listing request: a heading, then one line per module.
pub open spec fn module_listing(v: Seq<ModuleInfo>) -> Seq<char> {
    "Modules:\n"@ + status_lines(v)
}

pub open spec fn deliveries_of(t: Seq<TargetEntry>) -> Seq<(TargetId, ModuleId)> {
    t.map_values(|e: TargetEntry| (e.target, e.module))
}

impl<T> Orbit<T> {
    /// Lists every module with its loaded and shown status.
    pub fn list_modules(&self) -> (r: String)
        ensures
            r@ == module_listing(self.modules@),
    {
        let mut out = String::from_str("Modules:\n");
        let mut i: usize = 0;
        proof {
            reveal_strlit("Modules:\n");
            assert(self.modules@.subrange(0, 0) =~= Seq::<ModuleInfo>::empty());
        }
        while i < self.modules.len()
            invariant
                i <= self.modules@.len(),
                out@ == module_listing(self.modules@.subrange(0, i as int)),
            decreases self.modules@.len() - i,
        {
            let ghost next = self.modules@.subrange(0, i + 1);
            assert(next.drop_last() =~= self.modules@.subrange(0, i as int));
            let m = &self.modules[i];
            out.append("\t");
            out.append(m.name.as_str());
            if m.loaded {
                out.append(" (loaded, ");
            } else {
                out.append(" (unloaded, ");
            }
            if m.toggled {
                out.append("shown)\n");
            } else {
                out.append("hidden)\n");
            }
            proof {
                reveal_strlit("\t");
                reveal_strlit(" (loaded, ");
                reveal_strlit(" (unloaded, ");
                reveal_strlit("shown)\n");
                reveal_strlit("hidden)\n");
                assert(out@ =~= module_listing(next));
            }
            i = i + 1;
        }
        assert(self.modules@.subrange(0, self.modules@.len() as int) =~= self.modules@);
        out
    }

    /// Takes everything off the screen for a full reload: the index and every
    /// timer set are emptied and handed back, with the modules to clean up.
    pub fn teardown_all(&mut self) -> (r: FullTeardown<T>)
        requires
            old(self).wf(),
        ensures
            final(self).wf(),
            final(self).targets@.len() == 0,
            forall|m: int| 0 <= m < final(self).timers@.len() ==> (#[trigger] final(self).timers@[m])@.len() == 0,
            final(self).timers@.len() == old(self).timers@.len(),
            r.targets@ == target_ids(old(self).targets@),
            r.surfaces@ == surface_ids(old(self).targets@),
            r.timers@ == old(self).timers@,
            forall|m: ModuleId| #[trigger] r.loaded@.contains(m) <==> (old(self).known(m) && old(self).modules@[m.0 as int].loaded),
            forall|i: int, j: int| 0 <= i < j < r.loaded@.len() ==> r.loaded@[i] != r.loaded@[j],
            final(self).modules == old(self).modules,
            final(self).config == old(self).config,
    {
        let mut targets: Vec<TargetId> = Vec::new();
        let mut surfaces: Vec<SurfaceId> = Vec::new();
        let mut i: usize = 0;
        while i < self.targets.len()
            invariant
                i <= self.targets@.len(),
                targets@ == target_ids(self.targets@.subrange(0, i as int)),
                surfaces@ == surface_ids(self.targets@.subrange(0, i as int)),
            decreases self.targets@.len() - i,
        {
            targets.push(self.targets[i].target);
            surfaces.push(self.targets[i].surface);
            assert(targets@ =~= target_ids(self.targets@.subrange(0, i + 1)));
            assert(surfaces@ =~= surface_ids(self.targets@.subrange(0, i + 1)));
            i = i + 1;
        }
        assert(self.targets@.subrange(0, self.targets@.len() as int) =~= self.targets@);
        let mut loaded: Vec<ModuleId> = Vec::new();
        let mut fresh: Vec<Vec<T>> = Vec::new();
        let mut j: usize = 0;
        while j < self.modules.len()
            invariant
                self.wf(),
                j <= self.modules@.len(),
                fresh@.len() == j,
                forall|m: int| 0 <= m < j ==> (#[trigger] fresh@[m])@.len() == 0,
                forall|m: ModuleId| #[trigger] loaded@.contains(m) <==> (m.0 < j && self.modules@[m.0 as int].loaded),
                forall|k: int| 0 <= k < loaded@.len() ==> (#[trigger] loaded@[k]).0 < j,
                forall|a: int, b: int| 0 <= a < b < loaded@.len() ==> loaded@[a] != loaded@[b],
            decreases self.modules@.len() - j,
        {
            let ghost before = loaded@;
            if self.modules[j].loaded {
                loaded.push(ModuleId(j as u32));
                proof {
                    assert forall|m: ModuleId| #[trigger] loaded@.contains(m) <==> (m.0 < j + 1 && self.modules@[m.0 as int].loaded) by {
                        if m.0 == j {
                            assert(loaded@[loaded@.len() - 1] == m);
                        }
                        if loaded@.contains(m) && m.0 != j {
                            let k = choose|k: int| 0 <= k < loaded@.len() && loaded@[k] == m;
                            assert(before[k] == m);
                            assert(before.contains(m));
                        }
                        if before.contains(m) {
                            let k = choose|k: int| 0 <= k < before.len() && before[k] == m;
                            assert(loaded@[k] == m);
                        }
                    }
                }
            } else {
                proof {
                    assert forall|m: ModuleId| #[trigger] loaded@.contains(m) <==> (m.0 < j + 1 && self.modules@[m.0 as int].loaded) by {
                        if m.0 == j {
                            assert(!self.modules@[m.0 as int].loaded);
                        }
                    }
                }
            }
            fresh.push(Vec::new());
            j = j + 1;
        }
        self.targets = Vec::new();
        let mut timers = fresh;
        core::mem::swap(&mut self.timers, &mut timers);
        FullTeardown { targets, surfaces, timers, loaded }
    }

    /// The targets that an event for `to` is delivered to, with their modules:
    /// the one target of a surface, every target, or every target of a module.
    pub fn deliveries(&self, to: Address) -> (r: Vec<(TargetId, ModuleId)>)
        requires
            self.wf(),
        ensures
            match to {
                Address::Surface(s) => {
                    &&& r@.len() <= 1
                    &&& r@.len() == 1 <==> exists|i: int| 0 <= i < self.targets@.len() && (#[trigger] self.targets@[i]).surface == s
                    &&& r@.len() == 1 ==> exists|i: int| 0 <= i < self.targets@.len() && #[trigger] self.targets@[i] == (TargetEntry { target: r@[0].0, surface: s, module: r@[0].1 })
                },
                Address::Everywhere => r@ == deliveries_of(self.targets@),
                Address::Module(m) => r@ == deliveries_of(owned_targets(self.targets@, m)),
            },
    {
        match to {
            Address::Surface(s) => {
                let mut out: Vec<(TargetId, ModuleId)> = Vec::new();
                match self.route_surface(s) {
                    Some(hit) => {
                        out.push(hit);
                    },
                    None => {},
                }
                out
            },
            Address::Everywhere => {
                let out = self.all_targets();
                assert(out@ =~= deliveries_of(self.targets@));
                out
            },
            Address::Module(m) => {
                let mut out: Vec<(TargetId, ModuleId)> = Vec::new();
                let mut i: usize = 0;
                while i < self.targets.len()
                    invariant
                        i <= self.targets@.len(),
                        out@ == deliveries_of(owned_targets(self.targets@.subrange(0, i as int), m)),
                    decreases self.targets@.len() - i,
                {
                    let ghost next = self.targets@.subrange(0, i + 1);
                    assert(next.drop_last() =~= self.targets@.subrange(0, i as int));
                    if self.targets[i].module == m {
                        out.push((self.targets[i].target, m));
                    }
                    assert(out@ =~= deliveries_of(owned_targets(next, m)));
                    i = i + 1;
                }
                assert(self.targets@.subrange(0, self.targets@.len() as int) =~= self.targets@);
                out
            },
        }
    }

    /// Handles one command of the control channel: a reload tears everything
    /// down, a listing is answered, a toggle flips one module, and an exit
    /// closes the loop. Only an exit touches the loop flag.
    pub fn handle_control(&mut self, cmd: DbusEvent, ctl: &mut OrbitLoop) -> (r: ControlAction<T>)
        requires
            old(self).wf(),
        ensures
            final(self).wf(),
            final(ctl).closing() == (old(ctl).closing() || cmd == DbusEvent::Exit),
            match cmd {
                DbusEvent::Reload => r is Reload && final(self).targets@.len() == 0
                    && final(self).modules == old(self).modules
                    && r->Reload_0.targets@ == target_ids(old(self).targets@)
                    && r->Reload_0.surfaces@ == surface_ids(old(self).targets@)
                    && r->Reload_0.timers@ == old(self).timers@
                    && (forall|m: ModuleId| #[trigger] r->Reload_0.loaded@.contains(m) <==> (old(self).known(m) && old(self).modules@[m.0 as int].loaded))
                    && (forall|i: int, j: int| 0 <= i < j < r->Reload_0.loaded@.len() ==> r->Reload_0.loaded@[i] != r->Reload_0.loaded@[j]),
                DbusEvent::Modules => r == ControlAction::<T>::Reply(r->Reply_0)
                    && r->Reply_0@ == module_listing(old(self).modules@) && *final(self) == *old(self),
                DbusEvent::Toggle(name) => r is Toggle && toggle_outcome(*old(self), *final(self), name@, r->Toggle_0),
                DbusEvent::Exit => r is Exit && *final(self) == *old(self),
            },
    {
        match cmd {
            DbusEvent::Reload => ControlAction::Reload(self.teardown_all()),
            DbusEvent::Modules => ControlAction::Reply(self.list_modules()),
            DbusEvent::Toggle(name) => ControlAction::Toggle(self.toggle(&name)),
            DbusEvent::Exit => {
                ctl.close();
                ControlAction::Exit
            },
        }
    }
}

} // verus!
