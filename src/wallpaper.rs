use vstd::prelude::*;

use crate::orbit::TargetId;

verus! {

/// Messages of the wallpaper module.
#[derive(Clone, Copy, Debug, PartialEq, Eq, Structural)]
pub enum Msg {
    Idle,
    Tick,
    Cycle,
}

/// What the wallpaper module holds for one target: the target's size once
/// known, the image file shown, and the texture loaded from it.
#[derive(Clone, Debug)]
pub struct PerTarget {
    pub size: Option<(u32, u32)>,
    pub file: String,
    pub tex: u64,
}

/// The wallpaper module's per-target state.
pub struct Wallpaper {
    pub targets: Vec<(TargetId, PerTarget)>,
}

pub open spec fn textures_of(t: Seq<(TargetId, PerTarget)>) -> Seq<u64> {
    t.map_values(|e: (TargetId, PerTarget)| e.1.tex)
}

/// The clock format used where a clock widget gives none.
pub fn default_time_format() -> (r: String)
    ensures
        r@ == "%H:%M"@,
{
    String::from_str("%H:%M")
}

impl Wallpaper {
    pub fn new() -> (r: Wallpaper)
        ensures
            r.targets@.len() == 0,
    {
        Wallpaper { targets: Vec::new() }
    }

    /// Forgets every target and hands back each loaded texture once, in
    /// order, for the rendering engine to release.
    pub fn cleanup(&mut self) -> (r: Vec<u64>)
        ensures
            r@ == textures_of(old(self).targets@),
            r@.len() == old(self).targets@.len(),
            final(self).targets@.len() == 0,
    {
        let mut out: Vec<u64> = Vec::new();
        let mut i: usize = 0;
        while i < self.targets.len()
            invariant
                *self == *old(self),
                i <= self.targets@.len(),
                out@ == textures_of(self.targets@.subrange(0, i as int)),
            decreases self.targets@.len() - i,
        {
            out.push(self.targets[i].1.tex);
            assert(out@ =~= textures_of(self.targets@.subrange(0, i + 1)));
            i = i + 1;
        }
        assert(self.targets@.subrange(0, self.targets@.len() as int) =~= self.targets@);
        self.targets = Vec::new();
        out
    }
}

} // verus!
