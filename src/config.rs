use vstd::prelude::*;

verus! {

/// Looks up the first entry whose key is `n`.
pub open spec fn lookup<V>(s: Seq<(String, V)>, n: Seq<char>) -> Option<V>
    decreases s.len(),
{
    if s.len() == 0 {
        None
    } else if s[0].0@ == n {
        Some(s[0].1)
    } else {
        lookup(s.subrange(1, s.len() as int), n)
    }
}

/// Whether some entry of `s` has key `n`.
pub open spec fn has_key<V>(s: Seq<(String, V)>, n: Seq<char>) -> bool {
    exists|i: int| 0 <= i < s.len() && #[trigger] s[i].0@ == n
}

/// A parsed configuration document: the `modules` enable map and the
/// per-module configuration blocks, each block held in canonical text form.
#[derive(Debug)]
pub struct ConfigSnapshot {
    pub enables: Vec<(String, bool)>,
    pub blocks: Vec<(String, String)>,
}

/// Whether the configuration enables module `n`; an absent entry means disabled.
pub open spec fn enabled_in(c: ConfigSnapshot, n: Seq<char>) -> bool {
    lookup(c.enables@, n) == Some(true)
}

/// The configuration block of module `n`, if the document holds one.
pub open spec fn block_in(c: ConfigSnapshot, n: Seq<char>) -> Option<Seq<char>> {
    match lookup(c.blocks@, n) {
        Some(b) => Some(b@),
        None => None,
    }
}

/// Every module name that the document mentions.
pub open spec fn named_in(c: ConfigSnapshot, n: Seq<char>) -> bool {
    has_key(c.enables@, n) || has_key(c.blocks@, n)
}

/// A value found in the `modules` map: a flag, or anything else.
#[derive(Clone, Copy, Debug, PartialEq, Eq, Structural)]
pub enum RawFlag {
    Bool(bool),
    Invalid,
}

/// The message reported for a module whose enable value is not a flag.
pub open spec fn not_bool_message(n: Seq<char>) -> Seq<char> {
    "Module value for "@ + n + " is not a bool!"@
}

/// A raw `modules` map as plain values: each name with its flag, or
/// nothing where the value is not a flag.
pub open spec fn raw_view(s: Seq<(String, RawFlag)>) -> Seq<(Seq<char>, Option<bool>)> {
    s.map_values(|p: (String, RawFlag)| (p.0@, match p.1 {
        RawFlag::Bool(b) => Some(b),
        RawFlag::Invalid => None,
    }))
}

/// The messages for the invalid entries of a raw `modules` map, in order.
pub open spec fn flag_errors(s: Seq<(Seq<char>, Option<bool>)>) -> Seq<Seq<char>>
    decreases s.len(),
{
    if s.len() == 0 {
        Seq::empty()
    } else {
        let rest = flag_errors(s.drop_last());
        match s.last().1 {
            None => rest.push(not_bool_message(s.last().0)),
            Some(_) => rest,
        }
    }
}

/// The entries of a raw `modules` map that hold a flag, in order.
pub open spec fn valid_flags(s: Seq<(Seq<char>, Option<bool>)>) -> Seq<(Seq<char>, bool)>
    decreases s.len(),
{
    if s.len() == 0 {
        Seq::empty()
    } else {
        let rest = valid_flags(s.drop_last());
        match s.last().1 {
            Some(b) => rest.push((s.last().0, b)),
            None => rest,
        }
    }
}

/// The entries of `s` with their keys as character sequences.
pub open spec fn key_views<V>(s: Seq<(String, V)>) -> Seq<(Seq<char>, V)> {
    s.map_values(|p: (String, V)| (p.0@, p.1))
}

/// Finds the enable flag of `name`.
pub fn find_flag(s: &Vec<(String, bool)>, name: &String) -> (r: Option<bool>)
    ensures
        r == lookup(s@, name@),
{
    let mut i: usize = 0;
    assert(s@.subrange(0, s@.len() as int) =~= s@);
    while i < s.len()
        invariant
            i <= s.len(),
            lookup(s@, name@) == lookup(s@.subrange(i as int, s.len() as int), name@),
        decreases s.len() - i,
    {
        let ghost rest = s@.subrange(i as int, s.len() as int);
        assert(rest.subrange(1, rest.len() as int) =~= s@.subrange(i + 1, s.len() as int));
        if s[i].0 == *name {
            return Some(s[i].1);
        }
        i = i + 1;
    }
    None
}

/// Finds the configuration block of `name`.
pub fn find_block<'a>(s: &'a Vec<(String, String)>, name: &String) -> (r: Option<&'a String>)
    ensures
        match r {
            Some(b) => lookup(s@, name@) == Some(*b),
            None => lookup(s@, name@) is None,
        },
{
    let mut i: usize = 0;
    assert(s@.subrange(0, s@.len() as int) =~= s@);
    while i < s.len()
        invariant
            i <= s.len(),
            lookup(s@, name@) == lookup(s@.subrange(i as int, s.len() as int), name@),
        decreases s.len() - i,
    {
        let ghost rest = s@.subrange(i as int, s.len() as int);
        assert(rest.subrange(1, rest.len() as int) =~= s@.subrange(i + 1, s.len() as int));
        if s[i].0 == *name {
            return Some(&s[i].1);
        }
        i = i + 1;
    }
    None
}

proof fn lemma_lookup_some_has_key<V>(s: Seq<(String, V)>, n: Seq<char>)
    ensures
        lookup(s, n) is Some <==> has_key(s, n),
    decreases s.len(),
{
    if s.len() > 0 {
        let rest = s.subrange(1, s.len() as int);
        lemma_lookup_some_has_key(rest, n);
        if has_key(s, n) && s[0].0@ != n {
            let i = choose|i: int| 0 <= i < s.len() && #[trigger] s[i].0@ == n;
            assert(rest[i - 1].0@ == n);
        }
        if has_key(rest, n) {
            let i = choose|i: int| 0 <= i < rest.len() && #[trigger] rest[i].0@ == n;
            assert(s[i + 1].0@ == n);
        }
    }
}

impl ConfigSnapshot {
    /// A copy of this snapshot.
    pub fn clone_snapshot(&self) -> (r: ConfigSnapshot)
        ensures
            r.enables@ == self.enables@,
            r.blocks@ == self.blocks@,
    {
        let mut enables: Vec<(String, bool)> = Vec::new();
        let mut i: usize = 0;
        while i < self.enables.len()
            invariant
                i <= self.enables@.len(),
                enables@ == self.enables@.subrange(0, i as int),
            decreases self.enables@.len() - i,
        {
            enables.push((self.enables[i].0.clone(), self.enables[i].1));
            assert(enables@ =~= self.enables@.subrange(0, i + 1));
            i = i + 1;
        }
        let mut blocks: Vec<(String, String)> = Vec::new();
        let mut j: usize = 0;
        while j < self.blocks.len()
            invariant
                j <= self.blocks@.len(),
                blocks@ == self.blocks@.subrange(0, j as int),
            decreases self.blocks@.len() - j,
        {
            blocks.push((self.blocks[j].0.clone(), self.blocks[j].1.clone()));
            assert(blocks@ =~= self.blocks@.subrange(0, j + 1));
            j = j + 1;
        }
        assert(enables@ =~= self.enables@);
        assert(blocks@ =~= self.blocks@);
        ConfigSnapshot { enables, blocks }
    }

    /// A document with no module entries.
    pub fn empty() -> (r: ConfigSnapshot)
        ensures
            r.enables@.len() == 0,
            r.blocks@.len() == 0,
    {
        ConfigSnapshot { enables: Vec::new(), blocks: Vec::new() }
    }

    /// Builds a snapshot from the raw `modules` map and the module blocks.
    /// Every entry whose value is not a flag is reported, by module name.
    pub fn from_raw(modules: Vec<(String, RawFlag)>, blocks: Vec<(String, String)>) -> (r: Result<
        ConfigSnapshot,
        Vec<String>,
    >)
        ensures
            r is Ok <==> flag_errors(raw_view(modules@)).len() == 0,
            r is Ok ==> key_views(r->Ok_0.enables@) == valid_flags(raw_view(modules@)),
            r is Ok ==> r->Ok_0.blocks@ == blocks@,
            r is Err ==> r->Err_0@.map_values(|e: String| e@) == flag_errors(raw_view(modules@)),
            r is Err ==> flag_errors(raw_view(modules@)).len() > 0,
    {
        let mut enables: Vec<(String, bool)> = Vec::new();
        let mut errors: Vec<String> = Vec::new();
        let mut i: usize = 0;
        while i < modules.len()
            invariant
                i <= modules.len(),
                key_views(enables@) == valid_flags(raw_view(modules@.subrange(0, i as int))),
                errors@.map_values(|e: String| e@) == flag_errors(raw_view(modules@.subrange(0, i as int))),
            decreases modules.len() - i,
        {
            let ghost prefix = modules@.subrange(0, i as int + 1);
            assert(prefix.drop_last() =~= modules@.subrange(0, i as int));
            assert(raw_view(prefix).drop_last() =~= raw_view(modules@.subrange(0, i as int)));
            let name = modules[i].0.clone();
            match modules[i].1 {
                RawFlag::Bool(b) => {
                    enables.push((name, b));
                    assert(key_views(enables@) =~= valid_flags(raw_view(prefix)));
                },
                RawFlag::Invalid => {
                    let mut msg = String::from_str("Module value for ");
                    msg.append(name.as_str());
                    msg.append(" is not a bool!");
                    errors.push(msg);
                    assert(errors@.map_values(|e: String| e@) =~= flag_errors(raw_view(prefix)));
                },
            }
            i = i + 1;
        }
        assert(modules@.subrange(0, modules.len() as int) =~= modules@);
        assert(errors@.map_values(|e: String| e@).len() == errors@.len());
        if errors.len() == 0 {
            Ok(ConfigSnapshot { enables, blocks })
        } else {
            Err(errors)
        }
    }

    /// Reports whether `name` is enabled. A module with no entry is recorded
    /// as disabled, so that the document lists every known module.
    pub fn is_enabled(&mut self, name: &String) -> (r: bool)
        ensures
            r == enabled_in(*old(self), name@),
            forall|n: Seq<char>| enabled_in(*final(self), n) == enabled_in(*old(self), n),
            forall|n: Seq<char>| block_in(*final(self), n) == block_in(*old(self), n),
            has_key(final(self).enables@, name@),
            forall|n: Seq<char>| n != name@ ==> (has_key(final(self).enables@, n) == has_key(old(self).enables@, n)),
            final(self).blocks@ == old(self).blocks@,
    {
        match find_flag(&self.enables, name) {
            Some(b) => {
                proof { lemma_lookup_some_has_key(self.enables@, name@); }
                b
            },
            None => {
                let ghost before = self.enables@;
                proof { lemma_lookup_some_has_key(before, name@); }
                self.enables.push((name.clone(), false));
                proof {
                    assert(self.enables@ =~= before.push(self.enables@.last()));
                    assert forall|n: Seq<char>| enabled_in(*self, n) == enabled_in(*old(self), n) by {
                        lemma_lookup_push(before, self.enables@.last(), n);
                    }
                    assert(self.enables@[before.len() as int].0@ == name@);
                    assert forall|n: Seq<char>| n != name@ implies (has_key(self.enables@, n) == has_key(before, n)) by {
                        if has_key(self.enables@, n) {
                            let j = choose|j: int| 0 <= j < self.enables@.len() && #[trigger] self.enables@[j].0@ == n;
                            assert(before[j].0@ == n);
                        }
                        if has_key(before, n) {
                            let j = choose|j: int| 0 <= j < before.len() && #[trigger] before[j].0@ == n;
                            assert(self.enables@[j].0@ == n);
                        }
                    }
                }
                false
            },
        }
    }
}

/// The `modules` entry of a configuration document.
#[derive(Clone, Debug)]
pub enum ModulesEntry {
    /// The document has no `modules` entry.
    Absent,
    /// The entry is a mapping, given as its entries in order.
    Mapping(Vec<(String, RawFlag)>),
    /// The entry is something other than a mapping.
    Malformed,
}

/// A configuration document as plain values: the `modules` entry, and every
/// other top-level entry as a module's block in canonical text form.
pub struct Document {
    pub modules: ModulesEntry,
    pub blocks: Vec<(String, String)>,
}

/// The message reported for a `modules` entry that is not a mapping.
pub open spec fn malformed_modules_message() -> Seq<char> {
    "The modules entry is not a mapping!"@
}

impl ConfigSnapshot {
    /// Builds a snapshot from a document. A document without a `modules`
    /// entry enables nothing; one whose entry is not a mapping, or holds a
    /// value that is not a flag, is rejected with the reasons.
    pub fn from_document(doc: Document) -> (r: Result<ConfigSnapshot, Vec<String>>)
        ensures
            match doc.modules {
                ModulesEntry::Absent => r is Ok && r->Ok_0.enables@.len() == 0 && r->Ok_0.blocks@ == doc.blocks@,
                ModulesEntry::Malformed => r is Err && r->Err_0@.len() == 1 && r->Err_0@[0]@ == malformed_modules_message(),
                ModulesEntry::Mapping(m) => {
                    &&& (r is Ok <==> flag_errors(raw_view(m@)).len() == 0)
                    &&& r is Ok ==> key_views(r->Ok_0.enables@) == valid_flags(raw_view(m@)) && r->Ok_0.blocks@ == doc.blocks@
                    &&& r is Err ==> r->Err_0@.map_values(|e: String| e@) == flag_errors(raw_view(m@))
                },
            },
    {
        match doc.modules {
            ModulesEntry::Absent => Ok(ConfigSnapshot { enables: Vec::new(), blocks: doc.blocks }),
            ModulesEntry::Malformed => {
                let mut errors: Vec<String> = Vec::new();
                errors.push(String::from_str("The modules entry is not a mapping!"));
                proof {
                    reveal_strlit("The modules entry is not a mapping!");
                }
                Err(errors)
            },
            ModulesEntry::Mapping(m) => ConfigSnapshot::from_raw(m, doc.blocks),
        }
    }
}

proof fn lemma_lookup_push<V>(s: Seq<(String, V)>, e: (String, V), n: Seq<char>)
    ensures
        lookup(s.push(e), n) == (if lookup(s, n) is Some { lookup(s, n) } else if e.0@ == n { Some(e.1) } else { None::<V> }),
    decreases s.len(),
{
    if s.len() > 0 {
        let t = s.push(e);
        assert(t[0] == s[0]);
        assert(t.subrange(1, t.len() as int) =~= s.subrange(1, s.len() as int).push(e));
        lemma_lookup_push(s.subrange(1, s.len() as int), e, n);
    } else {
        let t = s.push(e);
        assert(t[0] == e);
        assert(t.subrange(1, t.len() as int) =~= Seq::<(String, V)>::empty());
        assert(lookup(Seq::<(String, V)>::empty(), n) is None);
    }
}

} // verus!
