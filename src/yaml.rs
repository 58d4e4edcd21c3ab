use vstd::prelude::*;

use crate::config::{
    flag_errors, key_views, malformed_modules_message, raw_view, valid_flags, ConfigSnapshot,
    Document, ModulesEntry, RawFlag,
};

verus! {

/// One top-level entry of a YAML mapping: its key, the YAML text of its
/// value, and that value read as a map of flags where it is a mapping (each
/// name with its flag, or nothing where the value is not a boolean).
pub struct TopEntry {
    pub key: String,
    pub text: String,
    pub flags: Option<Vec<(String, Option<bool>)>>,
}

/// A top-level entry as plain values.
pub open spec fn entry_view(e: TopEntry) -> (Seq<char>, Seq<char>, Option<Seq<(Seq<char>, Option<bool>)>>) {
    (e.key@, e.text@, match e.flags {
        Some(f) => Some(f@.map_values(|p: (String, Option<bool>)| (p.0@, p.1))),
        None => None,
    })
}

/// What serde_yml reads from `text`: the entries of the top-level mapping in
/// order, or nothing where the text is not YAML or not a mapping.
pub uninterp spec fn top_level(text: Seq<char>) -> Option<Seq<(Seq<char>, Seq<char>, Option<Seq<(Seq<char>, Option<bool>)>>)>>;

/// Whether two YAML texts read as equal values under serde_yml.
pub uninterp spec fn same_yaml(a: Seq<char>, b: Seq<char>) -> bool;

/// Relies on serde_yml: `from_str` reads the text as a value; for a
/// mapping, `Mapping::iter` gives its entries in order (keys are strings),
/// `to_string` gives each value's YAML text, and `Value::as_mapping` /
/// `Value::as_bool` read a value as a map of flags. The reading depends on
/// the text alone.
#[verifier::external_body]
fn read_top_level(text: &str) -> (r: Option<Vec<TopEntry>>)
    ensures
        match r {
            Some(v) => top_level(text@) == Some(v@.map_values(|e: TopEntry| entry_view(e))),
            None => top_level(text@) is None,
        },
{
    let root = serde_yml::from_str::<serde_yml::Value>(text).ok()?;
    let map = root.as_mapping()?;
    Some(map.iter().map(|(k, v)| TopEntry {
        key: k.clone(),
        text: serde_yml::to_string(v).unwrap_or_default(),
        flags: v.as_mapping().map(|m| m.iter().map(|(n, f)| (n.clone(), f.as_bool())).collect()),
    }).collect())
}

/// Relies on serde_yml: `from_str` on each text and `Value`'s `Eq`, under
/// which mappings compare regardless of key order; a text that does not
/// parse reads as nothing. Equal texts read alike.
#[verifier::external_body]
fn yaml_equal(a: &str, b: &str) -> (r: bool)
    ensures
        r == same_yaml(a@, b@),
        a@ == b@ ==> r,
{
    serde_yml::from_str::<serde_yml::Value>(a).ok() == serde_yml::from_str::<serde_yml::Value>(b).ok()
}

/// Whether two configuration blocks, where present, are the same YAML value.
pub open spec fn blocks_same(a: Option<Seq<char>>, b: Option<Seq<char>>) -> bool {
    match (a, b) {
        (Some(x), Some(y)) => x == y || same_yaml(x, y),
        (None, None) => true,
        _ => false,
    }
}

/// Compares two configuration blocks as YAML values.
pub fn same_block(a: Option<&String>, b: Option<&String>) -> (r: bool)
    ensures
        r == blocks_same(
            match a { Some(x) => Some(x@), None => None },
            match b { Some(y) => Some(y@), None => None },
        ),
{
    match (a, b) {
        (Some(x), Some(y)) => *x == *y || yaml_equal(x.as_str(), y.as_str()),
        (None, None) => true,
        _ => false,
    }
}

pub type EntryView = (Seq<char>, Seq<char>, Option<Seq<(Seq<char>, Option<bool>)>>);

/// The key under which the enable map stands.
pub open spec fn modules_key() -> Seq<char> {
    "modules"@
}

/// The entries other than `modules`, as module blocks, in order.
pub open spec fn blocks_of(es: Seq<EntryView>) -> Seq<(Seq<char>, Seq<char>)>
    decreases es.len(),
{
    if es.len() == 0 {
        Seq::empty()
    } else {
        let rest = blocks_of(es.drop_last());
        if es.last().0 == modules_key() {
            rest
        } else {
            rest.push((es.last().0, es.last().1))
        }
    }
}

/// The `modules` entry, if any: its value read as a map of flags, or
/// nothing where that value is not a mapping.
pub open spec fn modules_of(es: Seq<EntryView>) -> Option<Option<Seq<(Seq<char>, Option<bool>)>>>
    decreases es.len(),
{
    if es.len() == 0 {
        None
    } else if es.last().0 == modules_key() {
        Some(es.last().2)
    } else {
        modules_of(es.drop_last())
    }
}

/// Whether `m` is the `modules` entry that the reading `v` gives.
pub open spec fn modules_entry_is(m: ModulesEntry, v: Option<Option<Seq<(Seq<char>, Option<bool>)>>>) -> bool {
    match m {
        ModulesEntry::Absent => v is None,
        ModulesEntry::Malformed => v == Some(None::<Seq<(Seq<char>, Option<bool>)>>),
        ModulesEntry::Mapping(x) => v == Some(Some(raw_view(x@))),
    }
}

pub open spec fn pair_views(s: Seq<(String, String)>) -> Seq<(Seq<char>, Seq<char>)> {
    s.map_values(|p: (String, String)| (p.0@, p.1@))
}

pub open spec fn message_views(s: Seq<String>) -> Seq<Seq<char>> {
    s.map_values(|e: String| e@)
}

/// The message reported for text that is not a YAML mapping.
pub open spec fn unparsable_message() -> Seq<char> {
    "Config could not be parsed!"@
}

fn single_error(msg: &str) -> (r: Vec<String>)
    ensures
        r@.len() == 1,
        r@[0]@ == msg@,
{
    let mut errors: Vec<String> = Vec::new();
    errors.push(String::from_str(msg));
    errors
}

fn raw_flags(f: &Vec<(String, Option<bool>)>) -> (r: Vec<(String, RawFlag)>)
    ensures
        raw_view(r@) == f@.map_values(|p: (String, Option<bool>)| (p.0@, p.1)),
{
    let mut out: Vec<(String, RawFlag)> = Vec::new();
    let mut j: usize = 0;
    while j < f.len()
        invariant
            j <= f@.len(),
            out@.len() == j,
            forall|k: int| 0 <= k < j ==> (#[trigger] out@[k]).0 == f@[k].0,
            forall|k: int| 0 <= k < j ==> match f@[k].1 {
                Some(b) => (#[trigger] out@[k]).1 == RawFlag::Bool(b),
                None => out@[k].1 == RawFlag::Invalid,
            },
        decreases f@.len() - j,
    {
        let raw = match f[j].1 {
            Some(b) => RawFlag::Bool(b),
            None => RawFlag::Invalid,
        };
        out.push((f[j].0.clone(), raw));
        j = j + 1;
    }
    let ghost fv = f@.map_values(|p: (String, Option<bool>)| (p.0@, p.1));
    assert forall|k: int| 0 <= k < out@.len() implies #[trigger] raw_view(out@)[k] == fv[k] by {
        match f@[k].1 {
            Some(b) => assert(out@[k].1 == RawFlag::Bool(b)),
            None => assert(out@[k].1 == RawFlag::Invalid),
        }
    }
    assert(raw_view(out@) =~= fv);
    out
}

/// Reads configuration text into a document: the `modules` entry and every
/// other top-level entry as a module block. Text that is not a YAML mapping
/// is reported as unparsable.
pub fn parse_document(text: &str) -> (r: Result<Document, Vec<String>>)
    ensures
        r is Err <==> top_level(text@) is None,
        r is Err ==> message_views(r->Err_0@) == seq![unparsable_message()],
        r is Ok ==> pair_views(r->Ok_0.blocks@) == blocks_of(top_level(text@)->0)
            && modules_entry_is(r->Ok_0.modules, modules_of(top_level(text@)->0)),
{
    proof {
        reveal_strlit("Config could not be parsed!");
        reveal_strlit("modules");
    }
    let entries = match read_top_level(text) {
        Some(e) => e,
        None => {
            let e = single_error("Config could not be parsed!");
            assert(message_views(e@) =~= seq![unparsable_message()]);
            return Err(e);
        },
    };
    let ghost es = entries@.map_values(|e: TopEntry| entry_view(e));
    let key = String::from_str("modules");
    let mut modules = ModulesEntry::Absent;
    let mut blocks: Vec<(String, String)> = Vec::new();
    let mut i: usize = 0;
    while i < entries.len()
        invariant
            i <= entries@.len(),
            es == entries@.map_values(|e: TopEntry| entry_view(e)),
            key@ == modules_key(),
            pair_views(blocks@) == blocks_of(es.subrange(0, i as int)),
            modules_entry_is(modules, modules_of(es.subrange(0, i as int))),
        decreases entries@.len() - i,
    {
        let ghost next = es.subrange(0, i + 1);
        assert(next.drop_last() =~= es.subrange(0, i as int));
        assert(next.last() == entry_view(entries@[i as int]));
        if entries[i].key == key {
            modules = match &entries[i].flags {
                Some(f) => ModulesEntry::Mapping(raw_flags(f)),
                None => ModulesEntry::Malformed,
            };
        } else {
            blocks.push((entries[i].key.clone(), entries[i].text.clone()));
            assert(pair_views(blocks@) =~= blocks_of(next));
        }
        i = i + 1;
    }
    assert(es.subrange(0, es.len() as int) =~= es);
    Ok(Document { modules, blocks })
}

/// The outcome of reading configuration text, in plain values: the error
/// messages, or the enable flags and the module blocks.
pub open spec fn config_outcome(text: Seq<char>) -> Result<(Seq<(Seq<char>, bool)>, Seq<(Seq<char>, Seq<char>)>), Seq<Seq<char>>> {
    match top_level(text) {
        None => Err(seq![unparsable_message()]),
        Some(es) => match modules_of(es) {
            None => Ok((Seq::empty(), blocks_of(es))),
            Some(None) => Err(seq![malformed_modules_message()]),
            Some(Some(fs)) => if flag_errors(fs).len() == 0 {
                Ok((valid_flags(fs), blocks_of(es)))
            } else {
                Err(flag_errors(fs))
            },
        },
    }
}

/// Reads configuration text into a snapshot, with every reason to reject
/// it: text that is not a YAML mapping, a `modules` entry that is not a
/// mapping, or a module whose value is not a flag.
pub fn parse_config(text: &str) -> (r: Result<ConfigSnapshot, Vec<String>>)
    ensures
        match r {
            Ok(c) => config_outcome(text@) == Ok::<_, Seq<Seq<char>>>((key_views(c.enables@), pair_views(c.blocks@))),
            Err(e) => config_outcome(text@) == Err::<(Seq<(Seq<char>, bool)>, Seq<(Seq<char>, Seq<char>)>), _>(message_views(e@)),
        },
{
    match parse_document(text) {
        Ok(doc) => {
            let ghost m = doc.modules;
            let ghost b = doc.blocks@;
            let r = ConfigSnapshot::from_document(doc);
            proof {
                reveal_strlit("The modules entry is not a mapping!");
                if r is Ok && m is Absent {
                    assert(key_views(r->Ok_0.enables@) =~= Seq::<(Seq<char>, bool)>::empty());
                }
                if r is Err && m is Malformed {
                    assert(message_views(r->Err_0@) =~= seq![malformed_modules_message()]);
                }
            }
            r
        },
        Err(e) => Err(e),
    }
}

} // verus!
