use vstd::prelude::*;

verus! {

/// Bursts of file-system events closer together than this, in milliseconds,
/// cause one reload.
pub const DEBOUNCE_MS: u64 = 150;

/// How long, in milliseconds, reading the configuration file is retried
/// before the defaults are used.
pub const LOAD_DEADLINE_MS: u64 = 750;

/// The pause between two attempts to read the configuration file, in milliseconds.
pub const RETRY_PAUSE_MS: u64 = 50;

/// The kind of a file-system change, as far as reloading cares.
#[derive(Clone, Copy, Debug, PartialEq, Eq, Structural)]
pub enum FsChange {
    Data,
    Name,
    Create,
    Remove,
    AnyModify,
    Other,
}

/// Whether a change of this kind can alter the file's contents.
pub open spec fn reloading_kind(c: FsChange) -> bool {
    !(c is Other)
}

/// Whether one of the touched file names is the configuration file's.
pub open spec fn touches(names: Seq<String>, cfg_name: Seq<char>) -> bool {
    exists|i: int| 0 <= i < names.len() && #[trigger] names[i]@ == cfg_name
}

/// Decides whether a file-system event reloads the configuration: it must
/// touch the configuration file, be of a kind that can change it, and come
/// at least the debounce window after the last reload.
pub fn should_reload(names: &Vec<String>, cfg_name: &String, change: FsChange, since_last_ms: u64) -> (r: bool)
    ensures
        r == (touches(names@, cfg_name@) && reloading_kind(change) && since_last_ms >= DEBOUNCE_MS),
{
    if change == FsChange::Other || since_last_ms < DEBOUNCE_MS {
        return false;
    }
    let mut i: usize = 0;
    while i < names.len()
        invariant
            reloading_kind(change),
            since_last_ms >= DEBOUNCE_MS,
            i <= names@.len(),
            forall|j: int| 0 <= j < i ==> #[trigger] names@[j]@ != cfg_name@,
        decreases names@.len() - i,
    {
        if names[i] == *cfg_name {
            return true;
        }
        i = i + 1;
    }
    false
}

/// What to do after an attempt to read the configuration file.
#[derive(Clone, Copy, Debug, PartialEq, Eq, Structural)]
pub enum LoadStep {
    /// The text was read: parse it.
    Parse,
    /// Reading failed within the deadline: pause, then try again.
    Retry,
    /// Reading failed past the deadline: use the default configuration.
    UseDefault,
}

/// Decides the next step of loading the configuration file, `elapsed_ms`
/// after the first attempt.
pub fn after_read(read_ok: bool, elapsed_ms: u64) -> (r: LoadStep)
    ensures
        read_ok ==> r == LoadStep::Parse,
        !read_ok && elapsed_ms < LOAD_DEADLINE_MS ==> r == LoadStep::Retry,
        !read_ok && elapsed_ms >= LOAD_DEADLINE_MS ==> r == LoadStep::UseDefault,
{
    if read_ok {
        LoadStep::Parse
    } else if elapsed_ms < LOAD_DEADLINE_MS {
        LoadStep::Retry
    } else {
        LoadStep::UseDefault
    }
}

} // verus!
