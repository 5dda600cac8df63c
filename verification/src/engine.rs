//! Lifecycle of the embedded engine.

use crate::text::same_text;
use vstd::prelude::*;
use vstd::string::{StrSliceExecFns, StringExecFns};

verus! {

/// The running engine, if there is one.
pub struct EngineSlot<T> {
    state: Option<T>,
}

impl<T> EngineSlot<T> {
    /// What runs, if anything does.
    pub closed spec fn running(self) -> Option<T> {
        self.state
    }

    /// No engine runs.
    pub fn new() -> (r: EngineSlot<T>)
        ensures
            r.running() is None,
    {
        EngineSlot { state: None }
    }

    /// The engine that runs.
    pub fn tunnel(&self) -> (r: Option<&T>)
        ensures
            match r {
                Some(t) => self.running() == Some(*t),
                None => self.running() is None,
            },
    {
        match &self.state {
            Some(t) => Some(t),
            None => None,
        }
    }
}

/// Whether an engine runs.
pub fn is_running<T>(slot: &EngineSlot<T>) -> (r: bool)
    ensures
        r == (slot.running() is Some),
{
    slot.state.is_some()
}

/// What runs after a start with what was loaded.
pub open spec fn after_start<T, E>(running: Option<T>, loaded: Result<T, E>) -> Option<T> {
    match (running, loaded) {
        (Some(t), _) => Some(t),
        (None, Ok(t)) => Some(t),
        (None, Err(_)) => None,
    }
}

/// Starts the engine with what was loaded. An engine that runs is left alone,
/// and that is no error; what could not be loaded is not started.
pub fn start<T, E>(slot: &mut EngineSlot<T>, loaded: Result<T, E>) -> (r: Result<(), E>)
    ensures
        match old(slot).running() {
            Some(_) => r is Ok && final(slot).running() == old(slot).running(),
            None => match loaded {
                Ok(t) => r is Ok && final(slot).running() == Some(t),
                Err(e) => r == Err::<(), E>(e) && final(slot).running() is None,
            },
        },
        final(slot).running() == after_start(old(slot).running(), loaded),
{
    if slot.state.is_some() {
        return Ok(());
    }
    match loaded {
        Ok(t) => {
            slot.state = Some(t);
            Ok(())
        },
        Err(e) => Err(e),
    }
}

/// Stops the engine and hands back what ran, for the caller to wind down.
/// Stopping an engine that does not run does nothing.
pub fn stop<T>(slot: &mut EngineSlot<T>) -> (r: Option<T>)
    ensures
        r == old(slot).running(),
        final(slot).running() is None,
{
    slot.state.take()
}

/// Upload and download counters: those of the engine, zero before it runs.
pub fn traffic(snapshot: Option<(i64, i64)>) -> (r: (i64, i64))
    ensures
        r == match snapshot {
            Some(s) => s,
            None => (0i64, 0i64),
        },
{
    match snapshot {
        Some(s) => s,
        None => (0, 0),
    }
}

/// 1 if an engine runs, 0 otherwise.
pub fn meow_engine_is_running<T>(slot: &EngineSlot<T>) -> (r: i32)
    ensures
        r == if slot.running() is Some {
            1int
        } else {
            0
        },
{
    if is_running(slot) {
        1
    } else {
        0
    }
}

/// A path without its `.yaml`, where it ends in one.
pub open spec fn path_stem(path: Seq<char>) -> Seq<char> {
    let n = path.len() - ".yaml"@.len();
    if n >= 0 && path.skip(n) == ".yaml"@ {
        path.take(n)
    } else {
        path
    }
}

/// Where the stripped configuration is kept while it is loaded: beside its
/// source, because the loader keeps its provider caches in the directory of
/// the file that it loads. `.ios-stripped.yaml` takes the place of a trailing
/// `.yaml`.
pub fn stripped_path(config_path: &str) -> (r: String)
    ensures
        r@ == path_stem(config_path@) + ".ios-stripped.yaml"@,
{
    proof {
        reveal_strlit(".yaml");
        assert(".yaml"@.len() == 5);
    }
    let n: usize = config_path.unicode_len();
    let stem = if n >= 5 && same_text(config_path.substring_char(n - 5, n), ".yaml") {
        config_path.substring_char(0, n - 5)
    } else {
        config_path
    };
    stem.to_owned().concat(".ios-stripped.yaml")
}

/// A trailing `.yaml` is taken off, once, and nothing else is.
pub proof fn law_only_a_trailing_yaml_is_taken_off(path: Seq<char>)
    ensures
        path_stem(path + ".yaml"@) == path,
        (path.len() < 5 || path[path.len() - 5] != '.' || path[path.len() - 4] != 'y' || path[
        path.len() - 3] != 'a' || path[path.len() - 2] != 'm' || path[path.len() - 1] != 'l')
            ==> path_stem(path) == path,
{
    reveal_strlit(".yaml");
    let whole = path + ".yaml"@;
    assert(".yaml"@.len() == 5);
    assert(whole.skip(path.len() as int) =~= ".yaml"@);
    assert(whole.take(path.len() as int) =~= path);
    if path.len() >= 5 && path.skip(path.len() - 5) == ".yaml"@ {
        let tail = path.skip(path.len() - 5);
        assert(tail[0] == '.' && tail[1] == 'y' && tail[2] == 'a' && tail[3] == 'm' && tail[4]
            == 'l');
    }
}

/// The stripped configuration stands in the directory of its source and never
/// in its place: the path goes on from that of the source, with no separator
/// behind it, and is another path.
pub proof fn law_stripped_file_stands_beside_its_source(path: Seq<char>)
    ensures
        ({
            let stripped = path_stem(path) + ".ios-stripped.yaml"@;
            &&& stripped != path
            &&& path_stem(path).is_prefix_of(path)
            &&& forall|i: int|
                path_stem(path).len() <= i < path.len() ==> #[trigger] path[i] != '/'
            &&& forall|i: int|
                path_stem(path).len() <= i < stripped.len() ==> #[trigger] stripped[i] != '/'
        }),
{
    reveal_strlit(".yaml");
    reveal_strlit(".ios-stripped.yaml");
    let stem = path_stem(path);
    let stripped = stem + ".ios-stripped.yaml"@;
    let n = stem.len() as int;
    assert(".yaml"@.len() == 5 && ".ios-stripped.yaml"@.len() == 18);
    assert(stripped.len() == n + 18);
    assert(stem =~= path.take(n));
    if n < path.len() {
        let tail = path.skip(n);
        assert(tail == ".yaml"@);
        assert forall|i: int| n <= i < path.len() implies #[trigger] path[i] != '/' by {
            assert(path[i] == tail[i - n]);
        }
    }
    assert forall|i: int| n <= i < stripped.len() implies #[trigger] stripped[i] != '/' by {
        assert(stripped[i] == ".ios-stripped.yaml"@[i - n]);
    }
}

/// A start never replaces an engine that runs, with whatever it comes; from a
/// stopped engine what was loaded runs, and nothing does where nothing could be
/// loaded; and starting again changes nothing.
pub proof fn law_a_running_engine_is_left_alone<T, E>(
    t: T,
    loaded: Result<T, E>,
    again: Result<T, E>,
    running: Option<T>,
    e: E,
)
    ensures
        after_start(Some(t), loaded) == Some(t),
        after_start(None, Ok::<T, E>(t)) == Some(t),
        after_start(None::<T>, Err::<T, E>(e)) is None,
        after_start(running, loaded) is Some ==> after_start(after_start(running, loaded), again)
            == after_start(running, loaded),
{
}

} // verus!
