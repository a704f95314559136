//! The memoized-invocation protocol: one task per function and ordered list
//! of inputs.

use vstd::prelude::*;
use crate::error::EngineError;
use crate::handles::{ids_of, lemma_ids_of_is_injective, FunctionId, TaskHandle, ValueHandle};
use crate::scheduler::Execution;
use crate::table::{canonical, stored};

verus! {

/// What the decision step of a memoized call settled on.
#[derive(Clone, Copy, Debug, PartialEq, Eq, Structural)]
pub struct Found {
    /// The task of the call.
    pub task: TaskHandle,
    /// Whether this call built the task, rather than finding it cached.
    pub created: bool,
}

/// What a memoized call hands back.
#[derive(Debug, PartialEq, Eq)]
pub struct Call {
    /// The one task of this function and these inputs.
    pub task: TaskHandle,
    /// The unit of work to launch, present exactly when this call built the
    /// task. A task found in the cache was launched by the call that built it.
    pub run: Option<Execution>,
}

/// The cache key of a call: the function's identity and the identities of its
/// inputs, in the order given.
pub open spec fn invocation_key(func: FunctionId, inputs: Seq<ValueHandle>) -> (u64, Seq<u64>) {
    (func.0, ids_of(inputs))
}

/// What the task layer's constructor returned in a call that ended with `r`.
/// Meaningful where the call ran the constructor.
pub open spec fn constructed<E>(r: Result<Call, EngineError<E>>) -> Result<TaskHandle, E> {
    match r {
        Ok(call) => Ok(call.task),
        Err(EngineError::InvocationConstructionFailed(cause)) => Err(cause),
        Err(_) => arbitrary(),
    }
}

/// What the constructor returned in a decision step that ended with `r`.
pub open spec fn built<E>(r: Result<Found, E>) -> Result<TaskHandle, E> {
    match r {
        Ok(found) => Ok(found.task),
        Err(cause) => Err(cause),
    }
}

/// The decision step of a memoized call, as a relation between the entry it
/// found under the key, `current`, and what it gave: the entry to store and
/// the result for the caller.
///
/// A present entry is kept and returned. On an absent one the constructor
/// runs: the task it built is stored and returned as created; its refusal
/// stores nothing and is returned as it is.
pub open spec fn resolved<C, E>(
    current: Option<u64>,
    construct: C,
    inputs: Vec<ValueHandle>,
    func: FunctionId,
    out: (Option<u64>, Result<Found, E>),
) -> bool where C: FnOnce(Vec<ValueHandle>, FunctionId) -> Result<TaskHandle, E> {
    match current {
        Some(id) => out.0 == Some(id) && out.1 == Ok::<Found, E>(
            Found { task: TaskHandle(id), created: false },
        ),
        None => call_ensures(construct, (inputs, func), built(out.1)) && match out.1 {
            Ok(found) => found.created && out.0 == Some(found.task.0),
            Err(_) => out.0 is None,
        },
    }
}

/// One memoized call on `key` that found the cache as `before`, ended with
/// `r` and left the cache as `after`.
///
/// With a result: the cache holds the returned task under `key`, which it
/// either held before or has gained now, and nothing else changed; a unit of
/// work comes with the task exactly when the key was absent before, and it is
/// the task's unit before its first step. With an error: the key was
/// absent, the task layer refused to build the task, and the cache is as it
/// was.
pub open spec fn memoized<E>(
    before: Map<(u64, Seq<u64>), u64>,
    key: (u64, Seq<u64>),
    r: Result<Call, EngineError<E>>,
    after: Map<(u64, Seq<u64>), u64>,
) -> bool {
    match r {
        Ok(call) => canonical(before, key, call.task.0, after) && match call.run {
            Some(run) => !before.contains_key(key) && run.unstarted(call.task),
            None => before.contains_key(key),
        },
        Err(e) => e is InvocationConstructionFailed && !before.contains_key(key) && after == before,
    }
}

/// The decision step of a memoized call. It runs with the cache entry of the
/// call's key in hand; the first part of what it returns becomes the entry.
/// The constructor has to be callable only where there is no entry: with one
/// in hand it is not run.
pub fn resolve<C, E>(
    current: Option<u64>,
    inputs: Vec<ValueHandle>,
    func: FunctionId,
    construct: C,
) -> (out: (Option<u64>, Result<Found, E>)) where
    C: FnOnce(Vec<ValueHandle>, FunctionId) -> Result<TaskHandle, E>,

    requires
        current is None ==> call_requires(construct, (inputs, func)),
    ensures
        resolved(current, construct, inputs, func, out),
{
    match current {
        Some(id) => (Some(id), Ok(Found { task: TaskHandle(id), created: false })),
        None => match construct(inputs, func) {
            Ok(task) => (Some(task.0), Ok(Found { task, created: true })),
            Err(cause) => (None, Err(cause)),
        },
    }
}

/// Whether a call that ended with `r` built a task and handed out its unit
/// of work.
pub open spec fn launches<E>(r: Result<Call, EngineError<E>>) -> bool {
    r is Ok && r->Ok_0.run is Some
}

/// A run of calls on one key, one after another: call `i` found the cache as
/// `states[i]`, ended with `results[i]` and left it as `states[i + 1]`.
pub open spec fn calls_in_turn<E>(
    states: Seq<Map<(u64, Seq<u64>), u64>>,
    key: (u64, Seq<u64>),
    results: Seq<Result<Call, EngineError<E>>>,
) -> bool {
    &&& states.len() == results.len() + 1
    &&& forall|i: int|
        0 <= i < results.len() ==> memoized(states[i], key, #[trigger] results[i], states[i + 1])
}

proof fn lemma_task_stays<E>(
    states: Seq<Map<(u64, Seq<u64>), u64>>,
    key: (u64, Seq<u64>),
    results: Seq<Result<Call, EngineError<E>>>,
    i: int,
    j: int,
)
    requires
        calls_in_turn(states, key, results),
        0 <= i < j <= results.len(),
        results[i] is Ok,
    ensures
        stored(states[j], key) == Some(results[i]->Ok_0.task.0),
        states[j] == states[i + 1],
    decreases j - i,
{
    if j == i + 1 {
        assert(memoized(states[i], key, results[i], states[i + 1]));
    } else {
        lemma_task_stays(states, key, results, i, j - 1);
        assert(memoized(states[j - 1], key, results[j - 1], states[j - 1 + 1]));
    }
}

/// However many calls are made with one function and one list of inputs, in
/// whatever order they reach the cache: once one of them has a task, every
/// later one gets that same task, builds nothing, launches nothing and leaves
/// the cache as it is. So at most one of them builds and launches a task.
pub proof fn lemma_calls_with_one_key_share_one_task<E>(
    states: Seq<Map<(u64, Seq<u64>), u64>>,
    key: (u64, Seq<u64>),
    results: Seq<Result<Call, EngineError<E>>>,
)
    requires
        calls_in_turn(states, key, results),
    ensures
        forall|i: int, j: int|
            0 <= i < j < results.len() && (#[trigger] results[i]) is Ok ==> (#[trigger] results[j])
                == Ok::<Call, EngineError<E>>(Call { task: results[i]->Ok_0.task, run: None })
                && states[j + 1] == states[i + 1],
        forall|i: int, j: int|
            0 <= i < j < results.len() && launches(#[trigger] results[i]) ==> !launches(
                #[trigger] results[j],
            ),
{
    assert forall|i: int, j: int|
        0 <= i < j < results.len() && (#[trigger] results[i]) is Ok implies (#[trigger] results[j])
            == Ok::<Call, EngineError<E>>(Call { task: results[i]->Ok_0.task, run: None })
            && states[j + 1] == states[i + 1] by {
        lemma_task_stays(states, key, results, i, j);
        lemma_task_stays(states, key, results, i, j + 1);
        assert(memoized(states[j], key, results[j], states[j + 1]));
    }
}

/// A call never takes a task out of the cache nor puts another in its place:
/// every key that had a task before has the same task afterwards, and only
/// the key of the call can have gained one.
pub proof fn lemma_cached_tasks_are_kept<E>(
    before: Map<(u64, Seq<u64>), u64>,
    key: (u64, Seq<u64>),
    r: Result<Call, EngineError<E>>,
    after: Map<(u64, Seq<u64>), u64>,
)
    requires
        memoized(before, key, r, after),
    ensures
        forall|k: (u64, Seq<u64>)|
            before.contains_key(k) ==> after.contains_key(k) && after[k] == before[k],
        forall|k: (u64, Seq<u64>)| k != key ==> stored(after, k) == stored(before, k),
        r matches Ok(call) ==> stored(after, key) == Some(call.task.0),
{
}

/// A call whose construction failed leaves no trace: the cache is as before,
/// the key is still absent, and the next call with that key runs the
/// constructor again, so that a task it returns is one it built itself.
pub proof fn lemma_failed_construction_is_retried<E>(
    before: Map<(u64, Seq<u64>), u64>,
    key: (u64, Seq<u64>),
    failed: Result<Call, EngineError<E>>,
    between: Map<(u64, Seq<u64>), u64>,
    retry: Result<Call, EngineError<E>>,
    after: Map<(u64, Seq<u64>), u64>,
)
    requires
        memoized(before, key, failed, between),
        failed is Err,
        memoized(between, key, retry, after),
    ensures
        between == before,
        !between.contains_key(key),
        retry matches Ok(call) ==> call.run is Some && call.run->0.unstarted(call.task) && after
            == before.insert(key, call.task.0),
        retry is Err ==> after == before,
{
}

/// The order of the inputs is part of the key: two lists of inputs that
/// differ anywhere, be it only in order, give different keys, and so do two
/// different functions.
pub proof fn lemma_key_tells_calls_apart(
    func_a: FunctionId,
    inputs_a: Seq<ValueHandle>,
    func_b: FunctionId,
    inputs_b: Seq<ValueHandle>,
)
    ensures
        invocation_key(func_a, inputs_a) == invocation_key(func_b, inputs_b) <==> func_a == func_b
            && inputs_a == inputs_b,
{
    if invocation_key(func_a, inputs_a) == invocation_key(func_b, inputs_b) {
        lemma_ids_of_is_injective(inputs_a, inputs_b);
    }
}

/// Swapping two different inputs changes the key: a call on `[a, b]` and a
/// call on `[b, a]` have entries of their own. After a call on `[a, b]`, a
/// first call on `[b, a]` still finds its key absent and builds its own task.
pub proof fn lemma_reordered_inputs_are_another_entry<E>(
    func: FunctionId,
    a: ValueHandle,
    b: ValueHandle,
    before: Map<(u64, Seq<u64>), u64>,
    first: Result<Call, EngineError<E>>,
    between: Map<(u64, Seq<u64>), u64>,
    second: Result<Call, EngineError<E>>,
    after: Map<(u64, Seq<u64>), u64>,
)
    requires
        a != b,
        !before.contains_key(invocation_key(func, seq![b, a])),
        memoized(before, invocation_key(func, seq![a, b]), first, between),
        memoized(between, invocation_key(func, seq![b, a]), second, after),
    ensures
        invocation_key(func, seq![a, b]) != invocation_key(func, seq![b, a]),
        !between.contains_key(invocation_key(func, seq![b, a])),
        second matches Ok(call) ==> call.run is Some && call.run->0.unstarted(call.task),
        first matches Ok(call) ==> stored(after, invocation_key(func, seq![a, b])) == Some(
            call.task.0,
        ),
        second matches Ok(call) ==> stored(after, invocation_key(func, seq![b, a])) == Some(
            call.task.0,
        ),
{
    assert(seq![a, b][0] == a);
    assert(seq![b, a][0] == b);
    lemma_key_tells_calls_apart(func, seq![a, b], func, seq![b, a]);
}

} // verus!
