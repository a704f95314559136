//! The engine: holder of the interning map and of the invocation cache, and
//! entry point of every call.

use vstd::prelude::*;
use chashmap::CHashMap;
use crate::cache::{
    alter_task_cache, interned_entries, new_interning_map, new_task_cache, snapshot_task_cache,
    task_entries, upsert_interning_map,
};
use crate::error::EngineError;
use crate::handles::{handle_ids, handles_from, ids_of, FunctionId, TaskHandle, TypeTag, ValueHandle};
use crate::interner::{intern_key, settled};
use crate::memo::{constructed, invocation_key, memoized, resolve, resolved, Call, Found};
use crate::scheduler::Execution;
use crate::table::{canonical, lemma_replacing_with_the_stored_entry};

verus! {

/// One entry of the invocation cache.
#[derive(Debug, PartialEq, Eq)]
pub struct CachedInvocation {
    /// The function that was called.
    pub func: FunctionId,
    /// The inputs of the call, in order.
    pub inputs: Vec<ValueHandle>,
    /// The task of that call.
    pub task: TaskHandle,
}

/// Whether `records` holds every entry of `entries` exactly once, in any
/// order.
pub open spec fn snapshot_of(
    records: Seq<CachedInvocation>,
    entries: Map<(u64, Seq<u64>), u64>,
) -> bool {
    &&& forall|i: int|
        0 <= i < records.len() ==> entries.contains_key(
            invocation_key(records[i].func, records[i].inputs@),
        ) && entries[invocation_key(records[i].func, records[i].inputs@)] == records[i].task.0
    &&& forall|key: (u64, Seq<u64>)|
        entries.contains_key(key) ==> exists|i: int|
            0 <= i < records.len() && invocation_key(
                (#[trigger] records[i]).func,
                records[i].inputs@,
            ) == key
    &&& forall|i: int, j: int|
        0 <= i < j < records.len() ==> invocation_key(records[i].func, records[i].inputs@)
            != invocation_key(records[j].func, records[j].inputs@)
}

/// The engine. It owns the two caches; whoever holds it exclusively sees
/// each call as one step from the caches before to the caches after.
pub struct TurboTasks {
    interning_map: CHashMap<(u64, Vec<u8>), u64>,
    task_cache: CHashMap<(u64, Vec<u64>), u64>,
}

impl TurboTasks {
    /// The interned values: the handle's number under each type tag and key.
    pub closed spec fn interned(&self) -> Map<(u64, Seq<u8>), u64> {
        interned_entries(self.interning_map)
    }

    /// The cached invocations: the task's number under each function and
    /// ordered list of inputs.
    pub closed spec fn invocations(&self) -> Map<(u64, Seq<u64>), u64> {
        task_entries(self.task_cache)
    }

    /// An engine with both caches empty.
    pub fn new() -> (engine: TurboTasks)
        ensures
            engine.interned() == (Map::<(u64, Seq<u8>), u64>::empty()),
            engine.invocations() == (Map::<(u64, Seq<u64>), u64>::empty()),
    {
        TurboTasks { interning_map: new_interning_map(), task_cache: new_task_cache() }
    }

    /// Schedules `task`: the unit of work that will run it, with every step
    /// still ahead. Each call gives a unit of its own.
    pub fn schedule(&self, task: TaskHandle) -> (run: Execution)
        ensures
            run.unstarted(task),
    {
        Execution::new(task)
    }

    /// Schedules the root task `task` and hands it back with its unit of
    /// work. Root tasks are not cached: the engine is as it was, and a second
    /// call, with whatever task, gives a second unit.
    pub fn spawn_root_task(&self, task: TaskHandle) -> (spawned: (TaskHandle, Execution))
        ensures
            spawned.0 == task,
            spawned.1.unstarted(task),
    {
        let run = self.schedule(task);
        (task, run)
    }

    /// The memoized call of `func` on `inputs`.
    ///
    /// Where the cache holds a task under this function and these inputs, in
    /// this order, that task comes back, nothing is built and the engine is as
    /// it was. Where it holds none, `construct` runs once on the inputs and the
    /// function: the task it builds is stored under the key and comes back
    /// with its unit of work to launch; its refusal comes back as
    /// `InvocationConstructionFailed`, with the cause as `construct` gave it,
    /// and nothing is stored. No other error is returned.
    ///
    /// `construct` has to be callable only where the cache holds no task under
    /// the key: where it holds one, `construct` is dropped unused.
    pub fn dynamic_call<C, E>(
        &mut self,
        func: FunctionId,
        inputs: Vec<ValueHandle>,
        construct: C,
    ) -> (r: Result<Call, EngineError<E>>) where
        C: FnOnce(Vec<ValueHandle>, FunctionId) -> Result<TaskHandle, E>,

        requires
            !old(self).invocations().contains_key(invocation_key(func, inputs@)) ==> call_requires(
                construct,
                (inputs, func),
            ),
        ensures
            memoized(
                old(self).invocations(),
                invocation_key(func, inputs@),
                r,
                final(self).invocations(),
            ),
            !old(self).invocations().contains_key(invocation_key(func, inputs@)) ==> call_ensures(
                construct,
                (inputs, func),
                constructed(r),
            ),
            final(self).interned() == old(self).interned(),
    {
        let ids = handle_ids(&inputs);
        proof {
            lemma_replacing_with_the_stored_entry(
                self.invocations(),
                invocation_key(func, inputs@),
            );
        }
        let decide = |current: Option<u64>| -> (out: (Option<u64>, Result<Found, E>))
            requires
                current is None ==> call_requires(construct, (inputs, func)),
            ensures
                resolved(current, construct, inputs, func, out),
            { resolve(current, inputs, func, construct) };
        let outcome = alter_task_cache(&mut self.task_cache, (func.0, ids), decide);
        match outcome {
            Some(Ok(found)) => {
                let run = if found.created {
                    Some(self.schedule(found.task))
                } else {
                    None
                };
                Ok(Call { task: found.task, run })
            },
            Some(Err(cause)) => Err(EngineError::InvocationConstructionFailed(cause)),
            None => Err(EngineError::InvariantViolation),
        }
    }

    /// The canonical handle of the value of type `tag` with key `key`.
    ///
    /// Where the map holds a handle under this tag and key, that handle comes
    /// back and the engine is as it was. Where it holds none, `fallback` runs
    /// once, and the handle it builds is stored under the key and comes back.
    ///
    /// `fallback` has to be callable only where the map holds no handle under
    /// the key: where it holds one, `fallback` is dropped unused.
    pub fn intern<F>(&mut self, tag: TypeTag, key: Vec<u8>, fallback: F) -> (handle: ValueHandle) where
        F: FnOnce() -> ValueHandle,

        requires
            !old(self).interned().contains_key(intern_key(tag, key@)) ==> call_requires(
                fallback,
                (),
            ),
        ensures
            canonical(
                old(self).interned(),
                intern_key(tag, key@),
                handle.0,
                final(self).interned(),
            ),
            !old(self).interned().contains_key(intern_key(tag, key@)) ==> call_ensures(
                fallback,
                (),
                handle,
            ),
            final(self).invocations() == old(self).invocations(),
    {
        let make = || -> (id: u64)
            requires
                call_requires(fallback, ()),
            ensures
                call_ensures(fallback, (), ValueHandle(id)),
            {
                let built = fallback();
                built.0
            };
        let slots = upsert_interning_map(&mut self.interning_map, (tag.0, key), make);
        settled(slots.0, slots.1)
    }

    /// A copy of the invocation cache as it is now: every cached invocation
    /// once, in no particular order. The engine is not changed.
    pub fn visualize(&self) -> (records: Vec<CachedInvocation>)
        ensures
            snapshot_of(records@, self.invocations()),
    {
        let pairs = snapshot_task_cache(&self.task_cache);
        let mut records: Vec<CachedInvocation> = Vec::new();
        let mut i: usize = 0;
        while i < pairs.len()
            invariant
                i <= pairs.len(),
                records.len() == i,
                forall|k: int|
                    0 <= k < i ==> (#[trigger] records[k]).func.0 == pairs[k].0.0 && ids_of(
                        records[k].inputs@,
                    ) == pairs[k].0.1@ && records[k].task.0 == pairs[k].1,
            decreases pairs.len() - i,
        {
            let inputs = handles_from(&pairs[i].0.1);
            records.push(
                CachedInvocation { func: FunctionId(pairs[i].0.0), inputs, task: TaskHandle(pairs[i].1) },
            );
            i = i + 1;
        }
        proof {
            let entries = self.invocations();
            assert forall|key: (u64, Seq<u64>)| entries.contains_key(key) implies exists|k: int|
                0 <= k < records.len() && invocation_key(
                    (#[trigger] records[k]).func,
                    records[k].inputs@,
                ) == key by {
                let k = choose|k: int|
                    0 <= k < pairs.len() && (#[trigger] pairs[k]).0.0 == key.0 && pairs[k].0.1@
                        == key.1;
                assert(invocation_key(records[k].func, records[k].inputs@) == key);
            }
        }
        records
    }
}

/// The memoized call of `func` on `inputs` in the ambient engine.
///
/// `engine` is the engine bound to the caller's unit of work, if there is
/// one. Without one the call fails with `NoAmbientEngine` and does nothing
/// else: nothing is asked of `construct`, which is dropped unused. With one
/// it is that engine's `dynamic_call`.
pub fn dynamic_call<C, E>(
    engine: Option<&mut TurboTasks>,
    func: FunctionId,
    inputs: Vec<ValueHandle>,
    construct: C,
) -> (r: Result<Call, EngineError<E>>) where
    C: FnOnce(Vec<ValueHandle>, FunctionId) -> Result<TaskHandle, E>,

    requires
        engine matches Some(bound) ==> (!bound.invocations().contains_key(
            invocation_key(func, inputs@),
        ) ==> call_requires(construct, (inputs, func))),
    ensures
        engine is None <==> r == Err::<Call, EngineError<E>>(EngineError::NoAmbientEngine),
        engine matches Some(bound) ==> memoized(
            bound.invocations(),
            invocation_key(func, inputs@),
            r,
            final(bound).invocations(),
        ) && (!bound.invocations().contains_key(invocation_key(func, inputs@)) ==> call_ensures(
            construct,
            (inputs, func),
            constructed(r),
        )) && final(bound).interned() == bound.interned(),
{
    match engine {
        Some(bound) => bound.dynamic_call(func, inputs, construct),
        None => Err(EngineError::NoAmbientEngine),
    }
}

/// The canonical handle of the value of type `tag` with key `key`, in the
/// ambient engine.
///
/// `engine` is the engine bound to the caller's unit of work, if there is
/// one. Without one the request fails with `NoAmbientEngine`: nothing is
/// asked of `fallback`, which is dropped unused. With one it is that engine's
/// `intern`, which cannot fail.
pub fn intern<F, E>(
    engine: Option<&mut TurboTasks>,
    tag: TypeTag,
    key: Vec<u8>,
    fallback: F,
) -> (r: Result<ValueHandle, EngineError<E>>) where F: FnOnce() -> ValueHandle
    requires
        engine matches Some(bound) ==> (!bound.interned().contains_key(intern_key(tag, key@))
            ==> call_requires(fallback, ())),
    ensures
        engine is None ==> r == Err::<ValueHandle, EngineError<E>>(EngineError::NoAmbientEngine),
        engine matches Some(bound) ==> r matches Ok(handle) && canonical(
            bound.interned(),
            intern_key(tag, key@),
            handle.0,
            final(bound).interned(),
        ) && (!bound.interned().contains_key(intern_key(tag, key@)) ==> call_ensures(
            fallback,
            (),
            handle,
        )) && final(bound).invocations() == bound.invocations(),
{
    match engine {
        Some(bound) => Ok(bound.intern(tag, key, fallback)),
        None => Err(EngineError::NoAmbientEngine),
    }
}

} // verus!
