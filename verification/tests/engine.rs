use std::cell::Cell;

use turbo_tasks::{
    dynamic_call, intern, Call, CachedInvocation, EngineError, FunctionId, Step, TaskHandle,
    TurboTasks, TypeTag, ValueHandle,
};

const F: FunctionId = FunctionId(7);
const G: FunctionId = FunctionId(8);
const A: ValueHandle = ValueHandle(1);
const B: ValueHandle = ValueHandle(2);
const KIND: TypeTag = TypeTag(0);
const OTHER_KIND: TypeTag = TypeTag(1);

fn build(task: u64) -> impl FnOnce(Vec<ValueHandle>, FunctionId) -> Result<TaskHandle, String> {
    move |_inputs, _func| Ok(TaskHandle(task))
}

fn refuse(reason: &str) -> impl FnOnce(Vec<ValueHandle>, FunctionId) -> Result<TaskHandle, String> {
    let reason = reason.to_string();
    move |_inputs, _func| Err(reason)
}

fn steps_of(call: Call) -> Vec<Step> {
    let mut run = call.run.expect("a unit of work");
    let mut steps = Vec::new();
    while let Some(step) = run.advance() {
        steps.push(step);
    }
    steps
}

#[test]
fn second_call_with_the_same_key_returns_the_first_task_and_launches_nothing() {
    let mut engine = TurboTasks::new();
    let first = engine.dynamic_call(F, vec![A, B], build(100)).unwrap();
    assert_eq!(first.task, TaskHandle(100));
    let run = first.run.expect("the first call launches the task");
    assert_eq!(run.handle(), TaskHandle(100));

    let second = engine.dynamic_call(F, vec![A, B], build(200)).unwrap();
    assert_eq!(second.task, TaskHandle(100));
    assert_eq!(second.run, None);
    assert_eq!(second.task, first.task);
}

#[test]
fn second_intern_with_the_same_key_returns_the_first_handle_and_skips_its_fallback() {
    let mut engine = TurboTasks::new();
    let ran_b = Cell::new(false);
    let h = engine.intern(KIND, b"x".to_vec(), || ValueHandle(11));
    assert_eq!(h, ValueHandle(11));
    let again = engine.intern(KIND, b"x".to_vec(), || {
        ran_b.set(true);
        ValueHandle(22)
    });
    assert_eq!(again, ValueHandle(11));
    assert!(!ran_b.get());
}

#[test]
fn two_root_spawns_give_two_tasks_each_with_its_own_unit_of_work() {
    let engine = TurboTasks::new();
    let (first, mut first_run) = engine.spawn_root_task(TaskHandle(1));
    let (second, mut second_run) = engine.spawn_root_task(TaskHandle(2));
    assert_ne!(first, second);
    assert_eq!(first_run.handle(), TaskHandle(1));
    assert_eq!(second_run.handle(), TaskHandle(2));
    assert_eq!(first_run.advance(), Some(Step::BindContext));
    assert_eq!(second_run.advance(), Some(Step::BindContext));
    assert_eq!(first_run.advance(), Some(Step::Started));
    assert!(engine.visualize().is_empty());
}

#[test]
fn a_root_task_spawned_twice_is_scheduled_twice_and_never_cached() {
    let mut engine = TurboTasks::new();
    let (a, run_a) = engine.spawn_root_task(TaskHandle(5));
    let (b, run_b) = engine.spawn_root_task(TaskHandle(5));
    assert_eq!(a, b);
    assert_eq!(run_a, run_b);
    assert!(engine.visualize().is_empty());
    let call = engine.dynamic_call(F, vec![], build(5)).unwrap();
    assert!(call.run.is_some());
}

#[test]
fn many_calls_with_one_key_build_one_task() {
    let mut engine = TurboTasks::new();
    let built = Cell::new(0u32);
    let mut launched = 0;
    for n in 0..25u64 {
        let call = engine
            .dynamic_call(F, vec![A, B], |_inputs: Vec<ValueHandle>, _func: FunctionId| {
                built.set(built.get() + 1);
                Ok::<TaskHandle, String>(TaskHandle(1000 + n))
            })
            .unwrap();
        assert_eq!(call.task, TaskHandle(1000));
        if call.run.is_some() {
            launched += 1;
        }
    }
    assert_eq!(built.get(), 1);
    assert_eq!(launched, 1);
    assert_eq!(engine.visualize().len(), 1);
}

#[test]
fn many_interns_with_one_key_run_one_fallback() {
    let mut engine = TurboTasks::new();
    let ran = Cell::new(0u32);
    for n in 0..25u64 {
        let h = engine.intern(KIND, b"shared".to_vec(), || {
            ran.set(ran.get() + 1);
            ValueHandle(50 + n)
        });
        assert_eq!(h, ValueHandle(50));
    }
    assert_eq!(ran.get(), 1);
}

#[test]
fn interns_with_different_keys_do_not_share_a_handle() {
    let mut engine = TurboTasks::new();
    let x = engine.intern(KIND, b"x".to_vec(), || ValueHandle(1));
    let y = engine.intern(KIND, b"y".to_vec(), || ValueHandle(2));
    assert_eq!(x, ValueHandle(1));
    assert_eq!(y, ValueHandle(2));
    assert_ne!(x, y);
    assert_eq!(engine.intern(KIND, b"x".to_vec(), || ValueHandle(3)), x);
    assert_eq!(engine.intern(KIND, b"y".to_vec(), || ValueHandle(4)), y);
}

#[test]
fn interns_with_equal_keys_of_different_types_do_not_share_a_handle() {
    let mut engine = TurboTasks::new();
    let one = engine.intern(KIND, b"x".to_vec(), || ValueHandle(1));
    let other = engine.intern(OTHER_KIND, b"x".to_vec(), || ValueHandle(2));
    assert_eq!(one, ValueHandle(1));
    assert_eq!(other, ValueHandle(2));
}

#[test]
fn intern_accepts_the_empty_key() {
    let mut engine = TurboTasks::new();
    let empty = engine.intern(KIND, Vec::new(), || ValueHandle(9));
    let zero = engine.intern(KIND, vec![0], || ValueHandle(10));
    assert_eq!(empty, ValueHandle(9));
    assert_eq!(zero, ValueHandle(10));
    assert_eq!(engine.intern(KIND, Vec::new(), || ValueHandle(11)), ValueHandle(9));
}

#[test]
fn reordered_inputs_are_another_cache_entry() {
    let mut engine = TurboTasks::new();
    let ab = engine.dynamic_call(F, vec![A, B], build(1)).unwrap();
    let ba = engine.dynamic_call(F, vec![B, A], build(2)).unwrap();
    assert_eq!(ab.task, TaskHandle(1));
    assert_eq!(ba.task, TaskHandle(2));
    assert!(ba.run.is_some());
    assert_eq!(engine.dynamic_call(F, vec![A, B], build(3)).unwrap().task, TaskHandle(1));
    assert_eq!(engine.dynamic_call(F, vec![B, A], build(4)).unwrap().task, TaskHandle(2));
    assert_eq!(engine.visualize().len(), 2);
}

#[test]
fn swapping_two_equal_inputs_is_the_same_entry() {
    let mut engine = TurboTasks::new();
    let first = engine.dynamic_call(F, vec![A, A], build(1)).unwrap();
    let second = engine.dynamic_call(F, vec![A, A], build(2)).unwrap();
    assert_eq!(first.task, second.task);
    assert_eq!(second.run, None);
}

#[test]
fn the_function_and_the_number_of_inputs_are_part_of_the_key() {
    let mut engine = TurboTasks::new();
    assert_eq!(engine.dynamic_call(F, vec![A], build(1)).unwrap().task, TaskHandle(1));
    assert_eq!(engine.dynamic_call(G, vec![A], build(2)).unwrap().task, TaskHandle(2));
    assert_eq!(engine.dynamic_call(F, vec![A, A], build(3)).unwrap().task, TaskHandle(3));
    assert_eq!(engine.dynamic_call(F, vec![], build(4)).unwrap().task, TaskHandle(4));
    assert_eq!(engine.dynamic_call(F, vec![], build(5)).unwrap().task, TaskHandle(4));
    assert_eq!(engine.visualize().len(), 4);
}

#[test]
fn the_constructor_gets_the_inputs_and_the_function_of_the_call() {
    let mut engine = TurboTasks::new();
    let call = engine
        .dynamic_call(G, vec![B, A], |inputs: Vec<ValueHandle>, func: FunctionId| {
            assert_eq!(inputs, vec![B, A]);
            assert_eq!(func, G);
            Ok::<TaskHandle, String>(TaskHandle(77))
        })
        .unwrap();
    assert_eq!(call.task, TaskHandle(77));
}

#[test]
fn a_failed_construction_is_returned_as_it_was_raised_and_caches_nothing() {
    let mut engine = TurboTasks::new();
    let failed = engine.dynamic_call(F, vec![A, B], refuse("two inputs, one expected"));
    assert_eq!(
        failed,
        Err(EngineError::InvocationConstructionFailed("two inputs, one expected".to_string()))
    );
    assert!(engine.visualize().is_empty());
}

#[test]
fn a_call_after_a_failed_construction_builds_the_task_anew() {
    let mut engine = TurboTasks::new();
    assert!(engine.dynamic_call(F, vec![A, B], refuse("no")).is_err());
    assert!(engine.dynamic_call(F, vec![A, B], refuse("still no")).is_err());
    let call = engine.dynamic_call(F, vec![A, B], build(3)).unwrap();
    assert_eq!(call.task, TaskHandle(3));
    assert!(call.run.is_some());
    let again = engine.dynamic_call(F, vec![A, B], refuse("too late")).unwrap();
    assert_eq!(again.task, TaskHandle(3));
    assert_eq!(again.run, None);
}

#[test]
fn many_failed_constructions_leave_the_cache_usable() {
    let mut engine = TurboTasks::new();
    for n in 0..2000u64 {
        let failed = engine.dynamic_call(F, vec![ValueHandle(n)], refuse("no"));
        assert!(failed.is_err());
    }
    assert!(engine.visualize().is_empty());
    for n in 0..2000u64 {
        let call = engine.dynamic_call(F, vec![ValueHandle(n)], build(n)).unwrap();
        assert_eq!(call.task, TaskHandle(n));
        assert!(call.run.is_some());
    }
    assert_eq!(engine.visualize().len(), 2000);
}

#[test]
fn dynamic_call_without_an_ambient_engine_fails_with_no_ambient_engine() {
    let built = Cell::new(false);
    let r = dynamic_call(None, F, vec![A, B], |_inputs: Vec<ValueHandle>, _func: FunctionId| {
        built.set(true);
        Ok::<TaskHandle, String>(TaskHandle(1))
    });
    assert_eq!(r, Err(EngineError::NoAmbientEngine));
    assert!(!built.get());
}

#[test]
fn intern_without_an_ambient_engine_fails_with_no_ambient_engine() {
    let ran = Cell::new(false);
    let r: Result<ValueHandle, EngineError<String>> = intern(None, KIND, b"x".to_vec(), || {
        ran.set(true);
        ValueHandle(1)
    });
    assert_eq!(r, Err(EngineError::NoAmbientEngine));
    assert!(!ran.get());
}

#[test]
fn calls_through_the_ambient_engine_reach_its_caches() {
    let mut engine = TurboTasks::new();
    let first = dynamic_call(Some(&mut engine), F, vec![A], build(1)).unwrap();
    assert_eq!(first.task, TaskHandle(1));
    assert!(first.run.is_some());
    let second = engine.dynamic_call(F, vec![A], build(2)).unwrap();
    assert_eq!(second.task, TaskHandle(1));
    let failed = dynamic_call(Some(&mut engine), G, vec![A], refuse("bad"));
    assert_eq!(failed, Err(EngineError::InvocationConstructionFailed("bad".to_string())));

    let h: Result<ValueHandle, EngineError<String>> =
        intern(Some(&mut engine), KIND, b"x".to_vec(), || ValueHandle(5));
    assert_eq!(h, Ok(ValueHandle(5)));
    assert_eq!(engine.intern(KIND, b"x".to_vec(), || ValueHandle(6)), ValueHandle(5));
}

#[test]
fn interning_and_calling_do_not_touch_each_other() {
    let mut engine = TurboTasks::new();
    engine.intern(KIND, vec![7, 1, 2], || ValueHandle(1));
    assert!(engine.visualize().is_empty());
    let call = engine.dynamic_call(FunctionId(0), vec![ValueHandle(1)], build(1)).unwrap();
    assert!(call.run.is_some());
    assert_eq!(engine.intern(KIND, vec![7, 1, 2], || ValueHandle(2)), ValueHandle(1));
    assert_eq!(engine.intern(KIND, vec![0, 1], || ValueHandle(3)), ValueHandle(3));
}

#[test]
fn a_scheduled_task_takes_its_five_steps_in_order_and_then_none() {
    let engine = TurboTasks::new();
    let mut run = engine.schedule(TaskHandle(3));
    assert_eq!(run.handle(), TaskHandle(3));
    assert_eq!(run.advance(), Some(Step::BindContext));
    assert_eq!(run.advance(), Some(Step::Started));
    assert_eq!(run.advance(), Some(Step::Execute));
    assert_eq!(run.advance(), Some(Step::Finalize));
    assert_eq!(run.advance(), Some(Step::Completed));
    assert_eq!(run.advance(), None);
    assert_eq!(run.advance(), None);
    assert_eq!(run.handle(), TaskHandle(3));
}

#[test]
fn the_unit_of_work_of_a_built_task_runs_its_body_once() {
    let mut engine = TurboTasks::new();
    let call = engine.dynamic_call(F, vec![A], build(1)).unwrap();
    let steps = steps_of(call);
    assert_eq!(
        steps,
        vec![Step::BindContext, Step::Started, Step::Execute, Step::Finalize, Step::Completed]
    );
    assert_eq!(steps.iter().filter(|s| **s == Step::Execute).count(), 1);
}

#[test]
fn a_new_engine_has_nothing_cached() {
    let engine = TurboTasks::new();
    assert_eq!(engine.visualize(), Vec::<CachedInvocation>::new());
}

#[test]
fn visualize_lists_every_cached_invocation_once() {
    let mut engine = TurboTasks::new();
    engine.dynamic_call(F, vec![A, B], build(1)).unwrap();
    engine.dynamic_call(F, vec![B, A], build(2)).unwrap();
    engine.dynamic_call(G, vec![], build(3)).unwrap();
    engine.dynamic_call(F, vec![A, B], build(4)).unwrap();
    assert!(engine.dynamic_call(G, vec![A], refuse("no")).is_err());

    let mut seen: Vec<(u64, Vec<u64>, u64)> = engine
        .visualize()
        .into_iter()
        .map(|r| (r.func.0, r.inputs.iter().map(|h| h.0).collect(), r.task.0))
        .collect();
    seen.sort();
    assert_eq!(seen, vec![(7, vec![1, 2], 1), (7, vec![2, 1], 2), (8, vec![], 3)]);
}

#[test]
fn visualize_is_a_copy_that_later_calls_do_not_change() {
    let mut engine = TurboTasks::new();
    engine.dynamic_call(F, vec![A], build(1)).unwrap();
    let before = engine.visualize();
    engine.dynamic_call(F, vec![B], build(2)).unwrap();
    assert_eq!(before.len(), 1);
    assert_eq!(before[0], CachedInvocation { func: F, inputs: vec![A], task: TaskHandle(1) });
    assert_eq!(engine.visualize().len(), 2);
}

#[test]
fn the_caches_grow_past_their_first_capacity() {
    let mut engine = TurboTasks::new();
    for n in 0..5000u64 {
        let call = engine.dynamic_call(FunctionId(n % 3), vec![ValueHandle(n), A], build(n)).unwrap();
        assert_eq!(call.task, TaskHandle(n));
        let key = n.to_le_bytes().to_vec();
        assert_eq!(engine.intern(KIND, key, || ValueHandle(n)), ValueHandle(n));
    }
    for n in 0..5000u64 {
        let call = engine
            .dynamic_call(FunctionId(n % 3), vec![ValueHandle(n), A], build(n + 1))
            .unwrap();
        assert_eq!(call.task, TaskHandle(n));
        assert_eq!(call.run, None);
        let key = n.to_le_bytes().to_vec();
        assert_eq!(engine.intern(KIND, key, || ValueHandle(n + 1)), ValueHandle(n));
    }
    assert_eq!(engine.visualize().len(), 5000);
}

#[test]
fn two_keys_may_hold_one_task_if_the_constructor_says_so() {
    let mut engine = TurboTasks::new();
    let one = engine.dynamic_call(F, vec![A], build(1)).unwrap();
    let other = engine.dynamic_call(F, vec![B], build(1)).unwrap();
    assert_eq!(one.task, other.task);
    assert!(other.run.is_some());
    assert_eq!(engine.visualize().len(), 2);
}

#[test]
fn a_constructor_that_cannot_run_is_accepted_where_the_task_is_cached() {
    let mut engine = TurboTasks::new();
    engine.dynamic_call(F, vec![A, B], build(1)).unwrap();
    let hit = engine
        .dynamic_call(F, vec![A, B], |_inputs: Vec<ValueHandle>, _func: FunctionId| {
            panic!("the constructor ran on a cached key")
        })
        .map_err(|e: EngineError<String>| e)
        .unwrap();
    assert_eq!(hit.task, TaskHandle(1));
    assert_eq!(hit.run, None);
    let none = dynamic_call(None, F, vec![A], |_inputs: Vec<ValueHandle>, _func: FunctionId| {
        panic!("the constructor ran without an engine")
    })
    .map_err(|e: EngineError<String>| e);
    assert_eq!(none, Err(EngineError::NoAmbientEngine));
}

#[test]
fn a_fallback_that_cannot_run_is_accepted_where_the_value_is_interned() {
    let mut engine = TurboTasks::new();
    engine.intern(KIND, b"x".to_vec(), || ValueHandle(1));
    let hit = engine.intern(KIND, b"x".to_vec(), || panic!("the fallback ran on an interned key"));
    assert_eq!(hit, ValueHandle(1));
    let through: Result<ValueHandle, EngineError<String>> =
        intern(Some(&mut engine), KIND, b"x".to_vec(), || panic!("the fallback ran on a hit"));
    assert_eq!(through, Ok(ValueHandle(1)));
    let none: Result<ValueHandle, EngineError<String>> =
        intern(None, KIND, b"x".to_vec(), || panic!("the fallback ran without an engine"));
    assert_eq!(none, Err(EngineError::NoAmbientEngine));
}
