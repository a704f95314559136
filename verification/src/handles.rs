//! Identities that the engine passes around.
//!
//! The engine never looks inside a value, a function or a task: it only
//! compares them and uses them as cache keys. Each is therefore known here by
//! an opaque number, and two handles are the same exactly when their numbers
//! are.

use vstd::prelude::*;

verus! {

/// Identity of a registered function.
#[derive(Clone, Copy, Debug, PartialEq, Eq, Hash, Structural)]
pub struct FunctionId(pub u64);

/// Reference to a canonical value. Equality is identity, not structure.
#[derive(Clone, Copy, Debug, PartialEq, Eq, Hash, Structural)]
pub struct ValueHandle(pub u64);

/// Reference to one computation, root or invocation.
#[derive(Clone, Copy, Debug, PartialEq, Eq, Hash, Structural)]
pub struct TaskHandle(pub u64);

/// Tag that keeps the interning keys of different logical types apart.
#[derive(Clone, Copy, Debug, PartialEq, Eq, Hash, Structural)]
pub struct TypeTag(pub u64);

/// The numbers behind a list of value handles, in the same order.
pub open spec fn ids_of(handles: Seq<ValueHandle>) -> Seq<u64> {
    Seq::new(handles.len(), |i: int| handles[i].0)
}

/// The value handles behind a list of numbers, in the same order.
pub open spec fn handles_of(ids: Seq<u64>) -> Seq<ValueHandle> {
    Seq::new(ids.len(), |i: int| ValueHandle(ids[i]))
}

/// Copies the numbers out of a list of value handles.
pub fn handle_ids(handles: &Vec<ValueHandle>) -> (ids: Vec<u64>)
    ensures
        ids@ == ids_of(handles@),
{
    let mut ids: Vec<u64> = Vec::new();
    let mut i: usize = 0;
    while i < handles.len()
        invariant
            i <= handles.len(),
            ids@ == ids_of(handles@.take(i as int)),
        decreases handles.len() - i,
    {
        ids.push(handles[i].0);
        i = i + 1;
        assert(ids@ =~= ids_of(handles@.take(i as int)));
    }
    assert(handles@.take(i as int) =~= handles@);
    ids
}

/// Wraps a list of numbers as value handles.
pub fn handles_from(ids: &Vec<u64>) -> (handles: Vec<ValueHandle>)
    ensures
        handles@ == handles_of(ids@),
        ids_of(handles@) == ids@,
{
    let mut handles: Vec<ValueHandle> = Vec::new();
    let mut i: usize = 0;
    while i < ids.len()
        invariant
            i <= ids.len(),
            handles@ == handles_of(ids@.take(i as int)),
        decreases ids.len() - i,
    {
        handles.push(ValueHandle(ids[i]));
        i = i + 1;
        assert(handles@ =~= handles_of(ids@.take(i as int)));
    }
    assert(ids@.take(i as int) =~= ids@);
    assert(ids_of(handles@) =~= ids@);
    handles
}

/// Two lists of handles have the same numbers only if they are the same list.
pub proof fn lemma_ids_of_is_injective(a: Seq<ValueHandle>, b: Seq<ValueHandle>)
    requires
        ids_of(a) == ids_of(b),
    ensures
        a == b,
{
    assert(a.len() == ids_of(a).len());
    assert(b.len() == ids_of(b).len());
    assert forall|i: int| 0 <= i < a.len() implies a[i] == b[i] by {
        assert(ids_of(a)[i] == a[i].0);
        assert(ids_of(b)[i] == b[i].0);
    }
    assert(a =~= b);
}

} // verus!
