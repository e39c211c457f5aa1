//! The abstract behaviour of an elastic array: its elements and whether they
//! are still held inline, and how each operation changes them.

use vstd::prelude::*;

verus! {

/// What an observer can know of an elastic array: its elements, in order,
/// and whether they still live in the inline block.
pub struct ElasticState<T> {
    pub items: Seq<T>,
    pub inline: bool,
}

/// One operation on an elastic array.
pub enum Op<T> {
    Push(T),
    Pop,
    InsertSlice(nat, Seq<T>),
    AppendSlice(Seq<T>),
    Clear,
}

/// The state of a freshly made array.
pub open spec fn empty_state<T>() -> ElasticState<T> {
    ElasticState { items: Seq::empty(), inline: true }
}

/// `items` with `es` placed before position `i`.
pub open spec fn spliced<T>(items: Seq<T>, i: int, es: Seq<T>) -> Seq<T> {
    items.subrange(0, i) + es + items.subrange(i, items.len() as int)
}

/// Whether `op` may be applied to `s`: an insertion point lies within the elements.
pub open spec fn op_allowed<T>(s: ElasticState<T>, op: Op<T>) -> bool {
    match op {
        Op::InsertSlice(i, _) => i <= s.items.len(),
        _ => true,
    }
}

/// The state after `op`, for an array whose inline block holds `cap` elements.
pub open spec fn step<T>(cap: nat, s: ElasticState<T>, op: Op<T>) -> ElasticState<T> {
    match op {
        Op::Push(e) => ElasticState {
            items: s.items.push(e),
            inline: s.inline && s.items.len() < cap,
        },
        Op::Pop => if s.items.len() == 0 {
            s
        } else {
            ElasticState { items: s.items.drop_last(), inline: s.inline }
        },
        Op::InsertSlice(i, es) => if es.len() == 0 {
            s
        } else {
            ElasticState {
                items: spliced(s.items, i as int, es),
                inline: s.inline && s.items.len() + es.len() <= cap,
            }
        },
        Op::AppendSlice(es) => if es.len() == 0 {
            s
        } else {
            ElasticState { items: s.items + es, inline: s.inline && s.items.len() + es.len() <= cap }
        },
        Op::Clear => empty_state(),
    }
}

/// Whether every operation of `ops` is allowed in turn, starting from `s`.
pub open spec fn run_allowed<T>(cap: nat, s: ElasticState<T>, ops: Seq<Op<T>>) -> bool
    decreases ops.len(),
{
    ops.len() == 0 || (op_allowed(s, ops[0]) && run_allowed(cap, step(cap, s, ops[0]), ops.drop_first()))
}

/// The state after applying `ops` in order, starting from `s`.
pub open spec fn run<T>(cap: nat, s: ElasticState<T>, ops: Seq<Op<T>>) -> ElasticState<T>
    decreases ops.len(),
{
    if ops.len() == 0 {
        s
    } else {
        run(cap, step(cap, s, ops[0]), ops.drop_first())
    }
}

/// Whether `ops` holds no `Clear`.
pub open spec fn without_clear<T>(ops: Seq<Op<T>>) -> bool {
    forall|k: int| 0 <= k < ops.len() ==> !(#[trigger] ops[k] is Clear)
}

/// The number of pushes in `ops`.
pub open spec fn push_count<T>(ops: Seq<Op<T>>) -> int
    decreases ops.len(),
{
    if ops.len() == 0 {
        0
    } else {
        (if ops[0] is Push { 1int } else { 0int }) + push_count(ops.drop_first())
    }
}

/// The number of elements that the slice insertions and appends of `ops` add.
pub open spec fn inserted_count<T>(ops: Seq<Op<T>>) -> int
    decreases ops.len(),
{
    if ops.len() == 0 {
        0
    } else {
        (match ops[0] {
            Op::InsertSlice(_, es) => es.len() as int,
            Op::AppendSlice(es) => es.len() as int,
            _ => 0int,
        }) + inserted_count(ops.drop_first())
    }
}

/// The number of pops in `ops` that find an element to remove, starting from `s`.
pub open spec fn removing_pop_count<T>(cap: nat, s: ElasticState<T>, ops: Seq<Op<T>>) -> int
    decreases ops.len(),
{
    if ops.len() == 0 {
        0
    } else {
        (if ops[0] is Pop && s.items.len() > 0 { 1int } else { 0int })
            + removing_pop_count(cap, step(cap, s, ops[0]), ops.drop_first())
    }
}

/// One push for each element of `items`, in order.
pub open spec fn pushes_of<T>(items: Seq<T>) -> Seq<Op<T>> {
    Seq::new(items.len(), |k: int| Op::Push(items[k]))
}

/// Length accounting: after pushes, pops and slice insertions, the number of
/// elements is the starting number, plus one for each push, minus one for each
/// pop that removed an element, plus the length of each inserted slice.
pub proof fn lemma_length_accounting<T>(cap: nat, s: ElasticState<T>, ops: Seq<Op<T>>)
    requires
        run_allowed(cap, s, ops),
        without_clear(ops),
    ensures
        run(cap, s, ops).items.len() == s.items.len() + push_count(ops)
            - removing_pop_count(cap, s, ops) + inserted_count(ops),
    decreases ops.len(),
{
    if ops.len() > 0 {
        let rest = ops.drop_first();
        assert(without_clear(rest)) by {
            assert forall|k: int| 0 <= k < rest.len() implies !(#[trigger] rest[k] is Clear) by {
                assert(rest[k] == ops[k + 1]);
            }
        }
        assert(!(ops[0] is Clear));
        lemma_length_accounting(cap, step(cap, s, ops[0]), rest);
    }
}

/// Backend transparency: the elements after any run of operations do not
/// depend on whether the array started out inline or on the heap.
pub proof fn lemma_backend_transparency<T>(
    cap: nat,
    s: ElasticState<T>,
    t: ElasticState<T>,
    ops: Seq<Op<T>>,
)
    requires
        s.items == t.items,
    ensures
        run(cap, s, ops).items == run(cap, t, ops).items,
    decreases ops.len(),
{
    if ops.len() > 0 {
        lemma_backend_transparency(cap, step(cap, s, ops[0]), step(cap, t, ops[0]), ops.drop_first());
    }
}

/// Irreversible growth: once the elements have moved to the heap, no run of
/// operations without a `Clear` brings them back inline, pops included.
pub proof fn lemma_migration_irreversible<T>(cap: nat, s: ElasticState<T>, ops: Seq<Op<T>>)
    requires
        !s.inline,
        without_clear(ops),
    ensures
        !run(cap, s, ops).inline,
    decreases ops.len(),
{
    if ops.len() > 0 {
        let rest = ops.drop_first();
        assert(without_clear(rest)) by {
            assert forall|k: int| 0 <= k < rest.len() implies !(#[trigger] rest[k] is Clear) by {
                assert(rest[k] == ops[k + 1]);
            }
        }
        assert(!(ops[0] is Clear));
        lemma_migration_irreversible(cap, step(cap, s, ops[0]), rest);
    }
}

proof fn lemma_run_pushes<T>(cap: nat, s: ElasticState<T>, items: Seq<T>)
    requires
        s.inline ==> s.items.len() <= cap,
    ensures
        run(cap, s, pushes_of(items)).items == s.items + items,
        run(cap, s, pushes_of(items)).inline == (s.inline && s.items.len() + items.len() <= cap),
    decreases items.len(),
{
    if items.len() == 0 {
        assert(s.items + items =~= s.items);
    } else {
        let ops = pushes_of(items);
        let rest = items.drop_first();
        assert(ops.drop_first() =~= pushes_of(rest));
        let next = step(cap, s, ops[0]);
        lemma_run_pushes(cap, next, rest);
        assert(next.items + rest =~= s.items + items);
    }
}

/// Round trip: pushing the elements of a sequence, one by one, onto a fresh
/// array gives back exactly that sequence.
pub proof fn lemma_rebuild_by_push<T>(cap: nat, items: Seq<T>)
    ensures
        run(cap, empty_state(), pushes_of(items)).items == items,
{
    lemma_run_pushes(cap, empty_state(), items);
    assert(Seq::<T>::empty() + items =~= items);
}

/// Clear, from any state, leaves no elements and the inline block in use, so
/// that up to `cap` pushes after it keep the elements inline.
pub proof fn lemma_clear_restores_inline<T>(cap: nat, s: ElasticState<T>, items: Seq<T>)
    requires
        items.len() <= cap,
    ensures
        step(cap, s, Op::Clear).items.len() == 0,
        step(cap, s, Op::Clear).inline,
        run(cap, step(cap, s, Op::Clear), pushes_of(items)).inline,
{
    lemma_run_pushes(cap, step(cap, s, Op::Clear), items);
}

} // verus!
