//! The elastic array: elements live in an inline block of `N` slots until an
//! operation needs more, and from then on in a heap vector.

use vstd::prelude::*;

use crate::model::{empty_state, spliced, step, ElasticState, Op};

verus! {

/// Where the elements of an elastic array live.
enum Storage<T, const N: usize> {
    /// The inline block; only its first `len` slots hold elements.
    Inline([T; N]),
    /// A heap vector holding exactly the elements.
    Heap(Vec<T>),
}

/// A growable sequence that holds up to `N` elements without allocating.
pub struct ElasticArray<T, const N: usize> {
    raw: Storage<T, N>,
    len: usize,
}

/// Whether `raw` and `len` agree: an inline block has room for `len`
/// elements, a heap vector holds exactly `len`.
spec fn parts_wf<T, const N: usize>(raw: Storage<T, N>, len: usize) -> bool {
    match raw {
        Storage::Inline(_) => len <= N,
        Storage::Heap(v) => v@.len() == len,
    }
}

/// The elements that `raw` and `len` stand for. Slots of the inline block at
/// or past `len` are not elements, whatever they hold.
spec fn parts_view<T, const N: usize>(raw: Storage<T, N>, len: usize) -> Seq<T> {
    match raw {
        Storage::Inline(a) => a@.subrange(0, len as int),
        Storage::Heap(v) => v@,
    }
}

impl<T, const N: usize> View for ElasticArray<T, N> {
    type V = Seq<T>;

    closed spec fn view(&self) -> Seq<T> {
        parts_view(self.raw, self.len)
    }
}

impl<T, const N: usize> ElasticArray<T, N> {
    #[verifier::type_invariant]
    spec fn well_formed(self) -> bool {
        parts_wf(self.raw, self.len)
    }

    /// Whether the elements still live in the inline block.
    pub closed spec fn spec_is_inline(&self) -> bool {
        self.raw is Inline
    }

    /// The elements together with where they live.
    pub open spec fn state(&self) -> ElasticState<T> {
        ElasticState { items: self@, inline: self.spec_is_inline() }
    }
}

/// Writes `e` into slot `i` of an inline block.
fn write_slot<T, const N: usize>(raw: &mut Storage<T, N>, i: usize, e: T)
    requires
        *old(raw) is Inline,
        i < N,
    ensures
        match (*old(raw), *final(raw)) {
            (Storage::Inline(a), Storage::Inline(b)) => b@ == a@.update(i as int, e),
            _ => false,
        },
    no_unwind
{
    match raw {
        Storage::Inline(a) => {
            a[i] = e;
        },
        Storage::Heap(_) => {},
    }
}

/// Moves `s[at .. at + count]` right by `shift` places. It copies from the
/// last element back to the first, so a destination that overlaps the source
/// never overwrites an element before it is read.
fn move_right<T: Copy>(s: &mut [T], at: usize, count: usize, shift: usize)
    requires
        at + count + shift <= old(s)@.len(),
    ensures
        final(s)@.len() == old(s)@.len(),
        forall|i: int| 0 <= i < at + shift ==> final(s)@[i] == old(s)@[i],
        forall|i: int| at + shift <= i < at + shift + count ==> final(s)@[i] == old(s)@[i - shift],
        forall|i: int| at + shift + count <= i < old(s)@.len() ==> final(s)@[i] == old(s)@[i],
{
    let ghost orig = s@;
    let n = s.len();
    let mut k: usize = count;
    while k > 0
        invariant
            k <= count,
            n == orig.len(),
            at + count + shift <= orig.len(),
            s@.len() == orig.len(),
            forall|i: int| 0 <= i < at + shift + k ==> s@[i] == orig[i],
            forall|i: int| at + shift + k <= i < at + shift + count ==> s@[i] == orig[i - shift],
            forall|i: int| at + shift + count <= i < orig.len() ==> s@[i] == orig[i],
        decreases k,
    {
        k = k - 1;
        let x = s[at + k];
        s[at + shift + k] = x;
    }
}

/// Writes `src` into `s` from position `at` on.
fn copy_into<T: Copy>(s: &mut [T], at: usize, src: &[T])
    requires
        at + src@.len() <= old(s)@.len(),
    ensures
        final(s)@.len() == old(s)@.len(),
        forall|i: int| 0 <= i < at ==> final(s)@[i] == old(s)@[i],
        forall|i: int| at <= i < at + src@.len() ==> final(s)@[i] == src@[i - at],
        forall|i: int| at + src@.len() <= i < old(s)@.len() ==> final(s)@[i] == old(s)@[i],
{
    let ghost orig = s@;
    let n = s.len();
    let mut j: usize = 0;
    while j < src.len()
        invariant
            j <= src@.len(),
            n == orig.len(),
            at + src@.len() <= orig.len(),
            s@.len() == orig.len(),
            forall|i: int| 0 <= i < at ==> s@[i] == orig[i],
            forall|i: int| at <= i < at + j ==> s@[i] == src@[i - at],
            forall|i: int| at + j <= i < orig.len() ==> s@[i] == orig[i],
        decreases src@.len() - j,
    {
        s[at + j] = src[j];
        j = j + 1;
    }
}

/// Appends `src[lo .. hi]` to `v`.
fn push_range<T: Copy>(v: &mut Vec<T>, src: &[T], lo: usize, hi: usize)
    requires
        lo <= hi <= src@.len(),
    ensures
        final(v)@ == old(v)@ + src@.subrange(lo as int, hi as int),
{
    let ghost start = v@;
    let mut j: usize = lo;
    while j < hi
        invariant
            lo <= j <= hi <= src@.len(),
            v@ == start + src@.subrange(lo as int, j as int),
        decreases hi - j,
    {
        v.push(src[j]);
        j = j + 1;
        assert(v@ =~= start + src@.subrange(lo as int, j as int));
    }
}

impl<T: Copy, const N: usize> ElasticArray<T, N> {
    /// Moves the parts out, leaving an empty heap-backed array behind.
    fn take_parts(&mut self) -> (r: (Storage<T, N>, usize))
        ensures
            parts_wf(r.0, r.1),
            parts_view(r.0, r.1) == old(self)@,
            (r.0 is Inline) == old(self).spec_is_inline(),
    {
        let mut other = ElasticArray { raw: Storage::Heap(Vec::new()), len: 0 };
        std::mem::swap(self, &mut other);
        proof {
            use_type_invariant(&other);
        }
        let ElasticArray { raw, len } = other;
        (raw, len)
    }

    /// The number of elements.
    pub fn len(&self) -> (r: usize)
        ensures
            r == self@.len(),
    {
        proof {
            use_type_invariant(self);
        }
        self.len
    }

    /// Whether there are no elements.
    pub fn is_empty(&self) -> (r: bool)
        ensures
            r == (self@.len() == 0),
    {
        self.len() == 0
    }

    /// Whether the elements still live in the inline block.
    pub fn is_inline(&self) -> (r: bool)
        ensures
            r == self.spec_is_inline(),
    {
        match &self.raw {
            Storage::Inline(_) => true,
            Storage::Heap(_) => false,
        }
    }

    /// The elements, as one contiguous slice.
    pub fn as_slice(&self) -> (r: &[T])
        ensures
            r@ == self@,
    {
        proof {
            use_type_invariant(self);
        }
        match &self.raw {
            Storage::Inline(a) => a.as_slice().split_at(self.len).0,
            Storage::Heap(v) => v.as_slice(),
        }
    }

    /// Replaces the element at `index` with `value`, in whichever backend
    /// holds the elements.
    pub fn set(&mut self, index: usize, value: T)
        requires
            index < old(self)@.len(),
        ensures
            final(self)@ == old(self)@.update(index as int, value),
            final(self).spec_is_inline() == old(self).spec_is_inline(),
    {
        proof {
            use_type_invariant(&*self);
        }
        if self.is_inline() {
            write_slot(&mut self.raw, index, value);
        } else {
            let (raw, len) = self.take_parts();
            match raw {
                Storage::Heap(v) => {
                    let mut v = v;
                    v.set(index, value);
                    *self = ElasticArray { raw: Storage::Heap(v), len };
                },
                Storage::Inline(a) => {
                    *self = ElasticArray { raw: Storage::Inline(a), len };
                },
            }
        }
        assert(self@ =~= old(self)@.update(index as int, value));
    }

    /// Appends `e`. A full inline block first moves its elements to the heap.
    pub fn push(&mut self, e: T)
        requires
            old(self)@.len() < usize::MAX,
        ensures
            final(self)@ == old(self)@.push(e),
            final(self).spec_is_inline() == (old(self).spec_is_inline() && old(self)@.len() < N),
            final(self).state() == step(N as nat, old(self).state(), Op::Push(e)),
    {
        proof {
            use_type_invariant(&*self);
        }
        let len = self.len;
        if len < N && self.is_inline() {
            // The slot at `len` holds no element: it is written, never read.
            write_slot(&mut self.raw, len, e);
            self.len = len + 1;
            assert(self@ =~= old(self)@.push(e));
            return;
        }
        let (raw, len) = self.take_parts();
        match raw {
            Storage::Inline(a) => {
                let mut v: Vec<T> = Vec::with_capacity(len + 1);
                push_range(&mut v, a.as_slice(), 0, len);
                v.push(e);
                *self = ElasticArray { raw: Storage::Heap(v), len: len + 1 };
            },
            Storage::Heap(v) => {
                let mut v = v;
                v.push(e);
                *self = ElasticArray { raw: Storage::Heap(v), len: len + 1 };
            },
        }
        assert(self@ =~= old(self)@.push(e));
    }

    /// Removes the last element and returns it, or `None` when there is none.
    /// A heap-backed array stays on the heap.
    pub fn pop(&mut self) -> (r: Option<T>)
        ensures
            old(self)@.len() == 0 ==> r is None && final(self)@ == old(self)@,
            old(self)@.len() > 0 ==> r == Some(old(self)@.last()) && final(self)@
                == old(self)@.drop_last(),
            final(self).spec_is_inline() == old(self).spec_is_inline(),
            final(self).state() == step(N as nat, old(self).state(), Op::Pop),
    {
        proof {
            use_type_invariant(&*self);
        }
        if self.len == 0 {
            return None;
        }
        let last = self.len - 1;
        let from_block: Option<T> = match &self.raw {
            Storage::Inline(a) => Some(a[last]),
            Storage::Heap(_) => None,
        };
        match from_block {
            Some(x) => {
                // The vacated slot is left as it is; it lies past the length
                // and is never read again before it is overwritten.
                self.len = last;
                assert(self@ =~= old(self)@.drop_last());
                Some(x)
            },
            None => {
                let (raw, len) = self.take_parts();
                match raw {
                    Storage::Heap(v) => {
                        let mut v = v;
                        let r = v.pop();
                        *self = ElasticArray { raw: Storage::Heap(v), len: last };
                        assert(self@ =~= old(self)@.drop_last());
                        r
                    },
                    Storage::Inline(a) => {
                        *self = ElasticArray { raw: Storage::Inline(a), len };
                        None
                    },
                }
            },
        }
    }

    /// Inserts `elements` before position `index`, moving the later elements
    /// right. An inline block that cannot hold the result is left for a heap
    /// vector, built in one pass from the front, the new elements and the back.
    pub fn insert_slice(&mut self, index: usize, elements: &[T])
        requires
            index <= old(self)@.len(),
            old(self)@.len() + elements@.len() <= usize::MAX,
        ensures
            final(self)@ == spliced(old(self)@, index as int, elements@),
            final(self)@.len() == old(self)@.len() + elements@.len(),
            final(self).spec_is_inline() == (old(self).spec_is_inline() && (elements@.len() == 0
                || old(self)@.len() + elements@.len() <= N)),
            final(self).state() == step(
                N as nat,
                old(self).state(),
                Op::InsertSlice(index as nat, elements@),
            ),
    {
        let elen = elements.len();
        if elen == 0 {
            assert(spliced(old(self)@, index as int, elements@) =~= old(self)@);
            return;
        }
        let (raw, len) = self.take_parts();
        let ghost front = old(self)@.subrange(0, index as int);
        let ghost back = old(self)@.subrange(index as int, len as int);
        match raw {
            Storage::Inline(a) => {
                if len + elen <= N {
                    let mut a = a;
                    move_right(&mut a, index, len - index, elen);
                    copy_into(&mut a, index, elements);
                    *self = ElasticArray { raw: Storage::Inline(a), len: len + elen };
                } else {
                    let mut v: Vec<T> = Vec::with_capacity(len + elen);
                    push_range(&mut v, a.as_slice(), 0, index);
                    push_range(&mut v, elements, 0, elen);
                    push_range(&mut v, a.as_slice(), index, len);
                    assert(a@.subrange(0, index as int) =~= front);
                    assert(a@.subrange(index as int, len as int) =~= back);
                    assert(elements@.subrange(0, elen as int) =~= elements@);
                    *self = ElasticArray { raw: Storage::Heap(v), len: len + elen };
                }
            },
            Storage::Heap(v) => {
                let mut v = v;
                v.reserve(elen);
                // Grow by `elen`; the grown tail is overwritten below.
                push_range(&mut v, elements, 0, elen);
                move_right(v.as_mut_slice(), index, len - index, elen);
                copy_into(v.as_mut_slice(), index, elements);
                *self = ElasticArray { raw: Storage::Heap(v), len: len + elen };
            },
        }
        assert(self@ =~= spliced(old(self)@, index as int, elements@));
    }

    /// Appends `elements` at the end.
    pub fn append_slice(&mut self, elements: &[T])
        requires
            old(self)@.len() + elements@.len() <= usize::MAX,
        ensures
            final(self)@ == old(self)@ + elements@,
            final(self).spec_is_inline() == (old(self).spec_is_inline() && (elements@.len() == 0
                || old(self)@.len() + elements@.len() <= N)),
            final(self).state() == step(N as nat, old(self).state(), Op::AppendSlice(elements@)),
    {
        let len = self.len();
        self.insert_slice(len, elements);
        assert(spliced(old(self)@, len as int, elements@) =~= old(self)@ + elements@);
    }

    /// The elements, as a vector of their own.
    pub fn to_vec(self) -> (r: Vec<T>)
        ensures
            r@ == self@,
    {
        proof {
            use_type_invariant(&self);
        }
        let ElasticArray { raw, len } = self;
        match raw {
            Storage::Inline(a) => {
                let mut v: Vec<T> = Vec::with_capacity(len);
                push_range(&mut v, a.as_slice(), 0, len);
                assert(v@ =~= a@.subrange(0, len as int));
                v
            },
            Storage::Heap(v) => v,
        }
    }
}

impl<T: Copy + Default, const N: usize> ElasticArray<T, N> {
    /// An empty array with its inline block in use. The block is filled once
    /// with `T::default()`, so no slot ever holds an undefined value.
    pub fn new() -> (r: Self)
        ensures
            r@.len() == 0,
            r.spec_is_inline(),
            r.state() == empty_state::<T>(),
    {
        let fill = T::default();
        let r = ElasticArray { raw: Storage::Inline([fill; N]), len: 0 };
        assert(r@ =~= Seq::<T>::empty());
        r
    }

    /// Removes every element and returns to an empty inline block, releasing
    /// any heap vector.
    pub fn clear(&mut self)
        ensures
            final(self)@.len() == 0,
            final(self).spec_is_inline(),
            final(self).state() == step(N as nat, old(self).state(), Op::Clear),
    {
        *self = Self::new();
    }
}

impl<T: Copy, const N: usize> core::ops::Deref for ElasticArray<T, N> {
    type Target = [T];

    fn deref(&self) -> (r: &[T])
        ensures
            r@ == self@,
    {
        self.as_slice()
    }
}

/// An elastic array with an inline block of 2 elements.
pub type ElasticArray2<T> = ElasticArray<T, 2>;

/// An elastic array with an inline block of 4 elements.
pub type ElasticArray4<T> = ElasticArray<T, 4>;

/// An elastic array with an inline block of 8 elements.
pub type ElasticArray8<T> = ElasticArray<T, 8>;

/// An elastic array with an inline block of 16 elements.
pub type ElasticArray16<T> = ElasticArray<T, 16>;

/// An elastic array with an inline block of 32 elements.
pub type ElasticArray32<T> = ElasticArray<T, 32>;

/// An elastic array with an inline block of 64 elements.
pub type ElasticArray64<T> = ElasticArray<T, 64>;

/// An elastic array with an inline block of 128 elements.
pub type ElasticArray128<T> = ElasticArray<T, 128>;

/// An elastic array with an inline block of 256 elements.
pub type ElasticArray256<T> = ElasticArray<T, 256>;

/// An elastic array with an inline block of 512 elements.
pub type ElasticArray512<T> = ElasticArray<T, 512>;

/// An elastic array with an inline block of 1024 elements.
pub type ElasticArray1024<T> = ElasticArray<T, 1024>;

/// An elastic array with an inline block of 2048 elements.
pub type ElasticArray2048<T> = ElasticArray<T, 2048>;

} // verus!
