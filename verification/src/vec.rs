//! Traversal of a slice in vectors of four lanes.
//!
//! A slice is cut into chunks of [`LANES`] elements; the last chunk may be
//! short, and is then padded for reading and cut back for writing. Element
//! types are left open: the traversal only moves values.

use vstd::prelude::*;
use vstd::slice::slice_subrange;

verus! {

/// Lanes of a vector.
pub const LANES: usize = 4;

/// The lanes read from `data` at `index`: the elements from there on, padded
/// with `zero` past the end.
pub open spec fn lanes_at<S>(data: Seq<S>, index: int, zero: S) -> Seq<S> {
    Seq::new(
        LANES as nat,
        |lane: int|
            if index + lane < data.len() {
                data[index + lane]
            } else {
                zero
            },
    )
}

/// The elements of `after` from `index` on are the lanes of `out`, as far as
/// `after` reaches.
pub open spec fn stored<S>(after: Seq<S>, index: int, out: Seq<S>) -> bool {
    forall|lane: int|
        0 <= lane < LANES && index + lane < after.len() ==> after[index + lane] == out[lane]
}

/// Where a traversal stands after the chunk at `index`: four elements on, or
/// at the end of the data if that comes first.
pub open spec fn advanced(index: int, len: int) -> int {
    if len - index <= LANES {
        len
    } else {
        index + LANES
    }
}

/// The lanes of `slice` from its start, padded with `zero`.
pub fn take_vector<S: Copy>(slice: &[S], zero: S) -> (vector: [S; 4])
    ensures
        vector@ == lanes_at(slice@, 0, zero),
{
    let first: S = if slice.len() > 0 { slice[0] } else { zero };
    let second: S = if slice.len() > 1 { slice[1] } else { zero };
    let third: S = if slice.len() > 2 { slice[2] } else { zero };
    let fourth: S = if slice.len() > 3 { slice[3] } else { zero };
    let vector: [S; 4] = [first, second, third, fourth];
    assert(vector@ =~= lanes_at(slice@, 0, zero));
    vector
}

/// A reading traversal of a slice, chunk by chunk.
pub struct Vectorized<'a, S> {
    /// The slice that is read.
    pub data: &'a [S],
    /// Where the next chunk begins.
    pub index: usize,
    /// What pads a short chunk.
    pub zero: S,
}

/// A traversal that may write each chunk back.
pub struct VectorizedMut<'a, S> {
    /// The slice that is read and written.
    pub data: &'a mut [S],
    /// Where the next chunk begins.
    pub index: usize,
    /// What pads a short chunk.
    pub zero: S,
}

/// One chunk taken out of a [`VectorizedMut`]: its lanes, free to be
/// changed, and the place they go back to.
pub struct MutProxy<S> {
    /// The lanes of the chunk.
    pub data: [S; 4],
    /// Where the chunk begins in the slice.
    pub offset: usize,
    /// How many lanes lie within the slice.
    pub len: usize,
}

/// Begins to read `data` in chunks.
pub fn vectorize<'a, S>(data: &'a [S], zero: S) -> (v: Vectorized<'a, S>)
    ensures
        v.data@ == data@,
        v.index == 0,
        v.zero == zero,
{
    Vectorized { data, index: 0, zero }
}

/// Begins to read and write `data` in chunks.
pub fn vectorize_mut<'a, S>(data: &'a mut [S], zero: S) -> (v: VectorizedMut<'a, S>)
    ensures
        v.data@ == old(data)@,
        v.index == 0,
        v.zero == zero,
        final(data)@ == final(v.data)@,
{
    VectorizedMut { data, index: 0, zero }
}

impl<'a, S: Copy> Vectorized<'a, S> {
    /// The next chunk, padded if it is short; `None` once the slice is used
    /// up.
    pub fn next(&mut self) -> (item: Option<[S; 4]>)
        ensures
            final(self).data@ == old(self).data@,
            final(self).zero == old(self).zero,
            old(self).index >= old(self).data@.len() ==> item is None && final(self).index == old(
                self,
            ).index,
            old(self).index < old(self).data@.len() ==> item is Some && item->0@ == lanes_at(
                old(self).data@,
                old(self).index as int,
                old(self).zero,
            ) && final(self).index == advanced(old(self).index as int, old(self).data@.len() as int),
    {
        let len: usize = self.data.len();
        if self.index >= len {
            return None;
        }
        let rest: &[S] = slice_subrange(self.data, self.index, len);
        let vector: [S; 4] = take_vector(rest, self.zero);
        assert(vector@ =~= lanes_at(self.data@, self.index as int, self.zero));
        self.index = if len - self.index <= LANES { len } else { self.index + LANES };
        Some(vector)
    }
}

impl<'a, S: Copy> VectorizedMut<'a, S> {
    /// The next chunk, padded if it is short, with the place it came from;
    /// `None` once the slice is used up. The slice itself is not changed.
    pub fn next(&mut self) -> (item: Option<MutProxy<S>>)
        ensures
            final(self).data@ == old(self).data@,
            final(self).zero == old(self).zero,
            final(final(self).data)@ == final(old(self).data)@,
            old(self).index >= old(self).data@.len() ==> item is None && final(self).index == old(
                self,
            ).index,
            old(self).index < old(self).data@.len() ==> item is Some && item->0.data@ == lanes_at(
                old(self).data@,
                old(self).index as int,
                old(self).zero,
            ) && item->0.offset == old(self).index && item->0.offset + item->0.len == advanced(
                old(self).index as int,
                old(self).data@.len() as int,
            ) && final(self).index == advanced(old(self).index as int, old(self).data@.len() as int),
    {
        let len: usize = self.data.len();
        if self.index >= len {
            return None;
        }
        let offset: usize = self.index;
        let rest: &[S] = slice_subrange(self.data, offset, len);
        let vector: [S; 4] = take_vector(rest, self.zero);
        assert(vector@ =~= lanes_at(self.data@, offset as int, self.zero));
        let live: usize = if len - offset <= LANES { len - offset } else { LANES };
        self.index = offset + live;
        Some(MutProxy { data: vector, offset, len: live })
    }

    /// Writes the lanes of a chunk back to where they came from; lanes past
    /// the end of the slice are dropped.
    pub fn store(&mut self, proxy: MutProxy<S>)
        requires
            proxy.len <= LANES,
            proxy.offset + proxy.len <= old(self).data@.len(),
        ensures
            final(self).index == old(self).index,
            final(self).zero == old(self).zero,
            final(final(self).data)@ == final(old(self).data)@,
            final(self).data@.len() == old(self).data@.len(),
            forall|i: int|
                0 <= i < old(self).data@.len() ==> final(self).data@[i] == (if proxy.offset <= i
                    < proxy.offset + proxy.len {
                    proxy.data@[i - proxy.offset]
                } else {
                    old(self).data@[i]
                }),
    {
        let end: usize = self.data.len();
        let mut lane: usize = 0;
        while lane < proxy.len
            invariant
                lane <= proxy.len <= LANES,
                proxy.offset + proxy.len <= end,
                end == self.data@.len(),
                self.index == old(self).index,
                self.zero == old(self).zero,
                final(self.data)@ == final(old(self).data)@,
                self.data@.len() == old(self).data@.len(),
                forall|i: int|
                    0 <= i < old(self).data@.len() ==> self.data@[i] == (if proxy.offset <= i
                        < proxy.offset + lane {
                        proxy.data@[i - proxy.offset]
                    } else {
                        old(self).data@[i]
                    }),
            decreases proxy.len - lane,
        {
            self.data[proxy.offset + lane] = proxy.data[lane];
            lane += 1;
        }
    }
}

/// An operation that rewrites a slice chunk by chunk: `run` hands each chunk
/// (with the matching chunks of any companions) to `f` and writes the result
/// back.
pub trait Operator<T, R>: Sized {
    fn run<F: FnMut(T) -> R>(self, f: F)
        requires
            forall|input: T| call_requires(f, (input,)),
    ;
}

/// The chunk of `after` at `index` is what `f` made of the chunk of `before`
/// there.
pub open spec fn mapped<S, F: FnMut([S; 4]) -> [S; 4]>(
    f: F,
    before: Seq<S>,
    zero: S,
    after: Seq<S>,
    index: int,
) -> bool {
    exists|given: [S; 4], out: [S; 4]|
        given@ == lanes_at(before, index, zero) && call_ensures(f, (given,), out) && stored(
            after,
            index,
            out@,
        )
}

/// `index` begins a chunk of a traversal that began at `origin`.
pub open spec fn chunk_start(origin: int, index: int) -> bool {
    origin <= index && (index - origin) % (LANES as int) == 0
}

impl<'a, S: Copy> Operator<[S; 4], [S; 4]> for VectorizedMut<'a, S> {
    /// Replaces every chunk from the traversal's place on by what `f` makes
    /// of it; what lies before that place stays.
    fn run<F: FnMut([S; 4]) -> [S; 4]>(self, f: F)
        ensures
            final(self.data)@.len() == old(self.data)@.len(),
            forall|i: int|
                0 <= i < self.index && i < old(self.data)@.len() ==> final(self.data)@[i] == old(
                    self.data,
                )@[i],
            forall|start: int|
                chunk_start(self.index as int, start) && start < old(self.data)@.len() ==> mapped(
                    f,
                    old(self.data)@,
                    self.zero,
                    final(self.data)@,
                    start,
                ),
    {
        let mut call = f;
        let mut me = self;
        let ghost before = me.data@;
        let ghost origin = me.index as int;
        let ghost zero = me.zero;
        loop
            invariant
                final(me.data)@ == final(self.data)@,
                me.zero == zero,
                me.data@.len() == before.len(),
                0 <= origin <= me.index,
                chunk_start(origin, me.index as int) || me.index >= before.len(),
                call == f,
                forall|input: [S; 4]| call_requires(f, (input,)),
                forall|i: int|
                    0 <= i < before.len() && (i < origin || i >= me.index) ==> me.data@[i]
                        == before[i],
                forall|start: int|
                    chunk_start(origin, start) && start < me.index && start < before.len()
                        ==> mapped(f, before, zero, me.data@, start),
            ensures
                final(me.data)@ == final(self.data)@,
                me.data@.len() == before.len(),
                forall|i: int| 0 <= i < origin && i < before.len() ==> me.data@[i] == before[i],
                forall|start: int|
                    chunk_start(origin, start) && start < before.len() ==> mapped(
                        f,
                        before,
                        zero,
                        me.data@,
                        start,
                    ),
            decreases before.len() - me.index,
        {
            let ghost current = me.data@;
            let ghost place = me.index as int;
            match me.next() {
                None => {
                    break ;
                },
                Some(proxy) => {
                    let given: [S; 4] = proxy.data;
                    let out: [S; 4] = call(given);
                    me.store(MutProxy { data: out, offset: proxy.offset, len: proxy.len });
                    proof {
                        assert(given@ =~= lanes_at(before, place, zero));
                        assert(stored(me.data@, place, out@));
                        assert forall|start: int|
                            chunk_start(origin, start) && start < me.index && start < before.len()
                            implies mapped(f, before, zero, me.data@, start) by {
                            if start < place {
                                assert(mapped(f, before, zero, current, start));
                                let (g, o) = choose|g: [S; 4], o: [S; 4]|
                                    g@ == lanes_at(before, start, zero) && call_ensures(f, (g,), o)
                                        && stored(current, start, o@);
                                assert(start + LANES <= place);
                                assert forall|lane: int|
                                    0 <= lane < LANES && start + lane < me.data@.len()
                                    implies me.data@[start + lane] == o@[lane] by {
                                    assert(current[start + lane] == o@[lane]);
                                }
                                assert(stored(me.data@, start, o@));
                            } else {
                                assert(start == place);
                            }
                        }
                    }
                },
            }
        }
    }
}

/// The chunk of `after` at `index` is what `f` made of the chunk of `before`
/// there and the chunk of `with` at `beside`.
pub open spec fn mapped_with<S, F: FnMut(([S; 4], [S; 4])) -> [S; 4]>(
    f: F,
    before: Seq<S>,
    zero: S,
    with: Seq<S>,
    with_zero: S,
    after: Seq<S>,
    index: int,
    beside: int,
) -> bool {
    exists|given: [S; 4], other: [S; 4], out: [S; 4]|
        given@ == lanes_at(before, index, zero) && other@ == lanes_at(with, beside, with_zero)
            && call_ensures(f, ((given, other),), out) && stored(after, index, out@)
}

/// Where the chunk that holds position `i` begins in a companion: as far
/// from the companion's origin as the chunk is from its own.
pub open spec fn beside(origin: int, i: int, companion: int) -> int {
    companion + (i - origin) - (i - origin) % (LANES as int)
}

impl<'a, 'b, S: Copy> Operator<([S; 4], [S; 4]), [S; 4]> for (
    VectorizedMut<'a, S>,
    Vectorized<'b, S>,
) {
    /// Replaces every chunk of the first traversal that has a chunk of the
    /// second beside it by what `f` makes of the two; the first traversal's
    /// other elements stay.
    fn run<F: FnMut(([S; 4], [S; 4])) -> [S; 4]>(self, f: F)
        ensures
            final(self.0.data)@.len() == old(self.0.data)@.len(),
            forall|i: int|
                0 <= i < old(self.0.data)@.len() && (i < self.0.index || beside(
                    self.0.index as int,
                    i,
                    self.1.index as int,
                ) >= self.1.data@.len()) ==> final(self.0.data)@[i] == old(self.0.data)@[i],
            forall|start: int|
                chunk_start(self.0.index as int, start) && start < old(self.0.data)@.len()
                    && beside(self.0.index as int, start, self.1.index as int)
                    < self.1.data@.len() ==> mapped_with(
                    f,
                    old(self.0.data)@,
                    self.0.zero,
                    self.1.data@,
                    self.1.zero,
                    final(self.0.data)@,
                    start,
                    beside(self.0.index as int, start, self.1.index as int),
                ),
    {
        let mut call = f;
        let (mut me, mut it) = self;
        let ghost before = me.data@;
        let ghost origin = me.index as int;
        let ghost zero = me.zero;
        let ghost with = it.data@;
        let ghost companion = it.index as int;
        let ghost with_zero = it.zero;
        let ghost mut done: int = 0;
        loop
            invariant_except_break
                origin + LANES * done < before.len() ==> me.index == origin + LANES * done,
                origin + LANES * done >= before.len() ==> me.index >= before.len(),
                companion + LANES * done < with.len() ==> it.index == companion + LANES * done,
                companion + LANES * done >= with.len() ==> it.index >= with.len(),
            invariant
                final(me.data)@ == final(self.0.data)@,
                me.zero == zero,
                it.zero == with_zero,
                it.data@ == with,
                me.data@.len() == before.len(),
                0 <= origin,
                0 <= companion,
                0 <= done,
                done > 0 ==> origin + LANES * (done - 1) < before.len() && companion + LANES * (
                    done - 1) < with.len(),
                call == f,
                forall|input: ([S; 4], [S; 4])| call_requires(f, (input,)),
                forall|i: int|
                    0 <= i < before.len() && (i < origin || i >= origin + LANES * done)
                        ==> me.data@[i] == before[i],
                forall|start: int|
                    chunk_start(origin, start) && start < origin + LANES * done ==> mapped_with(
                        f,
                        before,
                        zero,
                        with,
                        with_zero,
                        me.data@,
                        start,
                        beside(origin, start, companion),
                    ),
            ensures
                final(me.data)@ == final(self.0.data)@,
                me.data@.len() == before.len(),
                0 <= done,
                origin + LANES * done >= before.len() || companion + LANES * done >= with.len(),
                forall|i: int|
                    0 <= i < before.len() && (i < origin || i >= origin + LANES * done)
                        ==> me.data@[i] == before[i],
                forall|start: int|
                    chunk_start(origin, start) && start < origin + LANES * done ==> mapped_with(
                        f,
                        before,
                        zero,
                        with,
                        with_zero,
                        me.data@,
                        start,
                        beside(origin, start, companion),
                    ),
            decreases
                    (if origin + LANES * done < before.len() {
                        before.len() - origin - LANES * done
                    } else {
                        0
                    }),
        {
            let ghost current = me.data@;
            let ghost place = origin + LANES * done;
            match me.next() {
                None => {
                    break ;
                },
                Some(proxy) => {
                    match it.next() {
                        None => {
                            break ;
                        },
                        Some(other) => {
                            let given: [S; 4] = proxy.data;
                            let out: [S; 4] = call((given, other));
                            me.store(MutProxy { data: out, offset: proxy.offset, len: proxy.len });
                            proof {
                                assert(given@ =~= lanes_at(before, place, zero));
                                assert(beside(origin, place, companion) == companion + LANES
                                    * done);
                                assert(stored(me.data@, place, out@));
                                assert forall|start: int|
                                    chunk_start(origin, start) && start < place
                                        + LANES implies mapped_with(
                                    f,
                                    before,
                                    zero,
                                    with,
                                    with_zero,
                                    me.data@,
                                    start,
                                    beside(origin, start, companion),
                                ) by {
                                    if start < place {
                                        let at = beside(origin, start, companion);
                                        assert(mapped_with(
                                            f,
                                            before,
                                            zero,
                                            with,
                                            with_zero,
                                            current,
                                            start,
                                            at,
                                        ));
                                        let (g, w, o) = choose|g: [S; 4], w: [S; 4], o: [S; 4]|
                                            g@ == lanes_at(before, start, zero) && w@ == lanes_at(
                                                with,
                                                at,
                                                with_zero,
                                            ) && call_ensures(f, ((g, w),), o) && stored(
                                                current,
                                                start,
                                                o@,
                                            );
                                        assert(start + LANES <= place);
                                        assert forall|lane: int|
                                            0 <= lane < LANES && start + lane
                                                < me.data@.len() implies me.data@[start + lane]
                                            == o@[lane] by {
                                            assert(current[start + lane] == o@[lane]);
                                        }
                                        assert(stored(me.data@, start, o@));
                                    } else {
                                        assert(start == place);
                                    }
                                }
                                done = done + 1;
                            }
                        },
                    }
                },
            }
        }
        proof {
            let after = me.data@;
            assert forall|i: int|
                0 <= i < before.len() && (i < origin || beside(origin, i, companion)
                    >= with.len()) implies after[i] == before[i] by {
                if i >= origin && i < origin + LANES * done {
                    assert(beside(origin, i, companion) <= companion + LANES * (done - 1));
                }
            }
            assert forall|start: int|
                chunk_start(origin, start) && start < before.len() && beside(
                    origin,
                    start,
                    companion,
                ) < with.len() implies start < origin + LANES * done by {
                assert(beside(origin, start, companion) == companion + start - origin);
            }
        }
    }
}

/// The chunk of `after` at `index` is what `f` made of the chunk of `before`
/// there, the chunk of `with` at `beside` and the chunk of `also` at `along`.
pub open spec fn mapped_with_two<S, F: FnMut(([S; 4], [S; 4], [S; 4])) -> [S; 4]>(
    f: F,
    before: Seq<S>,
    zero: S,
    with: Seq<S>,
    with_zero: S,
    also: Seq<S>,
    also_zero: S,
    after: Seq<S>,
    index: int,
    beside: int,
    along: int,
) -> bool {
    exists|given: [S; 4], other: [S; 4], third: [S; 4], out: [S; 4]|
        given@ == lanes_at(before, index, zero) && other@ == lanes_at(with, beside, with_zero)
            && third@ == lanes_at(also, along, also_zero) && call_ensures(
            f,
            ((given, other, third),),
            out,
        ) && stored(after, index, out@)
}

impl<'a, 'b, 'c, S: Copy> Operator<([S; 4], [S; 4], [S; 4]), [S; 4]> for (
    VectorizedMut<'a, S>,
    Vectorized<'b, S>,
    Vectorized<'c, S>,
) {
    /// Replaces every chunk of the first traversal that has a chunk of each
    /// of the others beside it by what `f` makes of the three; the first
    /// traversal's other elements stay.
    fn run<F: FnMut(([S; 4], [S; 4], [S; 4])) -> [S; 4]>(self, f: F)
        ensures
            final(self.0.data)@.len() == old(self.0.data)@.len(),
            forall|i: int|
                0 <= i < old(self.0.data)@.len() && (i < self.0.index || beside(
                    self.0.index as int,
                    i,
                    self.1.index as int,
                ) >= self.1.data@.len() || beside(self.0.index as int, i, self.2.index as int)
                    >= self.2.data@.len()) ==> final(self.0.data)@[i] == old(self.0.data)@[i],
            forall|start: int|
                chunk_start(self.0.index as int, start) && start < old(self.0.data)@.len()
                    && beside(self.0.index as int, start, self.1.index as int)
                    < self.1.data@.len() && beside(
                    self.0.index as int,
                    start,
                    self.2.index as int,
                ) < self.2.data@.len() ==> mapped_with_two(
                    f,
                    old(self.0.data)@,
                    self.0.zero,
                    self.1.data@,
                    self.1.zero,
                    self.2.data@,
                    self.2.zero,
                    final(self.0.data)@,
                    start,
                    beside(self.0.index as int, start, self.1.index as int),
                    beside(self.0.index as int, start, self.2.index as int),
                ),
    {
        let mut call = f;
        let (mut me, mut it, mut that) = self;
        let ghost before = me.data@;
        let ghost origin = me.index as int;
        let ghost zero = me.zero;
        let ghost with = it.data@;
        let ghost companion = it.index as int;
        let ghost with_zero = it.zero;
        let ghost also = that.data@;
        let ghost fellow = that.index as int;
        let ghost also_zero = that.zero;
        let ghost mut done: int = 0;
        loop
            invariant_except_break
                origin + LANES * done < before.len() ==> me.index == origin + LANES * done,
                origin + LANES * done >= before.len() ==> me.index >= before.len(),
                companion + LANES * done < with.len() ==> it.index == companion + LANES * done,
                companion + LANES * done >= with.len() ==> it.index >= with.len(),
                fellow + LANES * done < also.len() ==> that.index == fellow + LANES * done,
                fellow + LANES * done >= also.len() ==> that.index >= also.len(),
            invariant
                final(me.data)@ == final(self.0.data)@,
                me.zero == zero,
                it.zero == with_zero,
                it.data@ == with,
                that.zero == also_zero,
                that.data@ == also,
                me.data@.len() == before.len(),
                0 <= origin,
                0 <= companion,
                0 <= fellow,
                0 <= done,
                done > 0 ==> origin + LANES * (done - 1) < before.len() && companion + LANES * (
                    done - 1) < with.len() && fellow + LANES * (done - 1) < also.len(),
                call == f,
                forall|input: ([S; 4], [S; 4], [S; 4])| call_requires(f, (input,)),
                forall|i: int|
                    0 <= i < before.len() && (i < origin || i >= origin + LANES * done)
                        ==> me.data@[i] == before[i],
                forall|start: int|
                    chunk_start(origin, start) && start < origin + LANES * done
                        ==> mapped_with_two(
                        f,
                        before,
                        zero,
                        with,
                        with_zero,
                        also,
                        also_zero,
                        me.data@,
                        start,
                        beside(origin, start, companion),
                        beside(origin, start, fellow),
                    ),
            ensures
                final(me.data)@ == final(self.0.data)@,
                me.data@.len() == before.len(),
                0 <= done,
                origin + LANES * done >= before.len() || companion + LANES * done >= with.len()
                    || fellow + LANES * done >= also.len(),
                forall|i: int|
                    0 <= i < before.len() && (i < origin || i >= origin + LANES * done)
                        ==> me.data@[i] == before[i],
                forall|start: int|
                    chunk_start(origin, start) && start < origin + LANES * done
                        ==> mapped_with_two(
                        f,
                        before,
                        zero,
                        with,
                        with_zero,
                        also,
                        also_zero,
                        me.data@,
                        start,
                        beside(origin, start, companion),
                        beside(origin, start, fellow),
                    ),
            decreases
                    (if origin + LANES * done < before.len() {
                        before.len() - origin - LANES * done
                    } else {
                        0
                    }),
        {
            let ghost current = me.data@;
            let ghost place = origin + LANES * done;
            match me.next() {
                None => {
                    break ;
                },
                Some(proxy) => {
                    match it.next() {
                        None => {
                            break ;
                        },
                        Some(other) => {
                            match that.next() {
                                None => {
                                    break ;
                                },
                                Some(third) => {
                                    let given: [S; 4] = proxy.data;
                                    let out: [S; 4] = call((given, other, third));
                                    me.store(
                                        MutProxy { data: out, offset: proxy.offset, len: proxy.len },
                                    );
                                    proof {
                                        assert(given@ =~= lanes_at(before, place, zero));
                                        assert(beside(origin, place, companion) == companion
                                            + LANES * done);
                                        assert(beside(origin, place, fellow) == fellow + LANES
                                            * done);
                                        assert(stored(me.data@, place, out@));
                                        assert forall|start: int|
                                            chunk_start(origin, start) && start < place
                                                + LANES implies mapped_with_two(
                                            f,
                                            before,
                                            zero,
                                            with,
                                            with_zero,
                                            also,
                                            also_zero,
                                            me.data@,
                                            start,
                                            beside(origin, start, companion),
                                            beside(origin, start, fellow),
                                        ) by {
                                            if start < place {
                                                let at = beside(origin, start, companion);
                                                let on = beside(origin, start, fellow);
                                                assert(mapped_with_two(
                                                    f,
                                                    before,
                                                    zero,
                                                    with,
                                                    with_zero,
                                                    also,
                                                    also_zero,
                                                    current,
                                                    start,
                                                    at,
                                                    on,
                                                ));
                                                let (g, w, t, o) = choose|
                                                    g: [S; 4],
                                                    w: [S; 4],
                                                    t: [S; 4],
                                                    o: [S; 4],
                                                |
                                                    g@ == lanes_at(before, start, zero) && w@
                                                        == lanes_at(with, at, with_zero) && t@
                                                        == lanes_at(also, on, also_zero)
                                                        && call_ensures(f, ((g, w, t),), o)
                                                        && stored(current, start, o@);
                                                assert(start + LANES <= place);
                                                assert forall|lane: int|
                                                    0 <= lane < LANES && start + lane
                                                        < me.data@.len() implies me.data@[start
                                                    + lane] == o@[lane] by {
                                                    assert(current[start + lane] == o@[lane]);
                                                }
                                                assert(stored(me.data@, start, o@));
                                            } else {
                                                assert(start == place);
                                            }
                                        }
                                        done = done + 1;
                                    }
                                },
                            }
                        },
                    }
                },
            }
        }
        proof {
            let after = me.data@;
            assert forall|i: int|
                0 <= i < before.len() && (i < origin || beside(origin, i, companion) >= with.len()
                    || beside(origin, i, fellow) >= also.len()) implies after[i]
                == before[i] by {
                if i >= origin && i < origin + LANES * done {
                    assert(beside(origin, i, companion) <= companion + LANES * (done - 1));
                    assert(beside(origin, i, fellow) <= fellow + LANES * (done - 1));
                }
            }
            assert forall|start: int|
                chunk_start(origin, start) && start < before.len() && beside(
                    origin,
                    start,
                    companion,
                ) < with.len() && beside(origin, start, fellow) < also.len() implies start
                < origin + LANES * done by {
                assert(beside(origin, start, companion) == companion + start - origin);
                assert(beside(origin, start, fellow) == fellow + start - origin);
            }
        }
    }
}

} // verus!
