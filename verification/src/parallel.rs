//! Handing out the items of a slice, one by one or in chunks, for bulk
//! transforms. The functions of this module walk the slice in order on the
//! calling thread; those of [`multicore`] let a worker pool do it. Both hand
//! out the same items in the same order.

use vstd::prelude::*;

pub mod multicore;

verus! {

/// Whether `chunks` are the chunks of `s`: in order, `chunk_size` items each
/// but the last, which holds what is left.
pub open spec fn is_chunking<T>(s: Seq<T>, chunk_size: int, chunks: Seq<Seq<T>>) -> bool {
    &&& chunks.len() == chunk_count(s.len() as int, chunk_size)
    &&& forall|k: int|
        0 <= k < chunks.len() ==> #[trigger] chunks[k] == s.subrange(
            chunk_start(k, chunk_size),
            chunk_end(k, s.len() as int, chunk_size),
        )
}

/// The number of chunks of `chunk_size` items that cover `len` items, the
/// last of them possibly shorter.
pub open spec fn chunk_count(len: int, chunk_size: int) -> int {
    (len + chunk_size - 1) / chunk_size
}

/// Where chunk `k` starts.
pub open spec fn chunk_start(k: int, chunk_size: int) -> int {
    k * chunk_size
}

/// Where chunk `k` ends: `chunk_size` items on, or at the end of the slice.
pub open spec fn chunk_end(k: int, len: int, chunk_size: int) -> int {
    if (k + 1) * chunk_size < len {
        (k + 1) * chunk_size
    } else {
        len
    }
}

/// Shared references to the items of `slice`, in order.
pub fn par_iter<T>(slice: &[T]) -> (r: Vec<&T>)
    ensures
        r.len() == slice.len(),
        forall|i: int| 0 <= i < r.len() ==> *r[i] == slice[i],
{
    let mut out: Vec<&T> = Vec::new();
    let mut i: usize = 0;
    while i < slice.len()
        invariant
            i <= slice.len(),
            out.len() == i,
            forall|j: int| 0 <= j < i ==> *out[j] == slice[j],
        decreases slice.len() - i,
    {
        out.push(&slice[i]);
        i += 1;
    }
    out
}

/// Exclusive references to the items of `slice`, in order. What is written
/// through the `i`-th reference is what the slice holds at `i` afterwards.
pub fn par_iter_mut<T>(slice: &mut [T]) -> (r: Vec<&mut T>)
    ensures
        r.len() == old(slice).len(),
        final(slice).len() == old(slice).len(),
        forall|i: int| 0 <= i < r.len() ==> *r[i] == old(slice)[i],
        forall|i: int| 0 <= i < r.len() ==> final(slice)[i] == *final(r[i]),
{
    let ghost start = slice@;
    let mut out: Vec<&mut T> = Vec::new();
    let mut rest = slice;
    while rest.len() > 0
        invariant
            out.len() + rest.len() == start.len(),
            rest@ == start.subrange(out.len() as int, start.len() as int),
            forall|j: int| 0 <= j < out.len() ==> *out[j] == start[j],
            final(slice).len() == out.len() + final(rest).len(),
            forall|j: int| 0 <= j < out.len() ==> final(slice)[j] == *final(out[j]),
            forall|j: int|
                0 <= j < final(rest).len() ==> final(slice)[out.len() + j] == final(rest)[j],
        decreases rest.len(),
    {
        let ghost done = out.len() as int;
        let ghost whole = final(rest)@;
        let (head, tail) = rest.split_at_mut(1);
        let ghost first = final(head)@;
        let ghost first_now = head@;
        assert(whole == first + final(tail)@);
        let item = &mut head[0];
        assert(first == first_now.update(0, *final(item)));
        assert(first.len() == 1);
        out.push(item);
        rest = tail;
        assert(whole[0] == *final(out[done]));
        assert(forall|j: int| 0 <= j < final(rest).len() ==> whole[1 + j] == final(rest)[j]);
    }
    out
}

/// With `n` full chunks behind, one more chunk of `take` items makes `n + 1`.
proof fn lemma_chunk_count_step(n: int, take: int, chunk_size: int)
    requires
        0 <= n,
        0 < take <= chunk_size,
    ensures
        chunk_count(n * chunk_size, chunk_size) == n,
        chunk_count(n * chunk_size + take, chunk_size) == n + 1,
        (n + 1) * chunk_size == n * chunk_size + chunk_size,
        0 <= n * chunk_size,
{
    vstd::arithmetic::div_mod::lemma_div_multiples_vanish_fancy(n, chunk_size - 1, chunk_size);
    vstd::arithmetic::div_mod::lemma_div_multiples_vanish_fancy(n + 1, take - 1, chunk_size);
    assert(chunk_size * (n + 1) + (take - 1) == n * chunk_size + take + chunk_size - 1)
        by (nonlinear_arith);
    assert(chunk_size * n + (chunk_size - 1) == n * chunk_size + chunk_size - 1)
        by (nonlinear_arith);
    assert((n + 1) * chunk_size == n * chunk_size + chunk_size) by (nonlinear_arith);
    assert(0 <= n * chunk_size) by (nonlinear_arith)
        requires
            0 <= n,
            0 < chunk_size,
    ;
}

/// Exclusive references to the chunks of `slice`, in order: each holds
/// `chunk_size` items but the last, which holds what is left. What is written
/// through the chunks, put end to end, is what the slice holds afterwards.
pub fn par_chunks_mut<T>(slice: &mut [T], chunk_size: usize) -> (r: Vec<&mut [T]>)
    requires
        chunk_size > 0,
    ensures
        is_chunking(old(slice)@, chunk_size as int, Seq::new(r.len() as nat, |k: int| r[k]@)),
        final(slice)@ == Seq::new(r.len() as nat, |k: int| final(r[k])@).flatten(),
{
    let ghost start = slice@;
    let ghost len = slice@.len() as int;
    let ghost size = chunk_size as int;
    let mut out: Vec<&mut [T]> = Vec::new();
    let mut rest = slice;
    proof {
        lemma_chunk_count_step(0, 1, size);
        assert(Seq::new(0, |k: int| final(out[k])@) =~= Seq::<Seq<T>>::empty());
        assert(final(rest)@ =~= Seq::<Seq<T>>::empty().flatten() + final(rest)@);
    }
    while rest.len() > 0
        invariant
            size == chunk_size as int,
            size > 0,
            len == start.len(),
            rest.len() <= len,
            rest.len() > 0 ==> len - rest.len() == out.len() * size,
            out.len() == chunk_count(len - rest.len(), size),
            rest@ == start.subrange(len - rest.len(), len),
            forall|k: int|
                0 <= k < out.len() ==> #[trigger] out[k]@ == start.subrange(
                    chunk_start(k, size),
                    chunk_end(k, len, size),
                ),
            final(slice)@ == Seq::new(out.len() as nat, |k: int| final(out[k])@).flatten()
                + final(rest)@,
        decreases rest.len(),
    {
        let ghost done = out.len() as int;
        let ghost whole = final(rest)@;
        let ghost left = rest.len() as int;
        let ghost before = Seq::new(out.len() as nat, |k: int| final(out[k])@);
        let take = if rest.len() < chunk_size {
            rest.len()
        } else {
            chunk_size
        };
        let (head, tail) = rest.split_at_mut(take);
        let ghost first = final(head)@;
        proof {
            lemma_chunk_count_step(done, take as int, size);
            assert(chunk_start(done, size) == len - left);
            assert(chunk_end(done, len, size) == len - left + take);
            assert(head@ == start.subrange(chunk_start(done, size), chunk_end(done, len, size)));
            assert(tail@ == start.subrange(len - left + take, len));
        }
        out.push(head);
        rest = tail;
        proof {
            let after = Seq::new(out.len() as nat, |k: int| final(out[k])@);
            assert(after =~= before.push(first));
            before.lemma_flatten_push(first);
            assert(whole == first + final(rest)@);
            assert(before.flatten() + whole =~= after.flatten() + final(rest)@);
        }
    }
    proof {
        assert(final(rest)@ =~= Seq::<T>::empty());
        let all = Seq::new(out.len() as nat, |k: int| final(out[k])@);
        assert(all.flatten() + Seq::<T>::empty() =~= all.flatten());
    }
    out
}

/// The chunks of a slice are fixed by the slice and the chunk size: two walks
/// that both hand out its chunks hand out the same chunks in the same order,
/// whichever of them ran on one thread and whichever on many.
pub proof fn lemma_chunking_unique<T>(s: Seq<T>, chunk_size: int, a: Seq<Seq<T>>, b: Seq<Seq<T>>)
    requires
        is_chunking(s, chunk_size, a),
        is_chunking(s, chunk_size, b),
    ensures
        a == b,
{
    assert(a =~= b);
}

/// The items of a slice are fixed by the slice: two walks that both hand out
/// its items hand out the same items in the same order.
pub proof fn lemma_items_unique<T>(s: Seq<T>, a: Seq<T>, b: Seq<T>)
    requires
        a.len() == s.len(),
        b.len() == s.len(),
        forall|i: int| 0 <= i < s.len() ==> a[i] == s[i],
        forall|i: int| 0 <= i < s.len() ==> b[i] == s[i],
    ensures
        a == b,
{
    assert(a =~= b);
}

/// The bounds of the chunks: every chunk but the last is full, and the last
/// ends where the slice ends.
proof fn lemma_chunk_bounds(len: int, chunk_size: int, k: int)
    requires
        0 <= len,
        0 < chunk_size,
        0 <= k < chunk_count(len, chunk_size),
    ensures
        0 <= chunk_start(k, chunk_size) < len,
        chunk_start(k, chunk_size) < chunk_end(k, len, chunk_size) <= len,
        chunk_end(k, len, chunk_size) == chunk_start(k + 1, chunk_size) || (k + 1 == chunk_count(
            len,
            chunk_size,
        ) && chunk_end(k, len, chunk_size) == len),
        k + 1 == chunk_count(len, chunk_size) ==> chunk_end(k, len, chunk_size) == len,
{
    let n = chunk_count(len, chunk_size);
    let x = len + chunk_size - 1;
    vstd::arithmetic::div_mod::lemma_fundamental_div_mod(x, chunk_size);
    assert(x == chunk_size * n + x % chunk_size);
    assert(0 <= x % chunk_size < chunk_size);
    assert(chunk_size * k <= chunk_size * (n - 1)) by (nonlinear_arith)
        requires
            k <= n - 1,
            0 < chunk_size,
    ;
    assert(chunk_size * (n - 1) == chunk_size * n - chunk_size) by (nonlinear_arith);
    assert(k * chunk_size == chunk_size * k) by (nonlinear_arith);
    assert((k + 1) * chunk_size == chunk_size * k + chunk_size) by (nonlinear_arith);
    assert(0 <= chunk_size * k) by (nonlinear_arith)
        requires
            0 <= k,
            0 < chunk_size,
    ;
    if k + 1 < n {
        assert(chunk_size * (k + 1) <= chunk_size * (n - 1)) by (nonlinear_arith)
            requires
                k + 1 <= n - 1,
                0 < chunk_size,
        ;
        assert(chunk_size * (k + 1) == chunk_size * k + chunk_size) by (nonlinear_arith);
    }
}

/// The first `m` chunks, put end to end, are the slice up to where chunk `m`
/// starts, or the whole slice once every chunk is taken.
proof fn lemma_chunking_prefix<T>(s: Seq<T>, chunk_size: int, chunks: Seq<Seq<T>>, m: int)
    requires
        0 < chunk_size,
        is_chunking(s, chunk_size, chunks),
        0 <= m <= chunks.len(),
    ensures
        chunks.take(m).flatten() == s.subrange(
            0,
            if m == chunks.len() {
                s.len() as int
            } else {
                chunk_start(m, chunk_size)
            },
        ),
    decreases m,
{
    let len = s.len() as int;
    if m == 0 {
        assert(chunks.take(0) =~= Seq::<Seq<T>>::empty());
        assert(chunk_start(0, chunk_size) == 0) by (nonlinear_arith);
        if chunks.len() == 0 {
            assert(chunk_count(len, chunk_size) == 0);
            vstd::arithmetic::div_mod::lemma_fundamental_div_mod(len + chunk_size - 1, chunk_size);
            assert(chunk_size * 0 == 0);
            assert(len == 0);
        }
        assert(chunks.take(0).flatten() =~= s.subrange(0, 0));
    } else {
        lemma_chunking_prefix(s, chunk_size, chunks, m - 1);
        lemma_chunk_bounds(len, chunk_size, m - 1);
        let before = chunks.take(m - 1);
        assert(chunks.take(m) =~= before.push(chunks[m - 1]));
        before.lemma_flatten_push(chunks[m - 1]);
        let from = chunk_start(m - 1, chunk_size);
        let to = chunk_end(m - 1, len, chunk_size);
        assert(before.flatten() == s.subrange(0, from));
        assert(chunks[m - 1] == s.subrange(from, to));
        assert(s.subrange(0, from) + s.subrange(from, to) =~= s.subrange(0, to));
    }
}

/// The chunks of a slice, put end to end, are the slice: no item is left out,
/// handed out twice or moved.
pub proof fn lemma_chunking_covers<T>(s: Seq<T>, chunk_size: int, chunks: Seq<Seq<T>>)
    requires
        0 < chunk_size,
        is_chunking(s, chunk_size, chunks),
    ensures
        chunks.flatten() == s,
{
    lemma_chunking_prefix(s, chunk_size, chunks, chunks.len() as int);
    assert(chunks.take(chunks.len() as int) =~= chunks);
    assert(s.subrange(0, s.len() as int) =~= s);
}

} // verus!
