//! The same walks as in the parent module, carried out by rayon's worker
//! pool.

use rayon::iter::IntoParallelRefIterator;
use rayon::iter::IntoParallelRefMutIterator;
use rayon::iter::ParallelIterator;
use rayon::slice::ParallelSliceMut;
use vstd::prelude::*;

use crate::parallel::is_chunking;

verus! {

/// rayon's `par_iter` on a slice, collected. An indexed parallel iterator
/// collects into a `Vec` in the order of the slice, so the result holds a
/// reference to each item, in order.
#[verifier::external_body]
fn rayon_par_iter<T: Sync>(slice: &[T]) -> (r: Vec<&T>)
    ensures
        r.len() == slice.len(),
        forall|i: int| 0 <= i < r.len() ==> *r[i] == slice[i],
{
    slice.par_iter().collect()
}

/// rayon's `par_iter_mut` on a slice, collected: an exclusive reference to
/// each item, in the order of the slice.
#[verifier::external_body]
fn rayon_par_iter_mut<T: Send>(slice: &mut [T]) -> (r: Vec<&mut T>)
    ensures
        r.len() == old(slice).len(),
        final(slice).len() == old(slice).len(),
        forall|i: int| 0 <= i < r.len() ==> *r[i] == old(slice)[i],
        forall|i: int| 0 <= i < r.len() ==> final(slice)[i] == *final(r[i]),
{
    slice.par_iter_mut().collect()
}

/// rayon's `par_chunks_mut` on a slice, collected: the chunks do not
/// overlap, each has `chunk_size` items but the last, which may be shorter,
/// and they come in the order of the slice. rayon panics on a chunk size of
/// zero.
#[verifier::external_body]
fn rayon_par_chunks_mut<T: Send>(slice: &mut [T], chunk_size: usize) -> (r: Vec<&mut [T]>)
    requires
        chunk_size > 0,
    ensures
        is_chunking(old(slice)@, chunk_size as int, Seq::new(r.len() as nat, |k: int| r[k]@)),
        final(slice)@ == Seq::new(r.len() as nat, |k: int| final(r[k])@).flatten(),
{
    slice.par_chunks_mut(chunk_size).collect()
}

/// Shared references to the items of `slice`, in order.
pub fn par_iter<T: Sync>(slice: &[T]) -> (r: Vec<&T>)
    ensures
        r.len() == slice.len(),
        forall|i: int| 0 <= i < r.len() ==> *r[i] == slice[i],
{
    rayon_par_iter(slice)
}

/// Exclusive references to the items of `slice`, in order. What is written
/// through the `i`-th reference is what the slice holds at `i` afterwards.
pub fn par_iter_mut<T: Send>(slice: &mut [T]) -> (r: Vec<&mut T>)
    ensures
        r.len() == old(slice).len(),
        final(slice).len() == old(slice).len(),
        forall|i: int| 0 <= i < r.len() ==> *r[i] == old(slice)[i],
        forall|i: int| 0 <= i < r.len() ==> final(slice)[i] == *final(r[i]),
{
    rayon_par_iter_mut(slice)
}

/// Exclusive references to the chunks of `slice`, in order: each holds
/// `chunk_size` items but the last, which holds what is left. What is written
/// through the chunks, put end to end, is what the slice holds afterwards.
pub fn par_chunks_mut<T: Send>(slice: &mut [T], chunk_size: usize) -> (r: Vec<&mut [T]>)
    requires
        chunk_size > 0,
    ensures
        is_chunking(old(slice)@, chunk_size as int, Seq::new(r.len() as nat, |k: int| r[k]@)),
        final(slice)@ == Seq::new(r.len() as nat, |k: int| final(r[k])@).flatten(),
{
    rayon_par_chunks_mut(slice, chunk_size)
}

} // verus!
