use vstd::prelude::*;

verus! {

/// The samples of each chunk of a sequence.
pub open spec fn chunk_views(cs: Seq<Vec<i16>>) -> Seq<Seq<i16>> {
    cs.map_values(|c: Vec<i16>| c@)
}

/// The samples of a sequence of chunks, one after the other.
pub open spec fn concat(fs: Seq<Seq<i16>>) -> Seq<i16>
    decreases fs.len(),
{
    if fs.len() == 0 {
        Seq::empty()
    } else {
        concat(fs.drop_last()) + fs.last()
    }
}

/// Copies the samples `v[start..end]` into a chunk of their own.
pub fn copy_range(v: &Vec<i16>, start: usize, end: usize) -> (r: Vec<i16>)
    requires
        start <= end <= v@.len(),
    ensures
        r@ == v@.subrange(start as int, end as int),
{
    let mut out: Vec<i16> = Vec::with_capacity(end - start);
    let mut k: usize = start;
    while k < end
        invariant
            start <= k <= end <= v@.len(),
            out@ == v@.subrange(start as int, k as int),
        decreases end - k,
    {
        out.push(v[k]);
        k = k + 1;
        assert(v@.subrange(start as int, k as int) =~= v@.subrange(start as int, k - 1).push(v@[k - 1]));
    }
    out
}

} // verus!
