//! Assembly of module sequences from pattern slices.
use vstd::prelude::*;

verus! {

/// The concatenation of `parts`, in order, without separators.
pub open spec fn joined(parts: Seq<Seq<u8>>) -> Seq<u8>
    decreases parts.len(),
{
    if parts.len() == 0 {
        Seq::empty()
    } else {
        joined(parts.drop_last()) + parts.last()
    }
}

/// The views of a sequence of slices.
pub open spec fn slice_views(slices: Seq<&[u8]>) -> Seq<Seq<u8>> {
    slices.map_values(|s: &[u8]| s@)
}

/// Concatenates `slices` into one owned sequence, keeping their order.
pub fn join_slices(slices: &[&[u8]]) -> (r: Vec<u8>)
    ensures
        r@ == joined(slice_views(slices@)),
{
    let mut out: Vec<u8> = Vec::new();
    let mut i: usize = 0;
    while i < slices.len()
        invariant
            i <= slices@.len(),
            out@ == joined(slice_views(slices@.take(i as int))),
        decreases slices@.len() - i,
    {
        let part: &[u8] = slices[i];
        let ghost before = out@;
        out.extend_from_slice(part);
        proof {
            assert(out@ =~= before + part@);
            let next = slice_views(slices@.take(i + 1));
            assert(next.drop_last() =~= slice_views(slices@.take(i as int)));
            assert(next.last() == part@);
        }
        i = i + 1;
    }
    proof {
        assert(slices@.take(i as int) =~= slices@);
    }
    out
}

} // verus!
