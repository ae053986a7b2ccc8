use vstd::prelude::*;
use vstd::pervasive::VecAdditionalExecFns;

verus! {

/// Per-layer stores of past key and value projections. For each layer there
/// is one key buffer and one value buffer, each laid out row-major as
/// `max_seq_len` rows of `dim` elements. `length` counts the valid rows:
/// rows `[0, length)` are history and are never rewritten; the forward pass
/// writes fresh rows at `[length, length + new)` and then advances.
pub struct KvCache<T> {
    k: Vec<Vec<T>>,
    v: Vec<Vec<T>>,
    max_seq_len: usize,
    dim: usize,
    length: usize,
}

impl<T> KvCache<T> {
    /// Number of attention layers this cache serves.
    pub closed spec fn layers(&self) -> nat {
        self.k@.len()
    }

    /// The key buffer of one layer, as a flat sequence.
    pub closed spec fn k_layer(&self, l: int) -> Seq<T> {
        self.k@[l]@
    }

    /// The value buffer of one layer, as a flat sequence.
    pub closed spec fn v_layer(&self, l: int) -> Seq<T> {
        self.v@[l]@
    }

    /// Capacity in rows.
    pub closed spec fn max_spec(&self) -> nat {
        self.max_seq_len as nat
    }

    /// Row width in elements.
    pub closed spec fn dim_spec(&self) -> nat {
        self.dim as nat
    }

    /// Number of valid rows.
    pub closed spec fn len_spec(&self) -> nat {
        self.length as nat
    }

    /// Well-formedness: one key and one value buffer per layer, each of
    /// exactly `max_seq_len * dim` elements, and no more valid rows than the
    /// capacity.
    pub closed spec fn wf(&self) -> bool {
        &&& self.k@.len() == self.v@.len()
        &&& self.max_seq_len * self.dim <= usize::MAX
        &&& self.length <= self.max_seq_len
        &&& forall|l: int| 0 <= l < self.k@.len()
            ==> (#[trigger] self.k@[l])@.len() == self.max_seq_len * self.dim
        &&& forall|l: int| 0 <= l < self.v@.len()
            ==> (#[trigger] self.v@[l])@.len() == self.max_seq_len * self.dim
    }

    /// A fresh cache: `layers` empty key/value buffers of capacity
    /// `max_seq_len` rows of `dim` elements, all filled with `fill`, and no
    /// valid rows yet.
    pub fn new(layers: usize, max_seq_len: usize, dim: usize, fill: T) -> (c: KvCache<T>)
        where T: Copy,
        requires
            max_seq_len * dim <= usize::MAX,
        ensures
            c.wf(),
            c.layers() == layers,
            c.max_spec() == max_seq_len,
            c.dim_spec() == dim,
            c.len_spec() == 0,
    {
        let size: usize = max_seq_len * dim;
        let mut k: Vec<Vec<T>> = Vec::new();
        let mut v: Vec<Vec<T>> = Vec::new();
        let mut l: usize = 0;
        while l < layers
            invariant
                0 <= l <= layers,
                k@.len() == l,
                v@.len() == l,
                size == max_seq_len * dim,
                forall|i: int| 0 <= i < l ==> (#[trigger] k@[i])@.len() == size,
                forall|i: int| 0 <= i < l ==> (#[trigger] v@[i])@.len() == size,
            decreases layers - l,
        {
            let mut kb: Vec<T> = Vec::new();
            let mut j: usize = 0;
            while j < size
                invariant
                    0 <= j <= size,
                    kb@.len() == j,
                decreases size - j,
            {
                kb.push(fill);
                j = j + 1;
            }
            let mut vb: Vec<T> = Vec::new();
            let mut j2: usize = 0;
            while j2 < size
                invariant
                    0 <= j2 <= size,
                    vb@.len() == j2,
                decreases size - j2,
            {
                vb.push(fill);
                j2 = j2 + 1;
            }
            k.push(kb);
            v.push(vb);
            l = l + 1;
        }
        KvCache { k, v, max_seq_len, dim, length: 0 }
    }

    /// Number of valid rows.
    pub fn len(&self) -> (n: usize)
        ensures
            n == self.len_spec(),
    {
        self.length
    }

    /// Capacity in rows.
    pub fn max_seq_len(&self) -> (n: usize)
        ensures
            n == self.max_spec(),
    {
        self.max_seq_len
    }

    /// Row width.
    pub fn dim(&self) -> (n: usize)
        ensures
            n == self.dim_spec(),
    {
        self.dim
    }

    /// Number of layers.
    pub fn num_layers(&self) -> (n: usize)
        requires
            self.wf(),
        ensures
            n == self.layers(),
    {
        self.k.len()
    }

    /// Marks `n` freshly written rows as valid. After any forward pass over
    /// `n` new tokens the cache length has advanced by exactly `n`; nothing
    /// else about the cache changes.
    pub fn advance(&mut self, n: usize)
        requires
            old(self).wf(),
            old(self).len_spec() + n <= old(self).max_spec(),
        ensures
            final(self).wf(),
            final(self).len_spec() == old(self).len_spec() + n,
            final(self).layers() == old(self).layers(),
            final(self).max_spec() == old(self).max_spec(),
            final(self).dim_spec() == old(self).dim_spec(),
            forall|l: int| 0 <= l < final(self).layers()
                ==> #[trigger] final(self).k_layer(l) == old(self).k_layer(l),
            forall|l: int| 0 <= l < final(self).layers()
                ==> #[trigger] final(self).v_layer(l) == old(self).v_layer(l),
    {
        self.length = self.length + n;
    }

    /// The key buffer of layer `l`.
    pub fn layer_k(&self, l: usize) -> (r: &Vec<T>)
        requires
            self.wf(),
            l < self.layers(),
        ensures
            r@ == self.k_layer(l as int),
    {
        &self.k[l]
    }

    /// The value buffer of layer `l`.
    pub fn layer_v(&self, l: usize) -> (r: &Vec<T>)
        requires
            self.wf(),
            l < self.layers(),
        ensures
            r@ == self.v_layer(l as int),
    {
        &self.v[l]
    }

    /// Writes one key row at position `pos` of layer `l`. The position must
    /// not lie in the already-valid history, so past rows are never
    /// rewritten.
    pub fn write_k_row(&mut self, l: usize, pos: usize, row: &Vec<T>)
        where T: Copy,
        requires
            old(self).wf(),
            l < old(self).layers(),
            old(self).len_spec() <= pos < old(self).max_spec(),
            row@.len() == old(self).dim_spec(),
        ensures
            final(self).wf(),
            final(self).layers() == old(self).layers(),
            final(self).max_spec() == old(self).max_spec(),
            final(self).dim_spec() == old(self).dim_spec(),
            final(self).len_spec() == old(self).len_spec(),
            final(self).k_layer(l as int)
                == old(self).k_layer(l as int).update_subrange_with(
                    pos * old(self).dim_spec() as int, row@),
            forall|m: int| 0 <= m < final(self).layers() && m != l
                ==> #[trigger] final(self).k_layer(m) == old(self).k_layer(m),
            forall|m: int| 0 <= m < final(self).layers()
                ==> #[trigger] final(self).v_layer(m) == old(self).v_layer(m),
    {
        proof {
            assert(pos * self.dim + self.dim <= self.max_seq_len * self.dim) by (nonlinear_arith)
                requires
                    pos + 1 <= self.max_seq_len,
                    self.dim >= 0,
            ;
        }
        let base: usize = pos * self.dim;
        let dim: usize = self.dim;
        let mut j: usize = 0;
        while j < dim
            invariant
                0 <= j <= dim,
                self.wf(),
                dim == self.dim_spec(),
                row@.len() == dim,
                l < self.layers(),
                base == pos * dim,
                base + dim <= self.max_seq_len * self.dim,
                self.layers() == old(self).layers(),
                self.max_spec() == old(self).max_spec(),
                self.dim_spec() == old(self).dim_spec(),
                self.len_spec() == old(self).len_spec(),
                self.k_layer(l as int).len() == old(self).k_layer(l as int).len(),
                forall|i: int| 0 <= i < j
                    ==> #[trigger] self.k_layer(l as int)[base + i] == row@[i],
                forall|i: int| 0 <= i < self.k_layer(l as int).len()
                    && !(base <= i < base + j)
                    ==> #[trigger] self.k_layer(l as int)[i] == old(self).k_layer(l as int)[i],
                forall|m: int| 0 <= m < self.k@.len() && m != l ==> #[trigger] self.k@[m] == old(self).k@[m],
                self.v@ == old(self).v@,
            decreases dim - j,
        {
            self.k[l].set(base + j, row[j]);
            j = j + 1;
        }
        proof {
            let target = old(self).k_layer(l as int).update_subrange_with(base as int, row@);
            assert forall|i: int| 0 <= i < self.k_layer(l as int).len()
                implies self.k_layer(l as int)[i] == target[i] by {
                if base <= i < base + dim {
                    assert(self.k_layer(l as int)[base + (i - base)] == row@[i - base]);
                }
            }
            assert(self.k_layer(l as int) =~= target);
        }
    }

    /// Writes one value row at position `pos` of layer `l`, as
    /// `write_k_row` does for keys.
    pub fn write_v_row(&mut self, l: usize, pos: usize, row: &Vec<T>)
        where T: Copy,
        requires
            old(self).wf(),
            l < old(self).layers(),
            old(self).len_spec() <= pos < old(self).max_spec(),
            row@.len() == old(self).dim_spec(),
        ensures
            final(self).wf(),
            final(self).layers() == old(self).layers(),
            final(self).max_spec() == old(self).max_spec(),
            final(self).dim_spec() == old(self).dim_spec(),
            final(self).len_spec() == old(self).len_spec(),
            final(self).v_layer(l as int)
                == old(self).v_layer(l as int).update_subrange_with(
                    pos * old(self).dim_spec() as int, row@),
            forall|m: int| 0 <= m < final(self).layers() && m != l
                ==> #[trigger] final(self).v_layer(m) == old(self).v_layer(m),
            forall|m: int| 0 <= m < final(self).layers()
                ==> #[trigger] final(self).k_layer(m) == old(self).k_layer(m),
    {
        proof {
            assert(pos * self.dim + self.dim <= self.max_seq_len * self.dim) by (nonlinear_arith)
                requires
                    pos + 1 <= self.max_seq_len,
                    self.dim >= 0,
            ;
        }
        let base: usize = pos * self.dim;
        let dim: usize = self.dim;
        let mut j: usize = 0;
        while j < dim
            invariant
                0 <= j <= dim,
                self.wf(),
                dim == self.dim_spec(),
                row@.len() == dim,
                l < self.layers(),
                base == pos * dim,
                base + dim <= self.max_seq_len * self.dim,
                self.layers() == old(self).layers(),
                self.max_spec() == old(self).max_spec(),
                self.dim_spec() == old(self).dim_spec(),
                self.len_spec() == old(self).len_spec(),
                self.v_layer(l as int).len() == old(self).v_layer(l as int).len(),
                forall|i: int| 0 <= i < j
                    ==> #[trigger] self.v_layer(l as int)[base + i] == row@[i],
                forall|i: int| 0 <= i < self.v_layer(l as int).len()
                    && !(base <= i < base + j)
                    ==> #[trigger] self.v_layer(l as int)[i] == old(self).v_layer(l as int)[i],
                forall|m: int| 0 <= m < self.v@.len() && m != l ==> #[trigger] self.v@[m] == old(self).v@[m],
                self.k@ == old(self).k@,
            decreases dim - j,
        {
            self.v[l].set(base + j, row[j]);
            j = j + 1;
        }
        proof {
            let target = old(self).v_layer(l as int).update_subrange_with(base as int, row@);
            assert forall|i: int| 0 <= i < self.v_layer(l as int).len()
                implies self.v_layer(l as int)[i] == target[i] by {
                if base <= i < base + dim {
                    assert(self.v_layer(l as int)[base + (i - base)] == row@[i - base]);
                }
            }
            assert(self.v_layer(l as int) =~= target);
        }
    }
}

} // verus!
