use vstd::prelude::*;
use std::rc::Rc;
use crate::{shape_product, try_product};
use vstd::slice::slice_subrange;

verus! {

/// A dense n-dimensional array: contiguous row-major storage shared by
/// reference counting, a window `[offset, offset + count)` into it, and the
/// shape of that window. Slices and reshapes are views over the same storage;
/// a view is immutable, so sharing is sound.
pub struct Tensor<T> {
    data: Rc<Vec<T>>,
    offset: usize,
    count: usize,
    shape: Vec<usize>,
}

/// Relies on `Rc::clone` of std: the clone refers to the same allocation and
/// so carries the same value.
#[verifier::external_body]
fn rc_share<T>(r: &Rc<Vec<T>>) -> (res: Rc<Vec<T>>)
    ensures
        res == *r,
{
    Rc::clone(r)
}

impl<T> View for Tensor<T> {
    type V = Seq<T>;

    closed spec fn view(&self) -> Seq<T> {
        (*self.data)@.subrange(self.offset as int, self.offset + self.count)
    }
}

impl<T> Tensor<T> {
    /// The shape of this tensor, as a mathematical sequence.
    pub closed spec fn shape_spec(&self) -> Seq<usize> {
        self.shape@
    }

    /// Well-formedness: the window lies inside the storage and holds exactly
    /// as many elements as the shape describes.
    pub closed spec fn wf(&self) -> bool {
        &&& self.offset + self.count <= (*self.data)@.len()
        &&& (*self.data)@.len() <= usize::MAX
        &&& self.count as nat == shape_product(self.shape@)
    }

    /// Wraps owned storage as a tensor of the given shape.
    pub fn new(data: Vec<T>, shape: Vec<usize>) -> (t: Tensor<T>)
        requires
            data@.len() == shape_product(shape@),
        ensures
            t.wf(),
            t@ == data@,
            t.shape_spec() == shape@,
    {
        let count: usize = data.len();
        let t = Tensor { data: Rc::new(data), offset: 0, count, shape };
        proof {
            assert(t@ =~= (*t.data)@);
        }
        t
    }

    /// Element count.
    pub fn size(&self) -> (n: usize)
        requires
            self.wf(),
        ensures
            n == self@.len(),
            n == shape_product(self.shape_spec()),
    {
        self.count
    }

    /// The shape sequence.
    pub fn shape(&self) -> (s: &Vec<usize>)
        ensures
            s@ == self.shape_spec(),
    {
        &self.shape
    }

    /// Immutable view of the flat storage window.
    pub fn data(&self) -> (s: &[T])
        requires
            self.wf(),
        ensures
            s@ == self@,
    {
        slice_subrange(self.data.as_slice(), self.offset, self.offset + self.count)
    }

    /// One element of the flat window.
    pub fn get(&self, i: usize) -> (r: &T)
        requires
            self.wf(),
            i < self@.len(),
        ensures
            *r == self@[i as int],
    {
        vstd::slice::slice_index_get(self.data.as_slice(), self.offset + i)
    }

    /// A view over the same storage, with the same window and shape. The two
    /// tensors share one allocation: this is how tied weights are
    /// represented.
    pub fn share(&self) -> (t: Tensor<T>)
        requires
            self.wf(),
        ensures
            t.wf(),
            t@ == self@,
            t.shape_spec() == self.shape_spec(),
    {
        Tensor {
            data: rc_share(&self.data),
            offset: self.offset,
            count: self.count,
            shape: self.shape.clone(),
        }
    }

    /// A view over a contiguous sub-range of this tensor's window, starting
    /// at flat index `start`, reinterpreted under `new_shape`. Shares the
    /// parent's storage.
    pub fn slice(&self, start: usize, new_shape: Vec<usize>) -> (t: Tensor<T>)
        requires
            self.wf(),
            start + shape_product(new_shape@) <= self@.len(),
        ensures
            t.wf(),
            t.shape_spec() == new_shape@,
            t@ == self@.subrange(start as int, start + shape_product(new_shape@)),
    {
        proof {
            assert(shape_product(new_shape@) <= usize::MAX);
        }
        let n: usize = match try_product(&new_shape) {
            Some(n) => n,
            None => {
                proof {
                    assert(false);
                }
                0
            },
        };
        let t = Tensor {
            data: rc_share(&self.data),
            offset: self.offset + start,
            count: n,
            shape: new_shape,
        };
        proof {
            assert(t@ =~= self@.subrange(start as int, start + shape_product(t.shape@)));
        }
        t
    }

    /// A view of the whole window under another shape holding the same number
    /// of elements. Shares this tensor's storage.
    pub fn reshape(&self, new_shape: Vec<usize>) -> (t: Tensor<T>)
        requires
            self.wf(),
            shape_product(new_shape@) == self@.len(),
        ensures
            t.wf(),
            t.shape_spec() == new_shape@,
            t@ == self@,
    {
        Tensor {
            data: rc_share(&self.data),
            offset: self.offset,
            count: self.count,
            shape: new_shape,
        }
    }
}

impl<T: Copy> Tensor<T> {
    /// Copies the window out into owned storage (detaches a view).
    pub fn to_vec(&self) -> (v: Vec<T>)
        requires
            self.wf(),
        ensures
            v@ == self@,
    {
        let mut v: Vec<T> = Vec::new();
        let mut i: usize = 0;
        let n: usize = self.count;
        while i < n
            invariant
                0 <= i <= n,
                self.wf(),
                n == self@.len(),
                v@ =~= self@.take(i as int),
            decreases n - i,
        {
            v.push(*self.get(i));
            i = i + 1;
        }
        proof {
            assert(v@ =~= self@);
        }
        v
    }
}

} // verus!
