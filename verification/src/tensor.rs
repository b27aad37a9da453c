//! An N-dimensional array over a contiguous owned buffer, with checked
//! construction, in-place zero-copy reshape, and offset views.
//!
//! A view does not copy: reads and writes through a view go to the owning
//! tensor's storage at `view.offset + flat_index`, so a write through a
//! view is visible through the original storage at the matching offset.

use vstd::prelude::*;
use vstd::pervasive::VecAdditionalExecFns;

verus! {

/// The number of elements a shape describes: the product of its dimensions.
pub open spec fn shape_product(shape: Seq<usize>) -> nat
    decreases shape.len(),
{
    if shape.len() == 0 {
        1nat
    } else {
        shape_product(shape.drop_last()) * (shape.last() as nat)
    }
}

/// The product over a prefix never shrinks when every later dimension is
/// at least one.
proof fn lemma_product_prefix_bound(shape: Seq<usize>, i: int)
    requires
        0 <= i <= shape.len(),
        forall|j: int| i <= j < shape.len() ==> shape[j] >= 1,
    ensures
        shape_product(shape) >= shape_product(shape.take(i)),
    decreases shape.len() - i,
{
    if i == shape.len() {
        assert(shape.take(i) =~= shape);
    } else {
        lemma_product_prefix_bound(shape, i + 1);
        let p = shape.take(i + 1);
        assert(p.drop_last() =~= shape.take(i));
        assert(shape_product(shape.take(i + 1)) == shape_product(shape.take(i)) * (
        shape[i] as nat));
        assert(shape_product(shape.take(i)) * (shape[i] as nat) >= shape_product(shape.take(i))
            * 1) by (nonlinear_arith)
            requires
                shape[i] >= 1,
        ;
    }
}

/// A shape with a zero dimension describes zero elements.
proof fn lemma_product_with_zero(shape: Seq<usize>, i: int)
    requires
        0 <= i < shape.len(),
        shape[i] == 0,
    ensures
        shape_product(shape) == 0,
    decreases shape.len(),
{
    if i == shape.len() - 1 {
        assert(shape.last() == 0);
        assert(shape_product(shape) == shape_product(shape.drop_last()) * (shape.last() as nat));
    } else {
        assert(shape.drop_last()[i] == shape[i]);
        lemma_product_with_zero(shape.drop_last(), i);
        assert(shape_product(shape) == shape_product(shape.drop_last()) * (shape.last() as nat));
    }
}

/// A two-dimensional shape describes `rows * columns` elements.
pub proof fn lemma_product_pair(shape: Seq<usize>)
    requires
        shape.len() == 2,
    ensures
        shape_product(shape) == shape[0] * shape[1],
{
    let head = shape.drop_last();
    assert(head.drop_last() =~= Seq::<usize>::empty());
    assert(shape_product(Seq::<usize>::empty()) == 1nat);
    assert(head.last() == shape[0]);
    assert(shape_product(head) == shape_product(head.drop_last()) * (head.last() as nat));
    assert(shape_product(shape) == shape_product(head) * (shape.last() as nat));
}

/// Computes the element count of a shape, detecting machine overflow.
pub fn checked_size(shape: &Vec<usize>) -> (r: Option<usize>)
    ensures
        match r {
            Some(n) => n == shape_product(shape@),
            None => shape_product(shape@) > usize::MAX,
        },
{
    let n = shape.len();
    let mut i: usize = 0;
    while i < n
        invariant
            i <= n,
            n == shape@.len(),
            forall|j: int| 0 <= j < i ==> shape@[j] >= 1,
        decreases n - i,
    {
        if shape[i] == 0 {
            proof {
                lemma_product_with_zero(shape@, i as int);
            }
            return Some(0);
        }
        i = i + 1;
    }
    let mut acc: usize = 1;
    let mut k: usize = 0;
    while k < n
        invariant
            k <= n,
            n == shape@.len(),
            forall|j: int| 0 <= j < n ==> shape@[j] >= 1,
            acc == shape_product(shape@.take(k as int)),
        decreases n - k,
    {
        let d = shape[k];
        proof {
            assert(shape@.take(k + 1).drop_last() =~= shape@.take(k as int));
        }
        match acc.checked_mul(d) {
            Some(next) => {
                acc = next;
            },
            None => {
                proof {
                    assert(shape_product(shape@.take(k + 1)) == shape_product(shape@.take(
                        k as int)) * (shape@[k as int] as nat));
                    lemma_product_prefix_bound(shape@, k + 1);
                }
                return None;
            },
        }
        k = k + 1;
    }
    proof {
        assert(shape@.take(n as int) =~= shape@);
    }
    Some(acc)
}

/// An N-dimensional array: a shape and a contiguous owned buffer whose
/// length equals the product of the shape's dimensions.
pub struct Tensor<T> {
    data: Vec<T>,
    shape: Vec<usize>,
}

/// A zero-copy window into a tensor's storage: an element offset and a
/// shape of its own. Reads and writes through the view address the owning
/// tensor's storage at `offset + flat_index`.
pub struct TensorView {
    offset: usize,
    shape: Vec<usize>,
}

impl TensorView {
    /// The element offset into the owning tensor's storage.
    pub closed spec fn spec_offset(self) -> int {
        self.offset as int
    }

    /// The view's own shape.
    pub closed spec fn spec_shape(self) -> Seq<usize> {
        self.shape@
    }

    /// The number of elements the view covers.
    pub open spec fn spec_size(self) -> nat {
        shape_product(self.spec_shape())
    }

    pub fn offset(&self) -> (r: usize)
        ensures
            r == self.spec_offset(),
    {
        self.offset
    }

    pub fn shape(&self) -> (r: &Vec<usize>)
        ensures
            r@ == self.spec_shape(),
    {
        &self.shape
    }
}

impl<T> Tensor<T> {
    /// The underlying storage, in row-major order.
    pub closed spec fn spec_data(self) -> Seq<T> {
        self.data@
    }

    /// The shape: the ordered sequence of dimension sizes.
    pub closed spec fn spec_shape(self) -> Seq<usize> {
        self.shape@
    }

    /// Structural invariant: the element count equals the product of the
    /// shape's dimensions.
    pub open spec fn wf(self) -> bool {
        self.spec_data().len() == shape_product(self.spec_shape())
    }

    /// A view is addressable within this tensor when the window it
    /// describes lies inside the storage.
    pub open spec fn view_ok(self, v: TensorView) -> bool {
        v.spec_offset() + v.spec_size() <= self.spec_data().len()
    }

    /// Builds a tensor from flat data and a shape; fails exactly when the
    /// data length does not match the shape's element count.
    pub fn new(data: Vec<T>, shape: Vec<usize>) -> (r: Option<Tensor<T>>)
        ensures
            match r {
                Some(t) => {
                    &&& data@.len() == shape_product(shape@)
                    &&& t.spec_data() == data@
                    &&& t.spec_shape() == shape@
                    &&& t.wf()
                },
                None => data@.len() != shape_product(shape@),
            },
    {
        let l = data.len();
        match checked_size(&shape) {
            Some(n) => {
                if l == n {
                    Some(Tensor { data, shape })
                } else {
                    None
                }
            },
            None => None,
        }
    }

    /// Checks the structural invariant.
    pub fn check_wf(&self) -> (r: bool)
        ensures
            r <==> self.wf(),
    {
        let l = self.data.len();
        match checked_size(&self.shape) {
            Some(n) => n == l,
            None => false,
        }
    }

    /// The element count.
    pub fn size(&self) -> (n: usize)
        ensures
            n == self.spec_data().len(),
    {
        self.data.len()
    }

    /// The shape.
    pub fn shape(&self) -> (r: &Vec<usize>)
        ensures
            r@ == self.spec_shape(),
    {
        &self.shape
    }

    /// Reads the element at a flat row-major index.
    pub fn get(&self, i: usize) -> (r: &T)
        requires
            i < self.spec_data().len(),
        ensures
            *r == self.spec_data()[i as int],
    {
        &self.data[i]
    }

    /// Overwrites the element at a flat row-major index; every other
    /// element and the shape are untouched.
    pub fn set(&mut self, i: usize, value: T)
        requires
            i < old(self).spec_data().len(),
        ensures
            final(self).spec_data() == old(self).spec_data().update(i as int, value),
            final(self).spec_shape() == old(self).spec_shape(),
    {
        self.data.set(i, value);
    }

    /// Reinterprets the storage with a new shape, in place and without
    /// copying; fails exactly when the element counts differ, leaving the
    /// tensor unchanged.
    pub fn reshape(&mut self, new_shape: Vec<usize>) -> (ok: bool)
        ensures
            ok <==> shape_product(new_shape@) == old(self).spec_data().len(),
            final(self).spec_data() == old(self).spec_data(),
            ok ==> final(self).spec_shape() == new_shape@,
            !ok ==> final(self).spec_shape() == old(self).spec_shape(),
    {
        let l = self.data.len();
        match checked_size(&new_shape) {
            Some(n) => {
                if n == l {
                    self.shape = new_shape;
                    true
                } else {
                    false
                }
            },
            None => false,
        }
    }

    /// Carves a view at an element offset with its own shape; fails
    /// exactly when the window would leave the storage.
    pub fn slice(&self, offset: usize, shape: Vec<usize>) -> (r: Option<TensorView>)
        ensures
            match r {
                Some(v) => {
                    &&& v.spec_offset() == offset
                    &&& v.spec_shape() == shape@
                    &&& self.view_ok(v)
                },
                None => offset + shape_product(shape@) > self.spec_data().len(),
            },
    {
        let l = self.data.len();
        match checked_size(&shape) {
            Some(n) => {
                if n <= l && offset <= l - n {
                    Some(TensorView { offset, shape })
                } else {
                    None
                }
            },
            None => None,
        }
    }

    /// Reads through a view: element `i` of the view is storage element
    /// `offset + i` of this tensor.
    pub fn view_get(&self, v: &TensorView, i: usize) -> (r: &T)
        requires
            self.view_ok(*v),
            i < v.spec_size(),
        ensures
            *r == self.spec_data()[v.spec_offset() + i],
    {
        let n = self.data.len();
        assert(v.spec_offset() + i < n);
        &self.data[v.offset + i]
    }

    /// Writes through a view: storage changes at exactly the matching
    /// offset `v.offset + i`, so the mutation is visible through the
    /// original tensor; shape and all other elements are untouched.
    pub fn view_set(&mut self, v: &TensorView, i: usize, value: T)
        requires
            old(self).view_ok(*v),
            i < v.spec_size(),
        ensures
            final(self).spec_data() == old(self).spec_data().update(v.spec_offset() + i, value),
            final(self).spec_shape() == old(self).spec_shape(),
            final(self).spec_data()[v.spec_offset() + i] == value,
            forall|j: int|
                0 <= j < old(self).spec_data().len() && j != v.spec_offset() + i
                    ==> final(self).spec_data()[j] == old(self).spec_data()[j],
    {
        let n = self.data.len();
        assert(v.spec_offset() + i < n);
        self.data.set(v.offset + i, value);
    }
}

impl<T: Copy> Tensor<T> {
    /// Allocates a tensor of the given shape with every element equal to
    /// `fill`; fails exactly when the element count overflows the machine.
    pub fn filled(shape: Vec<usize>, fill: T) -> (r: Option<Tensor<T>>)
        ensures
            match r {
                Some(t) => {
                    &&& t.spec_shape() == shape@
                    &&& t.wf()
                    &&& forall|j: int| 0 <= j < t.spec_data().len() ==> t.spec_data()[j] == fill
                },
                None => shape_product(shape@) > usize::MAX,
            },
    {
        match checked_size(&shape) {
            Some(n) => {
                let mut data: Vec<T> = Vec::new();
                let mut i: usize = 0;
                while i < n
                    invariant
                        i <= n,
                        data@.len() == i,
                        forall|j: int| 0 <= j < i ==> data@[j] == fill,
                    decreases n - i,
                {
                    data.push(fill);
                    i = i + 1;
                }
                Some(Tensor { data, shape })
            },
            None => None,
        }
    }
}

} // verus!
