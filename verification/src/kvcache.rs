//! The incremental key/value cache: per layer, one key buffer and one
//! value buffer of `max_seq_len` rows, and a single current-length
//! counter shared by all layers.
//!
//! `increment` advances the shared length; `len` keeps returning the
//! length from before the current increment, which is the positional
//! base for rotary embedding and for sizing the attention score buffer.
//! Views expose rows `[start, current_length)` of one layer's buffer;
//! writes through a view land at exactly the addressed cell and leave
//! all earlier history unchanged.

use vstd::prelude::*;
use vstd::pervasive::VecAdditionalExecFns;

verus! {

/// A window over rows `[start, start + rows)` of one layer's key or
/// value buffer.
pub struct CacheView {
    is_key: bool,
    layer: usize,
    start: usize,
    rows: usize,
    width: usize,
}

impl CacheView {
    pub closed spec fn spec_is_key(self) -> bool {
        self.is_key
    }

    pub closed spec fn spec_layer(self) -> int {
        self.layer as int
    }

    pub closed spec fn spec_start(self) -> int {
        self.start as int
    }

    pub closed spec fn spec_rows(self) -> int {
        self.rows as int
    }

    pub closed spec fn spec_width(self) -> int {
        self.width as int
    }

    /// The number of rows the view covers.
    pub fn rows(&self) -> (r: usize)
        ensures
            r == self.spec_rows(),
    {
        self.rows
    }

    /// The first buffer row the view covers.
    pub fn start(&self) -> (r: usize)
        ensures
            r == self.spec_start(),
    {
        self.start
    }
}

/// The history below the positional base survives a decode step: a
/// write that lands at or beyond the freshly exposed rows — any flat
/// position of row `base` or later — leaves every entry of the rows
/// `[0, base)` exactly as it was, so a later read over the full history
/// returns all previously written rows unchanged.
pub proof fn lemma_write_preserves_history<T>(buf: Seq<T>, width: int, base: int, idx: int, value: T)
    requires
        0 <= base,
        0 <= width,
        base * width <= idx < buf.len(),
    ensures
        forall|i: int| 0 <= i < base * width ==> #[trigger] buf.update(idx, value)[i] == buf[i],
{
}

/// Buffer lengths carry over to a cache whose buffers each equal the
/// old ones or an in-place update of them.
proof fn lemma_buffer_lengths_stable<T: Copy>(a: KVCache<T>, b: KVCache<T>)
    requires
        a.wf(),
        b.spec_layers() == a.spec_layers(),
        b.spec_value_layers() == a.spec_value_layers(),
        b.spec_max_seq_len() == a.spec_max_seq_len(),
        b.spec_width() == a.spec_width(),
        a.spec_base_len() <= a.spec_total_len(),
        b.spec_base_len() <= b.spec_total_len() <= b.spec_max_seq_len(),
        forall|l: int|
            0 <= l < a.spec_layers() ==> #[trigger] b.spec_key(l).len() == a.spec_key(l).len(),
        forall|l: int|
            0 <= l < a.spec_layers() ==> #[trigger] b.spec_value(l).len() == a.spec_value(l).len(),
    ensures
        b.wf(),
{
}

/// Per-layer growing key/value store, with one shared length counter.
pub struct KVCache<T> {
    k: Vec<Vec<T>>,
    v: Vec<Vec<T>>,
    max_seq_len: usize,
    width: usize,
    length: usize,
    base: usize,
}

impl<T: Copy> KVCache<T> {
    /// The number of layers.
    pub closed spec fn spec_layers(self) -> int {
        self.k@.len() as int
    }

    /// The row capacity of every buffer.
    pub closed spec fn spec_max_seq_len(self) -> int {
        self.max_seq_len as int
    }

    /// The number of entries per row.
    pub closed spec fn spec_width(self) -> int {
        self.width as int
    }

    /// The number of valid rows after the current increment.
    pub closed spec fn spec_total_len(self) -> int {
        self.length as int
    }

    /// The number of valid rows before the current increment.
    pub closed spec fn spec_base_len(self) -> int {
        self.base as int
    }

    /// One layer's key buffer, flat in row-major order.
    pub closed spec fn spec_key(self, layer: int) -> Seq<T> {
        self.k@[layer]@
    }

    /// One layer's value buffer, flat in row-major order.
    pub closed spec fn spec_value(self, layer: int) -> Seq<T> {
        self.v@[layer]@
    }

    /// The number of per-layer value buffers; equals the layer count in
    /// any well-formed cache.
    pub closed spec fn spec_value_layers(self) -> int {
        self.v@.len() as int
    }

    /// Structural invariant: matching layer counts, every buffer sized
    /// `max_seq_len * width`, and `base <= length <= max_seq_len`.
    pub open spec fn wf(self) -> bool {
        &&& self.spec_value_layers() == self.spec_layers()
        &&& self.spec_base_len() <= self.spec_total_len() <= self.spec_max_seq_len()
        &&& forall|l: int|
            0 <= l < self.spec_layers() ==> #[trigger] self.spec_key(l).len()
                == self.spec_max_seq_len() * self.spec_width()
        &&& forall|l: int|
            0 <= l < self.spec_layers() ==> #[trigger] self.spec_value(l).len()
                == self.spec_max_seq_len() * self.spec_width()
    }

    /// A view is addressable when it names a real layer, has this
    /// cache's row width, and covers only valid rows.
    pub open spec fn view_ok(self, view: CacheView) -> bool {
        &&& 0 <= view.spec_layer() < self.spec_layers()
        &&& view.spec_width() == self.spec_width()
        &&& 0 <= view.spec_start()
        &&& 0 <= view.spec_rows()
        &&& view.spec_start() + view.spec_rows() <= self.spec_total_len()
    }

    /// Allocates `layers` pairs of buffers of `max_seq_len` rows of
    /// `width` entries, every entry `fill`, with both length counters at
    /// `init_len`; fails exactly when a buffer would not fit the machine
    /// or `init_len` exceeds the capacity.
    pub fn new(layers: usize, max_seq_len: usize, width: usize, init_len: usize, fill: T) -> (r:
        Option<KVCache<T>>)
        ensures
            match r {
                Some(c) => {
                    &&& max_seq_len * width <= usize::MAX
                    &&& init_len <= max_seq_len
                    &&& c.wf()
                    &&& c.spec_layers() == layers
                    &&& c.spec_max_seq_len() == max_seq_len
                    &&& c.spec_width() == width
                    &&& c.spec_total_len() == init_len
                    &&& c.spec_base_len() == init_len
                    &&& forall|l: int, e: int|
                        0 <= l < layers && 0 <= e < max_seq_len * width ==> #[trigger] c.spec_key(
                            l,
                        )[e] == fill
                    &&& forall|l: int, e: int|
                        0 <= l < layers && 0 <= e < max_seq_len * width
                            ==> #[trigger] c.spec_value(l)[e] == fill
                },
                None => max_seq_len * width > usize::MAX || init_len > max_seq_len,
            },
    {
        let cells = match max_seq_len.checked_mul(width) {
            Some(c) => c,
            None => {
                return None;
            },
        };
        if init_len > max_seq_len {
            return None;
        }
        let mut k: Vec<Vec<T>> = Vec::new();
        let mut v: Vec<Vec<T>> = Vec::new();
        let mut l: usize = 0;
        while l < layers
            invariant
                l <= layers,
                k@.len() == l,
                v@.len() == l,
                forall|i: int| 0 <= i < l ==> (#[trigger] k@[i])@.len() == cells,
                forall|i: int| 0 <= i < l ==> (#[trigger] v@[i])@.len() == cells,
                forall|i: int, e: int| 0 <= i < l && 0 <= e < cells ==> #[trigger] k@[i]@[e] == fill,
                forall|i: int, e: int| 0 <= i < l && 0 <= e < cells ==> #[trigger] v@[i]@[e] == fill,
            decreases layers - l,
        {
            let mut kb: Vec<T> = Vec::new();
            let mut vb: Vec<T> = Vec::new();
            let mut e: usize = 0;
            while e < cells
                invariant
                    e <= cells,
                    kb@.len() == e,
                    vb@.len() == e,
                    forall|j: int| 0 <= j < e ==> kb@[j] == fill,
                    forall|j: int| 0 <= j < e ==> vb@[j] == fill,
                decreases cells - e,
            {
                kb.push(fill);
                vb.push(fill);
                e = e + 1;
            }
            k.push(kb);
            v.push(vb);
            l = l + 1;
        }
        Some(KVCache { k, v, max_seq_len, width, length: init_len, base: init_len })
    }

    /// The number of valid rows before the current increment: the
    /// positional base of the rows most recently exposed.
    pub fn len(&self) -> (r: usize)
        ensures
            r == self.spec_base_len(),
    {
        self.base
    }

    /// The number of valid rows after the current increment.
    pub fn current_len(&self) -> (r: usize)
        ensures
            r == self.spec_total_len(),
    {
        self.length
    }

    /// The row capacity.
    pub fn max_seq_len(&self) -> (r: usize)
        ensures
            r == self.spec_max_seq_len(),
    {
        self.max_seq_len
    }

    /// The number of entries per row.
    pub fn width(&self) -> (r: usize)
        ensures
            r == self.spec_width(),
    {
        self.width
    }

    /// The number of layers.
    pub fn layers(&self) -> (r: usize)
        ensures
            r == self.spec_layers(),
    {
        self.k.len()
    }

    /// Advances the shared length by `n` rows, remembering the previous
    /// length as the new positional base; fails exactly when the result
    /// would exceed the capacity, leaving the cache unchanged.
    pub fn increment(&mut self, n: usize) -> (ok: bool)
        requires
            old(self).wf(),
        ensures
            final(self).wf(),
            ok <==> old(self).spec_total_len() + n <= old(self).spec_max_seq_len(),
            !ok ==> *final(self) == *old(self),
            ok ==> {
                &&& final(self).spec_total_len() == old(self).spec_total_len() + n
                &&& final(self).spec_base_len() == old(self).spec_total_len()
                &&& final(self).spec_layers() == old(self).spec_layers()
                &&& final(self).spec_max_seq_len() == old(self).spec_max_seq_len()
                &&& final(self).spec_width() == old(self).spec_width()
                &&& forall|l: int|
                    0 <= l < old(self).spec_layers() ==> #[trigger] final(self).spec_key(l) == old(
                        self,
                    ).spec_key(l)
                &&& forall|l: int|
                    0 <= l < old(self).spec_layers() ==> #[trigger] final(self).spec_value(l)
                        == old(self).spec_value(l)
            },
    {
        if n <= self.max_seq_len - self.length {
            self.base = self.length;
            self.length = self.length + n;
            proof {
                lemma_buffer_lengths_stable(*old(self), *self);
            }
            true
        } else {
            false
        }
    }

    /// A view over rows `[start, current_length)` of one layer's key
    /// buffer; fails exactly when the layer or the start is out of range.
    pub fn key_view(&self, layer: usize, start: usize) -> (r: Option<CacheView>)
        requires
            self.wf(),
        ensures
            match r {
                Some(view) => {
                    &&& self.view_ok(view)
                    &&& view.spec_is_key()
                    &&& view.spec_layer() == layer
                    &&& view.spec_start() == start
                    &&& view.spec_rows() == self.spec_total_len() - start
                },
                None => layer >= self.spec_layers() || start > self.spec_total_len(),
            },
    {
        if layer < self.k.len() && start <= self.length {
            Some(
                CacheView {
                    is_key: true,
                    layer,
                    start,
                    rows: self.length - start,
                    width: self.width,
                },
            )
        } else {
            None
        }
    }

    /// A view over rows `[start, current_length)` of one layer's value
    /// buffer; fails exactly when the layer or the start is out of range.
    pub fn value_view(&self, layer: usize, start: usize) -> (r: Option<CacheView>)
        requires
            self.wf(),
        ensures
            match r {
                Some(view) => {
                    &&& self.view_ok(view)
                    &&& !view.spec_is_key()
                    &&& view.spec_layer() == layer
                    &&& view.spec_start() == start
                    &&& view.spec_rows() == self.spec_total_len() - start
                },
                None => layer >= self.spec_layers() || start > self.spec_total_len(),
            },
    {
        if layer < self.k.len() && start <= self.length {
            Some(
                CacheView {
                    is_key: false,
                    layer,
                    start,
                    rows: self.length - start,
                    width: self.width,
                },
            )
        } else {
            None
        }
    }

    /// Reads entry `(i, j)` of a view: cell `(start + i) * width + j` of
    /// the viewed buffer.
    pub fn read(&self, view: &CacheView, i: usize, j: usize) -> (r: T)
        requires
            self.wf(),
            self.view_ok(*view),
            i < view.spec_rows(),
            j < self.spec_width(),
        ensures
            view.spec_is_key() ==> r == self.spec_key(view.spec_layer())[(view.spec_start() + i)
                * self.spec_width() + j],
            !view.spec_is_key() ==> r == self.spec_value(view.spec_layer())[(view.spec_start() + i)
                * self.spec_width() + j],
    {
        let idx = self.cell_index(view, i, j);
        proof {
            assert(self.spec_key(view.spec_layer()).len() == self.spec_max_seq_len()
                * self.spec_width());
            assert(self.spec_value(view.spec_layer()).len() == self.spec_max_seq_len()
                * self.spec_width());
        }
        if view.is_key {
            self.k[view.layer][idx]
        } else {
            self.v[view.layer][idx]
        }
    }

    /// Overwrites entry `(i, j)` of a view; exactly that cell of exactly
    /// that buffer changes, so all history outside it — earlier rows
    /// included — is returned unchanged by later reads.
    pub fn write(&mut self, view: &CacheView, i: usize, j: usize, value: T)
        requires
            old(self).wf(),
            old(self).view_ok(*view),
            i < view.spec_rows(),
            j < old(self).spec_width(),
        ensures
            final(self).wf(),
            final(self).spec_layers() == old(self).spec_layers(),
            final(self).spec_max_seq_len() == old(self).spec_max_seq_len(),
            final(self).spec_width() == old(self).spec_width(),
            final(self).spec_total_len() == old(self).spec_total_len(),
            final(self).spec_base_len() == old(self).spec_base_len(),
            view.spec_is_key() ==> {
                &&& final(self).spec_key(view.spec_layer()) == old(self).spec_key(
                    view.spec_layer(),
                ).update((view.spec_start() + i) * old(self).spec_width() + j, value)
                &&& forall|l: int|
                    0 <= l < old(self).spec_layers() && l != view.spec_layer()
                        ==> #[trigger] final(self).spec_key(l) == old(self).spec_key(l)
                &&& forall|l: int|
                    0 <= l < old(self).spec_layers() ==> #[trigger] final(self).spec_value(l)
                        == old(self).spec_value(l)
            },
            !view.spec_is_key() ==> {
                &&& final(self).spec_value(view.spec_layer()) == old(self).spec_value(
                    view.spec_layer(),
                ).update((view.spec_start() + i) * old(self).spec_width() + j, value)
                &&& forall|l: int|
                    0 <= l < old(self).spec_layers() && l != view.spec_layer()
                        ==> #[trigger] final(self).spec_value(l) == old(self).spec_value(l)
                &&& forall|l: int|
                    0 <= l < old(self).spec_layers() ==> #[trigger] final(self).spec_key(l) == old(
                        self,
                    ).spec_key(l)
            },
    {
        let idx = self.cell_index(view, i, j);
        proof {
            assert(self.spec_key(view.spec_layer()).len() == self.spec_max_seq_len()
                * self.spec_width());
            assert(self.spec_value(view.spec_layer()).len() == self.spec_max_seq_len()
                * self.spec_width());
        }
        if view.is_key {
            let buf = &mut self.k[view.layer];
            buf.set(idx, value);
        } else {
            let buf = &mut self.v[view.layer];
            buf.set(idx, value);
        }
        proof {
            lemma_buffer_lengths_stable(*old(self), *self);
        }
    }

    /// The flat position of entry `(i, j)` of a view inside the viewed
    /// buffer.
    fn cell_index(&self, view: &CacheView, i: usize, j: usize) -> (idx: usize)
        requires
            self.wf(),
            self.view_ok(*view),
            i < view.spec_rows(),
            j < self.spec_width(),
        ensures
            idx == (view.spec_start() + i) * self.spec_width() + j,
            idx < self.spec_max_seq_len() * self.spec_width(),
    {
        let row = view.start + i;
        let cap = self.k[view.layer].len();
        proof {
            assert(self.spec_key(view.spec_layer()).len() == self.spec_max_seq_len()
                * self.spec_width());
            assert(row * self.spec_width() + j < self.spec_max_seq_len() * self.spec_width())
                by (nonlinear_arith)
                requires
                    0 <= row < self.spec_max_seq_len(),
                    0 <= j < self.spec_width(),
            ;
            assert(cap == self.spec_max_seq_len() * self.spec_width());
        }
        row * self.width + j
    }
}

} // verus!
