//! The shared LED canvas and per-VM layer buffers.
//!
//! The canvas is the single destination pixel sequence pushed to the device.
//! During composition it is cleared and then each VM's layer is blended onto
//! it, one layer at a time, in profile order.  Because the blend operator is
//! not commutative, the composed frame is specified as a left fold of the
//! layers over the cleared canvas.

use vstd::prelude::*;

use crate::pixel::{spec_black, spec_blend, blend_pixel, Pixel};
use crate::NUM_KEYS;

verus! {

/// The cleared canvas: `NUM_KEYS` all-zero pixels.
pub open spec fn spec_cleared() -> Seq<Pixel> {
    Seq::new(NUM_KEYS as nat, |i: int| spec_black())
}

/// Pointwise source-over blend of layer `src` onto canvas `dst`.
pub open spec fn spec_blend_onto(dst: Seq<Pixel>, src: Seq<Pixel>) -> Seq<Pixel> {
    Seq::new(dst.len(), |i: int| spec_blend(src[i], dst[i]))
}

/// The canvas obtained by clearing and then blending `layers` in order.
pub open spec fn spec_compose(layers: Seq<Seq<Pixel>>) -> Seq<Pixel>
    decreases layers.len(),
{
    if layers.len() == 0 {
        spec_cleared()
    } else {
        spec_blend_onto(spec_compose(layers.drop_last()), layers.last())
    }
}

/// A composed frame always has the canvas length, whatever the layers hold.
pub proof fn lemma_compose_len(layers: Seq<Seq<Pixel>>)
    ensures
        spec_compose(layers).len() == NUM_KEYS,
    decreases layers.len(),
{
    if layers.len() > 0 {
        lemma_compose_len(layers.drop_last());
    }
}

/// Blend determinism: the composed canvas is a function of the per-VM layer
/// outputs and their order alone — two compositions over equal layer
/// sequences give equal canvases, whatever else differs between the runs.
pub proof fn lemma_blend_deterministic(a: Seq<Seq<Pixel>>, b: Seq<Seq<Pixel>>)
    requires
        a =~~= b,
    ensures
        spec_compose(a) == spec_compose(b),
{
}

/// Clearing the canvas and then blending a single fully opaque layer yields
/// that layer exactly.
pub proof fn lemma_single_opaque_layer(layer: Seq<Pixel>)
    requires
        layer.len() == NUM_KEYS,
        forall|i: int| 0 <= i < layer.len() ==> (#[trigger] layer[i]).a == 255,
    ensures
        spec_compose(seq![layer]) == layer,
{
    let composed = spec_compose(seq![layer]);
    assert(seq![layer].drop_last() =~= Seq::<Seq<Pixel>>::empty());
    assert(seq![layer].last() == layer);
    assert(spec_compose(Seq::<Seq<Pixel>>::empty()) == spec_cleared());
    assert(composed == spec_blend_onto(spec_cleared(), layer));
    assert forall|i: int| 0 <= i < NUM_KEYS implies composed[i] == layer[i] by {
        crate::pixel::lemma_blend_opaque(layer[i], spec_cleared()[i]);
    }
    assert(composed =~= layer);
}

/// One VM's working pixel sequence, written during that VM's blend step.
#[derive(Clone, Debug)]
pub struct LayerBuffer {
    pub pixels: Vec<Pixel>,
}

impl LayerBuffer {
    /// A layer is usable only at the canvas length.
    pub open spec fn wf(&self) -> bool {
        self.pixels@.len() == NUM_KEYS
    }

    /// A fresh all-zero layer.
    pub fn new() -> (l: LayerBuffer)
        ensures
            l.wf(),
            l.pixels@ == spec_cleared(),
    {
        let mut pixels: Vec<Pixel> = Vec::new();
        let mut i: usize = 0;
        while i < NUM_KEYS
            invariant
                i <= NUM_KEYS,
                pixels@.len() == i,
                forall|j: int| 0 <= j < i ==> pixels@[j] == spec_black(),
            decreases NUM_KEYS - i,
        {
            pixels.push(Pixel::black());
            i = i + 1;
        }
        let l = LayerBuffer { pixels };
        proof {
            assert(l.pixels@ =~= spec_cleared());
        }
        l
    }

    /// A layer holding `p` in every cell.
    pub fn solid(p: Pixel) -> (l: LayerBuffer)
        ensures
            l.wf(),
            l.pixels@ == Seq::new(NUM_KEYS as nat, |i: int| p),
    {
        let mut pixels: Vec<Pixel> = Vec::new();
        let mut i: usize = 0;
        while i < NUM_KEYS
            invariant
                i <= NUM_KEYS,
                pixels@.len() == i,
                forall|j: int| 0 <= j < i ==> pixels@[j] == p,
            decreases NUM_KEYS - i,
        {
            pixels.push(p);
            i = i + 1;
        }
        let l = LayerBuffer { pixels };
        proof {
            assert(l.pixels@ =~= Seq::new(NUM_KEYS as nat, |i: int| p));
        }
        l
    }
}

/// The shared destination pixel sequence, mutated only during composition.
#[derive(Clone, Debug)]
pub struct Canvas {
    pub pixels: Vec<Pixel>,
}

impl Canvas {
    /// The canvas always has the device's fixed length.
    pub open spec fn wf(&self) -> bool {
        self.pixels@.len() == NUM_KEYS
    }

    /// A canvas starting out cleared.
    pub fn new() -> (c: Canvas)
        ensures
            c.wf(),
            c.pixels@ == spec_cleared(),
    {
        let l = LayerBuffer::new();
        Canvas { pixels: l.pixels }
    }

    /// Clears every cell to the all-zero pixel.
    pub fn clear(&mut self)
        requires
            old(self).wf(),
        ensures
            final(self).wf(),
            final(self).pixels@ == spec_cleared(),
    {
        let n = self.pixels.len();
        let mut i: usize = 0;
        while i < n
            invariant
                i <= n,
                n == NUM_KEYS,
                self.pixels@.len() == n,
                forall|j: int| 0 <= j < i ==> self.pixels@[j] == spec_black(),
            decreases n - i,
        {
            self.pixels.set(i, Pixel::black());
            i = i + 1;
        }
        proof {
            assert(self.pixels@ =~= spec_cleared());
        }
    }

    /// Blends `layer` onto this canvas, cell by cell, in place.
    pub fn blend_layer(&mut self, layer: &LayerBuffer)
        requires
            old(self).wf(),
            layer.wf(),
        ensures
            final(self).wf(),
            final(self).pixels@ == spec_blend_onto(old(self).pixels@, layer.pixels@),
    {
        let ghost dst0 = self.pixels@;
        let n = self.pixels.len();
        let mut i: usize = 0;
        while i < n
            invariant
                i <= n,
                n == NUM_KEYS,
                layer.wf(),
                self.pixels@.len() == n,
                forall|j: int| 0 <= j < i ==> self.pixels@[j] == spec_blend(layer.pixels@[j], dst0[j]),
                forall|j: int| i <= j < n ==> self.pixels@[j] == dst0[j],
            decreases n - i,
        {
            let blended = blend_pixel(&layer.pixels[i], &self.pixels[i]);
            self.pixels.set(i, blended);
            i = i + 1;
        }
        proof {
            assert(self.pixels@ =~= spec_blend_onto(dst0, layer.pixels@));
        }
    }
}

} // verus!
