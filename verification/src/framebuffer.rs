use vstd::prelude::*;
use crate::color::{placeholder_color, Color};

verus! {

/// The fixed-size, row-major pixel buffer shared by all workers: a mapping
/// from linear pixel index to color. It is allocated once, with every entry
/// set to the placeholder color, and individual entries are then mutated by
/// the worker owning that pixel's range.
pub struct Framebuffer {
    pub width: usize,
    pub height: usize,
    pub pixels: Vec<Color>,
}

impl Framebuffer {
    /// Well-formedness: positive dimensions and exactly one entry per pixel.
    pub open spec fn wf(self) -> bool {
        &&& self.width >= 1
        &&& self.height >= 1
        &&& self.width * self.height <= usize::MAX
        &&& self.pixels.len() == self.width * self.height
    }

    /// A buffer of `width * height` entries, all set to the placeholder.
    pub fn new(width: usize, height: usize) -> (fb: Framebuffer)
        requires
            width >= 1,
            height >= 1,
            width * height <= usize::MAX,
        ensures
            fb.wf(),
            fb.width == width,
            fb.height == height,
            forall|p: int| 0 <= p < fb.pixels.len() ==> fb.pixels[p] == placeholder_color(),
    {
        let total: usize = width * height;
        let mut pixels: Vec<Color> = Vec::new();
        let mut k: usize = 0;
        while k < total
            invariant
                k <= total,
                pixels.len() == k,
                forall|p: int| 0 <= p < k ==> pixels[p] == placeholder_color(),
            decreases total - k,
        {
            pixels.push(Color::placeholder());
            k = k + 1;
        }
        Framebuffer { width, height, pixels }
    }

    /// Writes the single entry at linear index `index`, leaving every other
    /// entry as it was.
    pub fn write(&mut self, index: usize, c: Color)
        requires
            old(self).wf(),
            index < old(self).pixels.len(),
        ensures
            final(self).wf(),
            final(self).width == old(self).width,
            final(self).height == old(self).height,
            final(self).pixels@ == old(self).pixels@.update(index as int, c),
    {
        self.pixels.set(index, c);
    }

    /// A point-in-time copy of the whole buffer: the returned image is a
    /// value of its own, never affected by later writes. The cost is
    /// proportional to the image size.
    pub fn snapshot(&self) -> (v: Vec<Color>)
        requires
            self.wf(),
        ensures
            v@ == self.pixels@,
            v.len() == self.width * self.height,
    {
        let mut v: Vec<Color> = Vec::new();
        let mut k: usize = 0;
        while k < self.pixels.len()
            invariant
                k <= self.pixels.len(),
                v.len() == k,
                forall|p: int| 0 <= p < k ==> v[p] == self.pixels[p],
            decreases self.pixels.len() - k,
        {
            v.push(self.pixels[k]);
            k = k + 1;
        }
        proof {
            assert(v@ =~= self.pixels@);
        }
        v
    }
}

} // verus!
