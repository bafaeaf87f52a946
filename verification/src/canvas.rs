use vstd::prelude::*;

verus! {

/// An image of `w` by `h` pixels stored row after row, top row first.
pub struct Canvas<P> {
    pub w: usize,
    pub h: usize,
    pub pixels: Vec<P>,
}

impl<P: Copy> Canvas<P> {
    /// The canvas has one pixel for each of its `w * h` positions.
    pub open spec fn wf(&self) -> bool {
        self.pixels.len() == self.w * self.h
    }

    /// A `w` by `h` canvas with every pixel set to `fill`.
    pub fn new(w: usize, h: usize, fill: P) -> (canvas: Self)
        requires
            w * h <= usize::MAX,
        ensures
            canvas.w == w,
            canvas.h == h,
            canvas.wf(),
            forall|i: int| 0 <= i < w * h ==> #[trigger] canvas.pixels@[i] == fill,
    {
        let n = w * h;
        let mut pixels: Vec<P> = Vec::with_capacity(n);
        let mut i: usize = 0;
        while i < n
            invariant
                i <= n,
                pixels.len() == i,
                forall|j: int| 0 <= j < i ==> #[trigger] pixels@[j] == fill,
            decreases n - i,
        {
            pixels.push(fill);
            i = i + 1;
        }
        Canvas { w, h, pixels }
    }
}

} // verus!
