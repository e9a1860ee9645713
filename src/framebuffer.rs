//! The drawing surface: a grid of 8-bit pixels addressed by column and row.
use vstd::prelude::*;

verus! {

/// Whether column `i`, row `j` lies on a surface of the given size.
pub open spec fn on_surface(width: nat, height: nat, i: int, j: int) -> bool {
    0 <= i < width && 0 <= j < height
}

/// A surface of 8-bit pixels. Writes outside the surface are ignored.
pub trait Framebuffer: Sized {
    /// Number of columns.
    spec fn width(&self) -> nat;

    /// Number of rows.
    spec fn height(&self) -> nat;

    /// The pixel at column `i`, row `j`.
    spec fn pixel(&self, i: int, j: int) -> u8;

    /// Sets the pixel at column `x`, row `y`, if it lies on the surface.
    fn set_pixel(&mut self, x: usize, y: usize, color: u8)
        ensures
            final(self).width() == old(self).width(),
            final(self).height() == old(self).height(),
            forall|i: int, j: int|
                #[trigger] final(self).pixel(i, j) == if i == x && j == y && on_surface(
                    old(self).width(),
                    old(self).height(),
                    i,
                    j,
                ) {
                    color
                } else {
                    old(self).pixel(i, j)
                },
    ;
}

/// `after` is `before` with the pixels of `region` that lie on the surface set
/// to `color`, and no other change.
pub open spec fn painted<F: Framebuffer>(
    before: F,
    after: F,
    region: spec_fn(int, int) -> bool,
    color: u8,
) -> bool {
    &&& after.width() == before.width()
    &&& after.height() == before.height()
    &&& forall|i: int, j: int|
        #[trigger] after.pixel(i, j) == if region(i, j) && on_surface(
            before.width(),
            before.height(),
            i,
            j,
        ) {
            color
        } else {
            before.pixel(i, j)
        }
}

/// What `set_pixel` promises, as `painted` states it.
pub proof fn lemma_set_pixel_painted<F: Framebuffer>(before: F, after: F, x: usize, y: usize, color: u8)
    requires
        after.width() == before.width(),
        after.height() == before.height(),
        forall|i: int, j: int|
            #[trigger] after.pixel(i, j) == if i == x && j == y && on_surface(
                before.width(),
                before.height(),
                i,
                j,
            ) {
                color
            } else {
                before.pixel(i, j)
            },
    ensures
        painted(before, after, |i: int, j: int| i == x && j == y, color),
{
}

/// `after` is `before` with `first` painted `c1` and then `second` painted `c2`
/// over it.
pub open spec fn painted_twice<F: Framebuffer>(
    before: F,
    after: F,
    first: spec_fn(int, int) -> bool,
    c1: u8,
    second: spec_fn(int, int) -> bool,
    c2: u8,
) -> bool {
    &&& after.width() == before.width()
    &&& after.height() == before.height()
    &&& forall|i: int, j: int|
        #[trigger] after.pixel(i, j) == if second(i, j) && on_surface(before.width(), before.height(), i, j) {
            c2
        } else if first(i, j) && on_surface(before.width(), before.height(), i, j) {
            c1
        } else {
            before.pixel(i, j)
        }
}

/// Two paintings in a row make a `painted_twice`.
pub proof fn lemma_painted_twice<F: Framebuffer>(
    a: F,
    b: F,
    c: F,
    first: spec_fn(int, int) -> bool,
    c1: u8,
    second: spec_fn(int, int) -> bool,
    c2: u8,
)
    requires
        painted(a, b, first, c1),
        painted(b, c, second, c2),
    ensures
        painted_twice(a, c, first, c1, second, c2),
{
    assert forall|i: int, j: int|
        #[trigger] c.pixel(i, j) == if second(i, j) && on_surface(a.width(), a.height(), i, j) {
            c2
        } else if first(i, j) && on_surface(a.width(), a.height(), i, j) {
            c1
        } else {
            a.pixel(i, j)
        } by {
        assert(c.pixel(i, j) == if second(i, j) && on_surface(b.width(), b.height(), i, j) {
            c2
        } else {
            b.pixel(i, j)
        });
        assert(b.pixel(i, j) == if first(i, j) && on_surface(a.width(), a.height(), i, j) {
            c1
        } else {
            a.pixel(i, j)
        });
    }
}

/// One more pixel of a region: `after` is `before` with `(x, y)` set to `color`
/// when `x`, `y` belongs to `target`, and left alone otherwise; `before` has
/// `done` painted; `target` is `done` with `(x, y)` added if it belongs to `shape`.
pub proof fn lemma_paint_step<F: Framebuffer>(
    start: F,
    before: F,
    after: F,
    done: spec_fn(int, int) -> bool,
    target: spec_fn(int, int) -> bool,
    shape: spec_fn(int, int) -> bool,
    x: int,
    y: int,
    color: u8,
)
    requires
        painted(start, before, done, color),
        shape(x, y) ==> painted(before, after, |i: int, j: int| i == x && j == y, color),
        !shape(x, y) ==> after == before,
        forall|i: int, j: int| #[trigger] target(i, j) == (done(i, j) || (i == x && j == y && shape(i, j))),
    ensures
        painted(start, after, target, color),
{
    if shape(x, y) {
        lemma_painted_union(start, before, after, done, |i: int, j: int| i == x && j == y, target, color);
    } else {
        assert forall|i: int, j: int| #[trigger] target(i, j) == done(i, j) by {}
    }
}

/// Painting a region and then one more region with the same colour paints
/// their union.
pub proof fn lemma_painted_union<F: Framebuffer>(
    a: F,
    b: F,
    c: F,
    r1: spec_fn(int, int) -> bool,
    r2: spec_fn(int, int) -> bool,
    r: spec_fn(int, int) -> bool,
    color: u8,
)
    requires
        painted(a, b, r1, color),
        painted(b, c, r2, color),
        forall|i: int, j: int| #[trigger] r(i, j) == (r1(i, j) || r2(i, j)),
    ensures
        painted(a, c, r, color),
{
    assert forall|i: int, j: int|
        #[trigger] c.pixel(i, j) == if r(i, j) && on_surface(a.width(), a.height(), i, j) {
            color
        } else {
            a.pixel(i, j)
        } by {
        assert(c.pixel(i, j) == if r2(i, j) && on_surface(b.width(), b.height(), i, j) {
            color
        } else {
            b.pixel(i, j)
        });
        assert(b.pixel(i, j) == if r1(i, j) && on_surface(a.width(), a.height(), i, j) {
            color
        } else {
            a.pixel(i, j)
        });
        assert(r(i, j) == (r1(i, j) || r2(i, j)));
    }
}

/// An in-memory surface, stored row after row.
pub struct PixelBuffer {
    width: usize,
    height: usize,
    data: Vec<u8>,
}

impl PixelBuffer {
    /// The storage holds one cell per pixel; a buffer that does not is seen
    /// as an empty surface.
    closed spec fn wf(self) -> bool {
        self.data@.len() == self.width * self.height
    }

    /// The storage cell of column `x`, row `y`, if that pixel lies on the surface.
    fn cell(&self, x: usize, y: usize) -> (r: Option<usize>)
        ensures
            on_surface(self.width(), self.height(), x as int, y as int) ==> r is Some,
            !on_surface(self.width(), self.height(), x as int, y as int) ==> r is None,
            r matches Some(k) ==> k == y * self.width + x && k < self.data@.len(),
    {
        let len = self.data.len();
        let wf = match self.width.checked_mul(self.height) {
            Some(n) => n == len,
            None => false,
        };
        if wf && x < self.width && y < self.height {
            proof {
                lemma_cell_index(self.width as int, self.height as int, x as int, y as int);
            }
            Some(y * self.width + x)
        } else {
            None
        }
    }

    /// A surface of `width` columns and `height` rows, every pixel 0.
    pub fn new(width: usize, height: usize) -> (r: PixelBuffer)
        requires
            width * height <= usize::MAX,
        ensures
            r.width() == width,
            r.height() == height,
            forall|i: int, j: int| #[trigger] r.pixel(i, j) == 0,
    {
        let n: usize = width * height;
        let mut data: Vec<u8> = Vec::new();
        let mut k: usize = 0;
        while k < n
            invariant
                k <= n,
                data@.len() == k,
                forall|m: int| 0 <= m < k ==> #[trigger] data@[m] == 0,
            decreases n - k,
        {
            data.push(0);
            k = k + 1;
        }
        let r = PixelBuffer { width, height, data };
        assert(r.wf());
        assert forall|i: int, j: int| #[trigger] r.pixel(i, j) == 0 by {
            if on_surface(r.width(), r.height(), i, j) {
                lemma_cell_index(width as int, height as int, i, j);
            }
        }
        r
    }

    /// The pixel at column `x`, row `y`; 0 off the surface.
    pub fn get_pixel(&self, x: usize, y: usize) -> (r: u8)
        ensures
            r == self.pixel(x as int, y as int),
    {
        match self.cell(x, y) {
            Some(k) => {
                self.data[k]
            },
            None => 0,
        }
    }
}

/// The cell of a pixel on the surface lies inside the storage, and distinct
/// pixels have distinct cells.
proof fn lemma_cell_index(w: int, h: int, x: int, y: int)
    requires
        0 <= x < w,
        0 <= y < h,
    ensures
        0 <= y * w + x < w * h,
        forall|i: int, j: int|
            0 <= i < w && 0 <= j < h && #[trigger] (j * w + i) == y * w + x ==> i == x && j == y,
{
    assert(0 <= y * w + x < w * h) by (nonlinear_arith)
        requires
            0 <= x < w,
            0 <= y < h,
    ;
    assert forall|i: int, j: int|
        0 <= i < w && 0 <= j < h && #[trigger] (j * w + i) == y * w + x implies i == x && j
            == y by {
        if j < y {
            assert(j * w + i < y * w) by (nonlinear_arith)
                requires
                    j < y,
                    0 <= i < w,
            ;
        } else if j > y {
            assert(y * w + x < j * w) by (nonlinear_arith)
                requires
                    j > y,
                    0 <= x < w,
            ;
        }
    }
}

impl Framebuffer for PixelBuffer {
    closed spec fn width(&self) -> nat {
        if self.wf() {
            self.width as nat
        } else {
            0
        }
    }

    closed spec fn height(&self) -> nat {
        if self.wf() {
            self.height as nat
        } else {
            0
        }
    }

    closed spec fn pixel(&self, i: int, j: int) -> u8 {
        if on_surface(self.width(), self.height(), i, j) {
            self.data@[j * self.width + i]
        } else {
            0
        }
    }

    fn set_pixel(&mut self, x: usize, y: usize, color: u8) {
        match self.cell(x, y) {
            Some(k) => {
                let ghost before = *self;
                self.data.set(k, color);
                proof {
                    lemma_cell_index(self.width as int, self.height as int, x as int, y as int);
                    assert forall|i: int, j: int|
                        on_surface(before.width(), before.height(), i, j) implies 0 <= j
                        * self.width + i < self.width * self.height by {
                        lemma_cell_index(self.width as int, self.height as int, i, j);
                    }
                }
            },
            None => {},
        }
    }
}

} // verus!
