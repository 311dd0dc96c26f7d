use vstd::prelude::*;

verus! {

/// `d` is the whole square root of `n`: the largest `d` with `d * d <= n`.
pub open spec fn is_grid_dim(d: int, n: int) -> bool {
    d >= 0 && d * d <= n && n < (d + 1) * (d + 1)
}

/// The largest `d` with `d * d <= n`: the number of stratified sample cells
/// per side of a pixel.
pub fn grid_dim(n: u32) -> (d: u32)
    ensures
        is_grid_dim(d as int, n as int),
{
    let mut d: u64 = 0;
    loop
        invariant
            d * d <= n,
            d <= 65535,
        ensures
            is_grid_dim(d as int, n as int),
            d <= 65535,
        decreases 65536 - d,
    {
        let e = d + 1;
        proof {
            assert(e * e <= 0x1_0000_0000) by (nonlinear_arith)
                requires
                    e <= 65536,
            ;
        }
        if e * e > n as u64 {
            break;
        }
        proof {
            assert(e <= 65535) by (nonlinear_arith)
                requires
                    e * e <= 0xffff_ffff,
            ;
        }
        d = e;
    }
    d as u32
}

/// A cell of the stratification grid.
#[derive(Clone, Copy, Debug, PartialEq, Eq, Structural)]
pub struct SamplePosition {
    pub x: u32,
    pub y: u32,
}

/// The integer side of the uniform block the kernel reads each frame: the
/// viewport size, the sampling targets and the sub-pixel sample cursor.
#[derive(Clone, Copy, Debug, PartialEq, Eq, Structural)]
pub struct RenderContext {
    pub width: u32,
    pub height: u32,
    /// Stratified cell of the current sample: (column, row) in the grid.
    pub sample_position: SamplePosition,
    pub samples_per_pixel: u32,
    /// Cells per side of the stratification grid.
    pub sample_grid_dim: u32,
    /// Cells in the grid: `sample_grid_dim` squared.
    pub sample_grid_num: u32,
    pub sample_id: u32,
    pub max_ray_bounces: u32,
    pub important_index_len: u32,
    pub samples_per_frame: u32,
}

/// The cell of sample `id` in a grid `dim` cells wide.
pub open spec fn cell_of(id: u32, dim: u32) -> SamplePosition {
    SamplePosition { x: (id % dim) as u32, y: (id / dim) as u32 }
}

impl RenderContext {
    pub open spec fn wf(self) -> bool {
        &&& self.samples_per_pixel >= 1
        &&& self.sample_grid_dim >= 1
        &&& self.sample_grid_num >= 1
        &&& is_grid_dim(self.sample_grid_dim as int, self.samples_per_pixel as int)
        &&& self.sample_grid_num == self.sample_grid_dim * self.sample_grid_dim
    }

    pub open spec fn spec_set_samples_per_pixel(self, spp: u32) -> RenderContext {
        let d = choose|d: u32| is_grid_dim(d as int, spp as int);
        RenderContext {
            samples_per_pixel: spp,
            sample_grid_dim: d,
            sample_grid_num: (d * d) as u32,
            ..self
        }
    }

    pub open spec fn spec_set_sample_id(self, id: u32) -> RenderContext {
        RenderContext {
            sample_id: id,
            sample_position: if id < self.sample_grid_num {
                cell_of(id, self.sample_grid_dim)
            } else {
                self.sample_position
            },
            ..self
        }
    }

    /// The cursor one frame further: `samples_per_frame` more samples,
    /// never past the target.
    pub open spec fn spec_increment_sample_id(self) -> RenderContext {
        let next = if self.sample_id as int + self.samples_per_frame as int
            >= self.samples_per_pixel as int {
            self.samples_per_pixel
        } else {
            (self.sample_id + self.samples_per_frame) as u32
        };
        self.spec_set_sample_id(next)
    }

    pub fn new(
        width: u32,
        height: u32,
        samples_per_pixel: u32,
        samples_per_frame: u32,
        max_ray_bounces: u32,
        important_index_len: u32,
    ) -> (r: RenderContext)
        requires
            samples_per_pixel >= 1,
        ensures
            r.wf(),
            r.width == width,
            r.height == height,
            r.samples_per_pixel == samples_per_pixel,
            r.samples_per_frame == samples_per_frame,
            r.max_ray_bounces == max_ray_bounces,
            r.important_index_len == important_index_len,
            r.sample_id == 0,
            r.sample_position == (SamplePosition { x: 0, y: 0 }),
    {
        let mut r = RenderContext {
            width,
            height,
            sample_position: SamplePosition { x: 0, y: 0 },
            samples_per_pixel: 1,
            sample_grid_dim: 1,
            sample_grid_num: 1,
            sample_id: 0,
            max_ray_bounces,
            important_index_len,
            samples_per_frame,
        };
        r.set_samples_per_pixel(samples_per_pixel);
        r
    }

    /// Sets the target sample count and the stratification grid it implies.
    pub fn set_samples_per_pixel(&mut self, samples_per_pixel: u32)
        requires
            samples_per_pixel >= 1,
        ensures
            final(self).wf(),
            *final(self) == old(self).spec_set_samples_per_pixel(samples_per_pixel),
    {
        let d = grid_dim(samples_per_pixel);
        proof {
            assert(d * d <= samples_per_pixel) by (nonlinear_arith)
                requires
                    is_grid_dim(d as int, samples_per_pixel as int),
            ;
            lemma_grid_dim_unique(d as int, samples_per_pixel as int);
            assert(d >= 1 && d * d >= 1) by (nonlinear_arith)
                requires
                    is_grid_dim(d as int, samples_per_pixel as int),
                    samples_per_pixel >= 1,
            ;
        }
        self.samples_per_pixel = samples_per_pixel;
        self.sample_grid_dim = d;
        self.sample_grid_num = d * d;
    }

    /// Moves the cursor to sample `sample_id`, and to its grid cell where it
    /// has one.
    pub fn set_sample_id(&mut self, sample_id: u32)
        requires
            old(self).wf(),
        ensures
            final(self).wf(),
            *final(self) == old(self).spec_set_sample_id(sample_id),
    {
        self.sample_id = sample_id;
        if sample_id < self.sample_grid_num {
            self.sample_position = SamplePosition {
                x: sample_id % self.sample_grid_dim,
                y: sample_id / self.sample_grid_dim,
            };
        }
    }

    pub fn reset_sample_id(&mut self)
        requires
            old(self).wf(),
        ensures
            final(self).wf(),
            *final(self) == old(self).spec_set_sample_id(0),
            final(self).sample_id == 0,
            final(self).sample_position == (SamplePosition { x: 0, y: 0 }),
    {
        self.set_sample_id(0);
    }

    /// Advances the cursor by `samples_per_frame`, clamped at the target.
    pub fn increment_sample_id(&mut self)
        requires
            old(self).wf(),
        ensures
            final(self).wf(),
            *final(self) == old(self).spec_increment_sample_id(),
    {
        let next = if self.sample_id >= self.samples_per_pixel
            || self.samples_per_frame >= self.samples_per_pixel - self.sample_id {
            self.samples_per_pixel
        } else {
            self.sample_id + self.samples_per_frame
        };
        self.set_sample_id(next);
    }

    /// Takes a new viewport size; true when it differs from the current one.
    pub fn update(&mut self, width: u32, height: u32) -> (changed: bool)
        ensures
            changed == (old(self).width != width || old(self).height != height),
            *final(self) == (RenderContext { width, height, ..*old(self) }),
    {
        if self.width != width || self.height != height {
            self.width = width;
            self.height = height;
            true
        } else {
            false
        }
    }

    pub fn pixels(&self) -> (r: u32)
        requires
            self.width * self.height <= u32::MAX,
        ensures
            r == self.width * self.height,
    {
        self.width * self.height
    }
}

/// There is only one whole square root.
pub proof fn lemma_grid_dim_unique(d: int, n: int)
    requires
        is_grid_dim(d, n),
    ensures
        forall|e: int| is_grid_dim(e, n) ==> e == d,
{
    assert forall|e: int| is_grid_dim(e, n) implies e == d by {
        if e < d {
            assert((e + 1) * (e + 1) <= d * d) by (nonlinear_arith)
                requires
                    e >= 0,
                    e + 1 <= d,
            ;
        } else if e > d {
            assert((d + 1) * (d + 1) <= e * e) by (nonlinear_arith)
                requires
                    d >= 0,
                    d + 1 <= e,
            ;
        }
    }
}

} // verus!
