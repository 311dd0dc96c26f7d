use vstd::prelude::*;
use crate::context::RenderContext;

verus! {

/// What the renderer reports after a frame.
#[derive(Clone, Copy, Debug, PartialEq, Eq, Structural, Default)]
pub struct RenderStatue {
    pub sampled_count: u32,
    pub total_sample: u32,
    pub frames_per_second: u32,
}

/// Decides, frame by frame, whether progressive sampling goes on or starts
/// over: any event that invalidates the accumulated image raises
/// `should_rerender`, and the next frame consumes it by resetting the cursor.
#[derive(Clone, Copy, Debug, PartialEq, Eq, Structural)]
pub struct FrameScheduler {
    pub context: RenderContext,
    pub should_rerender: bool,
}

impl FrameScheduler {
    pub open spec fn wf(self) -> bool {
        self.context.wf()
    }

    pub open spec fn spec_on_resize(self, width: u32, height: u32) -> FrameScheduler {
        if width == 0 || height == 0 {
            self
        } else {
            FrameScheduler {
                context: RenderContext { width, height, ..self.context },
                should_rerender: true,
            }
        }
    }

    pub open spec fn spec_on_update(
        self,
        max_ray_bounces: u32,
        samples_per_pixel: u32,
        camera_rerender: bool,
        width: u32,
        height: u32,
    ) -> FrameScheduler {
        let c0 = self.context;
        let c1 = RenderContext { max_ray_bounces, ..c0 };
        let c2 = if samples_per_pixel != c1.samples_per_pixel {
            c1.spec_set_samples_per_pixel(samples_per_pixel)
        } else {
            c1
        };
        let sized = width != 0 && height != 0;
        FrameScheduler {
            context: if sized {
                RenderContext { width, height, ..c2 }
            } else {
                c2
            },
            should_rerender: self.should_rerender || max_ray_bounces != c0.max_ray_bounces
                || samples_per_pixel != c0.samples_per_pixel || camera_rerender || (sized && (
            width != c0.width || height != c0.height)),
        }
    }

    /// One frame: a pending rerender resets the cursor and is consumed;
    /// otherwise the cursor advances while it is short of the target.
    pub open spec fn spec_next_frame(self) -> FrameScheduler {
        if self.should_rerender {
            FrameScheduler { context: self.context.spec_set_sample_id(0), should_rerender: false }
        } else if self.context.sample_id < self.context.samples_per_pixel {
            FrameScheduler { context: self.context.spec_increment_sample_id(), ..self }
        } else {
            self
        }
    }

    pub fn new(context: RenderContext) -> (r: FrameScheduler)
        requires
            context.wf(),
        ensures
            r.wf(),
            r.context == context,
            !r.should_rerender,
    {
        FrameScheduler { context, should_rerender: false }
    }

    /// The window took a new size. A zero width or height means there is
    /// nothing to draw: it changes nothing and returns false. Any other size
    /// is taken and forces a restart of sampling.
    pub fn on_resize(&mut self, width: u32, height: u32) -> (applied: bool)
        requires
            old(self).wf(),
        ensures
            final(self).wf(),
            applied == (width != 0 && height != 0),
            *final(self) == old(self).spec_on_resize(width, height),
    {
        if width == 0 || height == 0 {
            return false;
        }
        self.context.update(width, height);
        self.should_rerender = true;
        true
    }

    /// Takes the current settings, whether the camera moved, and the window
    /// size. A change of bounce count, sample target or window size, or a
    /// camera change, forces a restart of sampling. A zero width or height
    /// leaves the size as it was.
    pub fn on_update(
        &mut self,
        max_ray_bounces: u32,
        samples_per_pixel: u32,
        camera_rerender: bool,
        width: u32,
        height: u32,
    )
        requires
            old(self).wf(),
            samples_per_pixel >= 1,
        ensures
            final(self).wf(),
            *final(self) == old(self).spec_on_update(
                max_ray_bounces,
                samples_per_pixel,
                camera_rerender,
                width,
                height,
            ),
    {
        if self.context.max_ray_bounces != max_ray_bounces {
            self.context.max_ray_bounces = max_ray_bounces;
            self.should_rerender = true;
        }
        if self.context.samples_per_pixel != samples_per_pixel {
            self.context.set_samples_per_pixel(samples_per_pixel);
            self.should_rerender = true;
        }
        if camera_rerender {
            self.should_rerender = true;
        }
        if width != 0 && height != 0 {
            if self.context.update(width, height) {
                self.should_rerender = true;
            }
        }
    }

    /// Returns the pending rerender flag and clears it.
    pub fn take_rerender(&mut self) -> (r: bool)
        ensures
            r == old(self).should_rerender,
            *final(self) == (FrameScheduler { should_rerender: false, ..*old(self) }),
    {
        if self.should_rerender {
            self.should_rerender = false;
            return true;
        }
        false
    }

    /// Moves the sample cursor for the frame about to be drawn; returns
    /// whether sampling started over.
    pub fn next_frame(&mut self) -> (reset: bool)
        requires
            old(self).wf(),
        ensures
            final(self).wf(),
            reset == old(self).should_rerender,
            *final(self) == old(self).spec_next_frame(),
    {
        if self.take_rerender() {
            self.context.reset_sample_id();
            true
        } else {
            if self.context.sample_id < self.context.samples_per_pixel {
                self.context.increment_sample_id();
            }
            false
        }
    }

    pub fn status(&self, frames_per_second: u32) -> (r: RenderStatue)
        ensures
            r.sampled_count == self.context.sample_id,
            r.total_sample == self.context.samples_per_pixel,
            r.frames_per_second == frames_per_second,
    {
        RenderStatue {
            sampled_count: self.context.sample_id,
            total_sample: self.context.samples_per_pixel,
            frames_per_second,
        }
    }
}

/// The state after `k` frames with no event in between.
pub open spec fn frames(s: FrameScheduler, k: nat) -> FrameScheduler
    decreases k,
{
    if k == 0 {
        s
    } else {
        frames(s, (k - 1) as nat).spec_next_frame()
    }
}

pub open spec fn min_int(a: int, b: int) -> int {
    if a <= b {
        a
    } else {
        b
    }
}

/// After a reset, `k` frames with no event in between leave the cursor at
/// `min(k * samples_per_frame, samples_per_pixel)`; nothing else changes and
/// no restart is pending.
pub proof fn lemma_progress_after_reset(s: FrameScheduler, k: nat)
    requires
        !s.should_rerender,
        s.context.sample_id == 0,
    ensures
        frames(s, k).context.sample_id == min_int(
            k * s.context.samples_per_frame,
            s.context.samples_per_pixel as int,
        ),
        !frames(s, k).should_rerender,
        frames(s, k).context.samples_per_pixel == s.context.samples_per_pixel,
        frames(s, k).context.samples_per_frame == s.context.samples_per_frame,
        frames(s, k).context.sample_grid_num == s.context.sample_grid_num,
        frames(s, k).context.sample_grid_dim == s.context.sample_grid_dim,
    decreases k,
{
    if k > 0 {
        let k1 = (k - 1) as nat;
        lemma_progress_after_reset(s, k1);
        let step = s.context.samples_per_frame as int;
        assert(k * step == k1 * step + step) by (nonlinear_arith)
            requires
                k == k1 + 1,
        ;
        assert(k1 * step >= 0) by (nonlinear_arith)
            requires
                step >= 0,
        ;
    }
}

/// Without a pending restart, a frame never moves the cursor back.
pub proof fn lemma_cursor_monotone(s: FrameScheduler)
    requires
        !s.should_rerender,
    ensures
        s.spec_next_frame().context.sample_id >= s.context.sample_id,
        !s.spec_next_frame().should_rerender,
{
}

/// Without events in between, the cursor after `j` frames is at most the
/// cursor after `k >= j` frames.
pub proof fn lemma_cursor_monotone_frames(s: FrameScheduler, j: nat, k: nat)
    requires
        !s.should_rerender,
        j <= k,
    ensures
        frames(s, j).context.sample_id <= frames(s, k).context.sample_id,
        !frames(s, k).should_rerender,
    decreases k,
{
    if k > 0 {
        lemma_cursor_monotone_frames(s, 0, (k - 1) as nat);
        lemma_cursor_monotone(frames(s, (k - 1) as nat));
        if j < k {
            lemma_cursor_monotone_frames(s, j, (k - 1) as nat);
        }
    }
}

/// A resize to a non-empty size puts the cursor back to 0 on the next frame.
pub proof fn lemma_resize_restarts(s: FrameScheduler, width: u32, height: u32)
    requires
        width != 0,
        height != 0,
    ensures
        s.spec_on_resize(width, height).spec_next_frame().context.sample_id == 0,
{
}

/// A camera change, or a change of bounce count, sample target or (non-empty)
/// window size, puts the cursor back to 0 on the next frame.
pub proof fn lemma_update_restarts(
    s: FrameScheduler,
    max_ray_bounces: u32,
    samples_per_pixel: u32,
    camera_rerender: bool,
    width: u32,
    height: u32,
)
    requires
        camera_rerender || max_ray_bounces != s.context.max_ray_bounces || samples_per_pixel
            != s.context.samples_per_pixel || (width != 0 && height != 0 && (width
            != s.context.width || height != s.context.height)),
    ensures
        s.spec_on_update(
            max_ray_bounces,
            samples_per_pixel,
            camera_rerender,
            width,
            height,
        ).spec_next_frame().context.sample_id == 0,
{
}

} // verus!
