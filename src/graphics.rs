use vstd::prelude::*;

verus! {

/// Viewport configuration: tile size in pixels, integer zoom factor and
/// window resolution.
#[derive(Clone, Copy, Debug, PartialEq, Eq, Structural)]
pub struct Graphics {
    pub tile_size: u32,
    pub render_multiplier: u32,
    pub resolution_x: u32,
    pub resolution_y: u32,
}

pub const TILE_SIZE: u32 = 20;

pub const RENDER_MULTIPLIER: u32 = 2;

pub const RESOLUTION_X: u32 = 1280;

pub const RESOLUTION_Y: u32 = 720;

impl Graphics {
    /// A configuration whose tile size, zoom and resolution are all non-zero
    /// and whose rendered tile size fits in a `u32`.
    pub open spec fn wf(&self) -> bool {
        &&& self.tile_size >= 1
        &&& self.render_multiplier >= 1
        &&& self.resolution_x >= 1
        &&& self.resolution_y >= 1
        &&& self.tile_size * self.render_multiplier <= u32::MAX
    }

    /// The default configuration.
    pub open spec fn new_spec() -> Graphics {
        Graphics {
            tile_size: TILE_SIZE,
            render_multiplier: RENDER_MULTIPLIER,
            resolution_x: RESOLUTION_X,
            resolution_y: RESOLUTION_Y,
        }
    }

    pub open spec fn render_size(&self) -> int {
        self.tile_size as int * self.render_multiplier as int
    }

    pub proof fn lemma_render_size_positive(&self)
        requires
            self.wf(),
        ensures
            self.render_size() >= self.tile_size,
            self.render_size() >= self.render_multiplier,
            self.render_size() >= 1,
    {
        assert(self.tile_size as int * self.render_multiplier as int >= self.tile_size as int)
            by (nonlinear_arith)
            requires
                self.render_multiplier >= 1,
                self.tile_size >= 1,
        ;
        assert(self.tile_size as int * self.render_multiplier as int
            >= self.render_multiplier as int) by (nonlinear_arith)
            requires
                self.render_multiplier >= 1,
                self.tile_size >= 1,
        ;
    }

    pub fn new() -> (r: Graphics)
        ensures
            r.tile_size == TILE_SIZE,
            r.render_multiplier == RENDER_MULTIPLIER,
            r.resolution_x == RESOLUTION_X,
            r.resolution_y == RESOLUTION_Y,
            r.wf(),
    {
        Graphics {
            tile_size: TILE_SIZE,
            render_multiplier: RENDER_MULTIPLIER,
            resolution_x: RESOLUTION_X,
            resolution_y: RESOLUTION_Y,
        }
    }

    pub fn get_render_size(&self) -> (r: u32)
        requires
            self.tile_size * self.render_multiplier <= u32::MAX,
        ensures
            r == self.render_size(),
    {
        self.tile_size * self.render_multiplier
    }

    pub fn get_x_tiles_per_screen(&self) -> (r: u32)
        requires
            self.wf(),
        ensures
            r == self.resolution_x as int / self.render_size(),
    {
        let rs = self.get_render_size();
        proof {
            self.lemma_render_size_positive();
        }
        self.resolution_x / rs
    }

    pub fn get_y_tiles_per_screen(&self) -> (r: u32)
        requires
            self.wf(),
        ensures
            r == self.resolution_y as int / self.render_size(),
    {
        let rs = self.get_render_size();
        proof {
            self.lemma_render_size_positive();
        }
        self.resolution_y / rs
    }
}

} // verus!
