//! The edge regions an averaging sampler reads: a ring of rectangles along
//! the border of the image, one per output pixel, walked clockwise from the
//! top-left corner. Averaging the pixels of each region is the caller's
//! concern; this module computes and caches the region ring and iterates a
//! region's pixel coordinates.

use vstd::prelude::*;

verus! {

/// A rectangular region of image pixels: `x` in `start_x..end_x`, `y` in
/// `start_y..end_y`.
#[derive(Debug, Clone, Copy, PartialEq, Eq, Structural)]
pub struct Region {
    pub start_x: usize,
    pub end_x: usize,
    pub start_y: usize,
    pub end_y: usize,
}

/// A [`Region`] from bounds known to fit in a machine word.
pub open spec fn region_of(start_x: int, end_x: int, start_y: int, end_y: int) -> Region {
    Region {
        start_x: start_x as usize,
        end_x: end_x as usize,
        start_y: start_y as usize,
        end_y: end_y as usize,
    }
}

impl Region {
    pub fn new(start_x: usize, end_x: usize, start_y: usize, end_y: usize) -> (r: Region)
        ensures
            r == (Region { start_x, end_x, start_y, end_y }),
    {
        Region { start_x, end_x, start_y, end_y }
    }

    pub fn iter(&self) -> (r: RegionIter)
        ensures
            r.region == *self,
            r.x == self.start_x,
            r.y == self.start_y,
    {
        RegionIter { region: *self, x: self.start_x, y: self.start_y }
    }
}

/// Walks the pixel coordinates of a region row by row. The walk never yields
/// the last cell of the last row: a cursor standing there ends the walk.
#[derive(Debug, Clone, Copy)]
pub struct RegionIter {
    pub region: Region,
    pub x: usize,
    pub y: usize,
}

impl RegionIter {
    /// Advance the walk one cell: yield the cursor and step right, wrapping
    /// to the start of the next row when the step would leave the row; end
    /// the walk when the wrap would leave the region.
    pub fn next(&mut self) -> (r: Option<(usize, usize)>)
        requires
            old(self).x < usize::MAX,
            old(self).y < usize::MAX,
        ensures
            final(self).region == old(self).region,
            if old(self).x + 1 >= old(self).region.end_x {
                if old(self).y + 1 >= old(self).region.end_y {
                    r is None && *final(self) == *old(self)
                } else {
                    &&& r == Some((old(self).x, old(self).y))
                    &&& final(self).x == old(self).region.start_x
                    &&& final(self).y == old(self).y + 1
                }
            } else {
                &&& r == Some((old(self).x, old(self).y))
                &&& final(self).x == old(self).x + 1
                &&& final(self).y == old(self).y
            },
    {
        if self.x + 1 >= self.region.end_x {
            if self.y + 1 >= self.region.end_y {
                None
            } else {
                let out = (self.x, self.y);
                self.x = self.region.start_x;
                self.y = self.y + 1;
                Some(out)
            }
        } else {
            let out = (self.x, self.y);
            self.x = self.x + 1;
            Some(out)
        }
    }
}

/// The ring of edge regions for a `num_x` by `num_y` sampling grid over an
/// image of `img_w` by `img_h` pixels, `depth` pixels deep along each edge:
/// the top row left to right, the right column top to bottom, the bottom row
/// right to left, and the left column bottom to top, with full grid cells in
/// the corners.
pub open spec fn edge_regions(num_x: int, num_y: int, depth: int, img_w: int, img_h: int) -> Seq<
    Region,
> {
    let cw = img_w / num_x;
    let ch = img_h / num_y;
    seq![region_of(0, cw, 0, ch)] + Seq::new(
        (num_x - 2) as nat,
        |j: int| region_of(ch * (j + 1), cw * (j + 2), 0, depth),
    ) + seq![region_of(cw * (num_x - 1), img_w, 0, ch)] + Seq::new(
        (num_y - 2) as nat,
        |j: int| region_of(img_w - depth, img_w, ch * (j + 1), ch * (j + 2)),
    ) + seq![region_of(cw * (num_x - 1), img_w, ch * (num_y - 1), img_h)] + Seq::new(
        (num_x - 2) as nat,
        |j: int| region_of(ch * (num_x - 2 - j), cw * (num_x - 1 - j), img_h - depth, img_h),
    ) + seq![region_of(0, cw, ch * (num_y - 1), img_h)] + Seq::new(
        (num_y - 2) as nat,
        |j: int| region_of(0, depth, ch * (num_y - 2 - j), ch * (num_y - 1 - j)),
    )
}

/// Sampler that reads the average color of each rectangular region along the
/// edge of the screen. The region ring is computed once, from the dimensions
/// of the first image sampled, and reused afterwards.
pub struct AvgRectangleSampler {
    width: usize,
    height: usize,
    region_depth_px: usize,
    regions: Option<Vec<Region>>,
}

impl AvgRectangleSampler {
    /// The width of the sampling grid, in output pixels.
    pub closed spec fn spec_width(&self) -> usize {
        self.width
    }

    /// The height of the sampling grid, in output pixels.
    pub closed spec fn spec_height(&self) -> usize {
        self.height
    }

    /// How deep each edge region reaches into the image, in image pixels.
    pub closed spec fn spec_depth(&self) -> usize {
        self.region_depth_px
    }

    /// The cached region ring, if one was computed already.
    pub closed spec fn spec_regions(&self) -> Option<Seq<Region>> {
        match self.regions {
            Some(v) => Some(v@),
            None => None,
        }
    }

    /// Create a new sampler that will output `width` number of pixels across
    /// the screen and `height` number of pixels down the screen, measuring
    /// `region_depth_px` pixels into the screen. The size in pixels along the
    /// edge of the image is set by the dimensions of the first screenshot
    /// sampled from.
    pub fn new(width: usize, height: usize, region_depth_px: usize) -> (r: Self)
        ensures
            r.spec_width() == width,
            r.spec_height() == height,
            r.spec_depth() == region_depth_px,
            r.spec_regions() is None,
    {
        Self { width, height, region_depth_px, regions: None }
    }

    /// Compute the ring of edge regions for a `num_x` by `num_y` grid over an
    /// image of `img_width_px` by `img_height_px` pixels.
    pub fn gen_regions(
        num_x: usize,
        num_y: usize,
        depth_px: usize,
        img_width_px: usize,
        img_height_px: usize,
    ) -> (regions: Vec<Region>)
        requires
            2 <= num_x,
            2 <= num_y,
            depth_px <= img_width_px,
            depth_px <= img_height_px,
            2 * num_x + 2 * num_y <= usize::MAX,
            (img_height_px as int / num_y as int) * (num_x as int) <= usize::MAX,
        ensures
            regions@ == edge_regions(
                num_x as int,
                num_y as int,
                depth_px as int,
                img_width_px as int,
                img_height_px as int,
            ),
            regions@.len() == 2 * num_x + 2 * num_y - 4,
    {
        let cell_width_px = img_width_px / num_x;
        let cell_height_px = img_height_px / num_y;
        let ghost cw = cell_width_px as int;
        let ghost ch = cell_height_px as int;
        let ghost nx = num_x as int;
        let ghost ny = num_y as int;
        let ghost iw = img_width_px as int;
        let ghost ih = img_height_px as int;
        let ghost dp = depth_px as int;
        let ghost goal = edge_regions(nx, ny, dp, iw, ih);

        proof {
            vstd::arithmetic::div_mod::lemma_fundamental_div_mod(iw, nx);
            vstd::arithmetic::div_mod::lemma_fundamental_div_mod(ih, ny);
            assert(iw == nx * (iw / nx) + iw % nx);
            assert(cw * nx <= iw) by (nonlinear_arith)
                requires
                    iw == nx * cw + iw % nx,
                    iw % nx >= 0,
            ;
            assert(ch * ny <= ih) by (nonlinear_arith)
                requires
                    ih == ny * ch + ih % ny,
                    ih % ny >= 0,
            ;
        }

        let mut regions: Vec<Region> = Vec::with_capacity(num_x * 2 + (num_y - 2) * 2);

        regions.push(Region::new(0, cell_width_px, 0, cell_height_px));
        let ghost top = Seq::new((nx - 2) as nat, |j: int| region_of(ch * (j + 1), cw * (j + 2), 0, dp));
        let mut i: usize = 1;
        while i < num_x - 1
            invariant
                1 <= i <= num_x - 1,
                2 <= num_x,
                cw == cell_width_px as int,
                ch == cell_height_px as int,
                nx == num_x as int,
                cw * nx <= img_width_px,
                ch * nx <= usize::MAX,
                top == Seq::new(
                    (nx - 2) as nat,
                    |j: int| region_of(ch * (j + 1), cw * (j + 2), 0, dp),
                ),
                dp == depth_px as int,
                regions@ == seq![region_of(0, cw, 0, ch)] + top.take(i - 1),
            decreases num_x - 1 - i,
        {
            proof {
                assert(ch * (i as int) <= ch * nx) by (nonlinear_arith)
                    requires
                        0 <= ch,
                        i as int <= nx,
                ;
                assert(cw * (i as int + 1) <= cw * nx) by (nonlinear_arith)
                    requires
                        0 <= cw,
                        i as int + 1 <= nx,
                ;
            }
            regions.push(Region::new(cell_height_px * i, cell_width_px * (i + 1), 0, depth_px));
            proof {
                assert(top.take(i as int) =~= top.take(i - 1) + seq![top[i - 1]]);
                assert(regions@ =~= seq![region_of(0, cw, 0, ch)] + top.take(i as int));
            }
            i = i + 1;
        }
        proof {
            assert(top.take(nx - 2) =~= top);
            assert(cw * (nx - 1) <= cw * nx) by (nonlinear_arith)
                requires
                    0 <= cw,
            ;
        }
        regions.push(Region::new(cell_width_px * (num_x - 1), img_width_px, 0, cell_height_px));

        let ghost right = Seq::new(
            (ny - 2) as nat,
            |j: int| region_of(iw - dp, iw, ch * (j + 1), ch * (j + 2)),
        );
        let ghost done2 = seq![region_of(0, cw, 0, ch)] + top + seq![
            region_of(cw * (nx - 1), iw, 0, ch),
        ];
        let mut i: usize = 1;
        while i < num_y - 1
            invariant
                1 <= i <= num_y - 1,
                2 <= num_y,
                ch == cell_height_px as int,
                ny == num_y as int,
                iw == img_width_px as int,
                dp == depth_px as int,
                dp <= iw,
                ch * ny <= img_height_px,
                right == Seq::new(
                    (ny - 2) as nat,
                    |j: int| region_of(iw - dp, iw, ch * (j + 1), ch * (j + 2)),
                ),
                regions@ == done2 + right.take(i - 1),
            decreases num_y - 1 - i,
        {
            proof {
                assert(ch * (i as int) <= ch * ny && ch * (i as int + 1) <= ch * ny)
                    by (nonlinear_arith)
                    requires
                        0 <= ch,
                        0 <= i as int + 1 <= ny,
                ;
            }
            regions.push(
                Region::new(
                    img_width_px - depth_px,
                    img_width_px,
                    cell_height_px * i,
                    cell_height_px * (i + 1),
                ),
            );
            proof {
                assert(right.take(i as int) =~= right.take(i - 1) + seq![right[i - 1]]);
                assert(regions@ =~= done2 + right.take(i as int));
            }
            i = i + 1;
        }
        proof {
            assert(right.take(ny - 2) =~= right);
            assert(ch * (ny - 1) <= ch * ny) by (nonlinear_arith)
                requires
                    0 <= ch,
            ;
        }
        regions.push(
            Region::new(
                cell_width_px * (num_x - 1),
                img_width_px,
                cell_height_px * (num_y - 1),
                img_height_px,
            ),
        );

        let ghost bottom = Seq::new(
            (nx - 2) as nat,
            |j: int| region_of(ch * (nx - 2 - j), cw * (nx - 1 - j), ih - dp, ih),
        );
        let ghost done3 = done2 + right + seq![region_of(cw * (nx - 1), iw, ch * (ny - 1), ih)];
        let mut i: usize = num_x - 1;
        while i > 1
            invariant
                1 <= i <= num_x - 1,
                2 <= num_x,
                cw == cell_width_px as int,
                ch == cell_height_px as int,
                nx == num_x as int,
                ih == img_height_px as int,
                dp == depth_px as int,
                dp <= ih,
                cw * nx <= img_width_px,
                ch * nx <= usize::MAX,
                bottom == Seq::new(
                    (nx - 2) as nat,
                    |j: int| region_of(ch * (nx - 2 - j), cw * (nx - 1 - j), ih - dp, ih),
                ),
                regions@ == done3 + bottom.take(nx - 1 - i),
            decreases i,
        {
            let k = i - 1;
            proof {
                assert(ch * (k as int) <= ch * nx) by (nonlinear_arith)
                    requires
                        0 <= ch,
                        k as int <= nx,
                ;
                assert(cw * (k as int + 1) <= cw * nx) by (nonlinear_arith)
                    requires
                        0 <= cw,
                        k as int + 1 <= nx,
                ;
            }
            regions.push(
                Region::new(
                    cell_height_px * k,
                    cell_width_px * (k + 1),
                    img_height_px - depth_px,
                    img_height_px,
                ),
            );
            proof {
                assert(bottom[nx - 1 - i] == region_of(ch * (k as int), cw * (k as int + 1), ih - dp, ih));
                assert(bottom.take(nx - i) =~= bottom.take(nx - 1 - i) + seq![bottom[nx - 1 - i]]);
                assert(regions@ =~= done3 + bottom.take(nx - i));
            }
            i = i - 1;
        }
        proof {
            assert(bottom.take(nx - 2) =~= bottom);
        }
        regions.push(
            Region::new(0, cell_width_px, cell_height_px * (num_y - 1), img_height_px),
        );

        let ghost left = Seq::new(
            (ny - 2) as nat,
            |j: int| region_of(0, dp, ch * (ny - 2 - j), ch * (ny - 1 - j)),
        );
        let ghost done4 = done3 + bottom + seq![region_of(0, cw, ch * (ny - 1), ih)];
        let mut i: usize = num_y - 1;
        while i > 1
            invariant
                1 <= i <= num_y - 1,
                2 <= num_y,
                ch == cell_height_px as int,
                ny == num_y as int,
                dp == depth_px as int,
                ch * ny <= img_height_px,
                left == Seq::new(
                    (ny - 2) as nat,
                    |j: int| region_of(0, dp, ch * (ny - 2 - j), ch * (ny - 1 - j)),
                ),
                regions@ == done4 + left.take(ny - 1 - i),
            decreases i,
        {
            let k = i - 1;
            proof {
                assert(ch * (k as int) <= ch * ny && ch * (k as int + 1) <= ch * ny)
                    by (nonlinear_arith)
                    requires
                        0 <= ch,
                        0 <= k as int + 1 <= ny,
                ;
            }
            regions.push(
                Region::new(0, depth_px, cell_height_px * k, cell_height_px * (k + 1)),
            );
            proof {
                assert(left[ny - 1 - i] == region_of(0, dp, ch * (k as int), ch * (k as int + 1)));
                assert(left.take(ny - i) =~= left.take(ny - 1 - i) + seq![left[ny - 1 - i]]);
                assert(regions@ =~= done4 + left.take(ny - i));
            }
            i = i - 1;
        }
        proof {
            assert(left.take(ny - 2) =~= left);
            assert(regions@ =~= goal);
        }
        regions
    }

    /// The region ring for an image of the given dimensions: computed and
    /// cached on the first call, handed back unchanged afterwards.
    pub fn sample_regions(&mut self, img_width_px: usize, img_height_px: usize) -> (regions: Vec<
        Region,
    >)
        requires
            old(self).spec_regions() is None ==> {
                &&& 2 <= old(self).spec_width()
                &&& 2 <= old(self).spec_height()
                &&& old(self).spec_depth() <= img_width_px
                &&& old(self).spec_depth() <= img_height_px
                &&& 2 * old(self).spec_width() + 2 * old(self).spec_height() <= usize::MAX
                &&& (img_height_px as int / old(self).spec_height() as int) * (old(
                    self,
                ).spec_width() as int) <= usize::MAX
            },
        ensures
            final(self).spec_width() == old(self).spec_width(),
            final(self).spec_height() == old(self).spec_height(),
            final(self).spec_depth() == old(self).spec_depth(),
            final(self).spec_regions() == Some(regions@),
            regions@ == (if old(self).spec_regions() is Some {
                old(self).spec_regions()->0
            } else {
                edge_regions(
                    old(self).spec_width() as int,
                    old(self).spec_height() as int,
                    old(self).spec_depth() as int,
                    img_width_px as int,
                    img_height_px as int,
                )
            }),
    {
        match &self.regions {
            Some(cached) => {
                let r = cached.clone();
                proof {
                    assert(r@ =~= self.regions->0@);
                }
                r
            },
            None => {
                let fresh = AvgRectangleSampler::gen_regions(
                    self.width,
                    self.height,
                    self.region_depth_px,
                    img_width_px,
                    img_height_px,
                );
                let r = fresh.clone();
                proof {
                    assert(r@ =~= fresh@);
                }
                self.regions = Some(fresh);
                r
            },
        }
    }
}

} // verus!
