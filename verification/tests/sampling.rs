use lightshow::ppm::ppm_encode;
use lightshow::{AvgRectangleSampler, Bgra8, DummySampler, Region, Sampler, Screenshot};

fn empty_screenshot() -> Screenshot {
    Screenshot::new(Vec::new(), 0, 0)
}

#[test]
fn dummy_sampler_ramp() {
    let mut sampler = DummySampler::new(37, 22);
    let sample = sampler.sample(&empty_screenshot());
    assert_eq!(sample.width, 37);
    assert_eq!(sample.height, 22);
    // a 37 by 22 ring holds 2*37 + 2*22 - 4 pixels
    assert_eq!(sample.pixels.len(), 114);
    // inc = (255 - 63) / 114 = 1, so the shared level at i is i + 63,
    // with blue, green, red blanked in rotation
    assert_eq!(sample.pixels[0], Bgra8 { b: 0, g: 63, r: 63, a: 100 });
    assert_eq!(sample.pixels[1], Bgra8 { b: 64, g: 0, r: 64, a: 100 });
    assert_eq!(sample.pixels[2], Bgra8 { b: 65, g: 65, r: 0, a: 100 });
    assert_eq!(sample.pixels[113], Bgra8 { b: 176, g: 176, r: 0, a: 100 });
}

#[test]
fn dummy_sampler_small_ring() {
    // 2 by 2 ring: 4 pixels, inc = 192 / 4 = 48
    let mut sampler = DummySampler::new(2, 2);
    let sample = sampler.sample(&empty_screenshot());
    assert_eq!(sample.pixels.len(), 4);
    assert_eq!(sample.pixels[0], Bgra8 { b: 0, g: 63, r: 63, a: 100 });
    assert_eq!(sample.pixels[1], Bgra8 { b: 111, g: 0, r: 111, a: 100 });
    assert_eq!(sample.pixels[2], Bgra8 { b: 159, g: 159, r: 0, a: 100 });
    assert_eq!(sample.pixels[3], Bgra8 { b: 0, g: 207, r: 207, a: 100 });
}

#[test]
fn region_iter_walks_rows_and_skips_last_cell() {
    let region = Region::new(0, 3, 0, 2);
    let mut it = region.iter();
    let mut seen = Vec::new();
    while let Some(xy) = it.next() {
        seen.push(xy);
    }
    // the walk wraps row by row and ends on the last cell without yielding it
    assert_eq!(seen, vec![(0, 0), (1, 0), (2, 0), (0, 1), (1, 1)]);
}

#[test]
fn region_iter_empty_region() {
    let region = Region::new(0, 0, 0, 0);
    let mut it = region.iter();
    assert!(it.next().is_none());
}

#[test]
fn gen_regions_ring() {
    // a 3 by 3 grid over a 30 by 9 image, 2 pixels deep:
    // cell width 10, cell height 3
    let regions = AvgRectangleSampler::gen_regions(3, 3, 2, 30, 9);
    assert_eq!(regions.len(), 8);
    assert_eq!(regions[0], Region::new(0, 10, 0, 3)); // top-left corner
    assert_eq!(regions[1], Region::new(3, 20, 0, 2)); // top edge
    assert_eq!(regions[2], Region::new(20, 30, 0, 3)); // top-right corner
    assert_eq!(regions[3], Region::new(28, 30, 3, 6)); // right edge
    assert_eq!(regions[4], Region::new(20, 30, 6, 9)); // bottom-right corner
    assert_eq!(regions[5], Region::new(3, 20, 7, 9)); // bottom edge
    assert_eq!(regions[6], Region::new(0, 10, 6, 9)); // bottom-left corner
    assert_eq!(regions[7], Region::new(0, 2, 3, 6)); // left edge
}

#[test]
fn sample_regions_caches_first_dimensions() {
    let mut sampler = AvgRectangleSampler::new(3, 3, 2);
    let first = sampler.sample_regions(30, 9);
    assert_eq!(first.len(), 8);
    // a later image with other dimensions reuses the cached ring
    let second = sampler.sample_regions(100, 100);
    assert_eq!(second, first);
}

#[test]
fn ppm_renders_exact_bytes() {
    let ss = Screenshot::new(
        vec![
            Bgra8 { b: 3, g: 2, r: 1, a: 9 },
            Bgra8 { b: 30, g: 20, r: 255, a: 0 },
        ],
        2,
        1,
    );
    // the magic line, then dimensions, max value, and one line per pixel
    let mut expected = vec![80u8, 51, 10];
    expected.extend_from_slice(b"2 1\n255\n1 2 3\n255 20 30\n");
    assert_eq!(ppm_encode(&ss), expected);
}

#[test]
fn ppm_empty_frame() {
    let ss = Screenshot::new(Vec::new(), 0, 0);
    let mut expected = vec![80u8, 51, 10];
    expected.extend_from_slice(b"0 0\n255\n");
    assert_eq!(ppm_encode(&ss), expected);
}
