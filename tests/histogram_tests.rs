use std::collections::HashMap;

use image_entropy::{bin_key, histogram, EntropyError, Image, Mode, Rgb};

fn gray(v: u8) -> Rgb {
    Rgb { r: v, g: v, b: v }
}

fn image_of(width: u32, height: u32, pixels: Vec<Rgb>) -> Image {
    Image { width, height, pixels }
}

/// `-sum(p * log2(p))` over the counts, as a caller reduces the histogram.
fn entropy_of(h: &HashMap<u32, u64>, total: u64) -> f64 {
    let mut counts: Vec<u64> = h.values().copied().collect();
    counts.sort_unstable();
    let mut sum = 0f64;
    for count in counts.iter() {
        let p = *count as f64 / total as f64;
        sum += p * p.log2();
    }
    -sum
}

#[test]
fn two_by_two_black_and_white() {
    let im = image_of(2, 2, vec![gray(0), gray(0), gray(255), gray(255)]);
    let h = histogram(&im, Mode::Grayscale).unwrap();
    assert_eq!(h.len(), 2);
    assert_eq!(h.get(&0), Some(&2));
    assert_eq!(h.get(&255), Some(&2));
    assert_eq!(entropy_of(&h, 4), 1.0);
}

#[test]
fn uniform_image_has_zero_entropy() {
    let c = Rgb { r: 10, g: 200, b: 30 };
    let im = image_of(3, 2, vec![c; 6]);
    for mode in [Mode::Grayscale, Mode::Color] {
        let h = histogram(&im, mode).unwrap();
        assert_eq!(h.len(), 1);
        assert_eq!(h.get(&bin_key(c, mode)), Some(&6));
        assert_eq!(entropy_of(&h, 6), 0.0);
    }
}

#[test]
fn distinct_values_reach_log2_of_count() {
    for n in [1u32, 2, 4, 8, 16, 256] {
        let pixels: Vec<Rgb> = (0..n).map(|v| gray(v as u8)).collect();
        let im = image_of(n, 1, pixels);
        let h = histogram(&im, Mode::Grayscale).unwrap();
        assert_eq!(h.len(), n as usize);
        assert!(h.values().all(|c| *c == 1));
        let e = entropy_of(&h, n as u64);
        assert!((e - (n as f64).log2()).abs() < 1e-9);
    }
}

#[test]
fn shuffled_pixels_keep_the_histogram() {
    let a = vec![
        Rgb { r: 1, g: 2, b: 3 },
        gray(7),
        gray(7),
        Rgb { r: 255, g: 0, b: 0 },
        gray(0),
        Rgb { r: 1, g: 2, b: 3 },
    ];
    let mut b = a.clone();
    b.reverse();
    b.swap(0, 3);
    for mode in [Mode::Grayscale, Mode::Color] {
        let ha = histogram(&image_of(3, 2, a.clone()), mode).unwrap();
        let hb = histogram(&image_of(2, 3, b.clone()), mode).unwrap();
        assert_eq!(ha, hb);
        assert_eq!(entropy_of(&ha, 6), entropy_of(&hb, 6));
    }
}

#[test]
fn gray_image_in_both_modes() {
    let im = image_of(4, 1, vec![gray(3), gray(3), gray(90), gray(200)]);
    let hg = histogram(&im, Mode::Grayscale).unwrap();
    let hc = histogram(&im, Mode::Color).unwrap();
    assert_eq!(hg.get(&3), Some(&2));
    assert_eq!(hg.get(&90), Some(&1));
    assert_eq!(hc.get(&(3 * 65793)), Some(&2));
    assert_eq!(hc.get(&(200 * 65793)), Some(&1));
    assert_eq!(hc.get(&3), None);
    let eg = entropy_of(&hg, 4);
    let ec = entropy_of(&hc, 4);
    assert!((eg - 1.5).abs() < 1e-12);
    assert!((ec - 1.5).abs() < 1e-12);
}

#[test]
fn color_mode_separates_equal_luma() {
    // Both pixels have luma 0 but differ as triples.
    let im = image_of(2, 1, vec![gray(0), Rgb { r: 0, g: 0, b: 1 }]);
    let hg = histogram(&im, Mode::Grayscale).unwrap();
    let hc = histogram(&im, Mode::Color).unwrap();
    assert_eq!(hg.len(), 1);
    assert_eq!(hc.len(), 2);
    assert_eq!(entropy_of(&hg, 2), 0.0);
    assert_eq!(entropy_of(&hc, 2), 1.0);
}

#[test]
fn zero_width_is_rejected() {
    let im = image_of(0, 5, vec![]);
    assert_eq!(histogram(&im, Mode::Grayscale), Err(EntropyError::InvalidInput));
    assert_eq!(histogram(&im, Mode::Color), Err(EntropyError::InvalidInput));
}

#[test]
fn zero_height_is_rejected() {
    let im = image_of(5, 0, vec![]);
    assert_eq!(histogram(&im, Mode::Grayscale), Err(EntropyError::InvalidInput));
}

#[test]
fn wrong_pixel_count_is_rejected() {
    let im = image_of(2, 2, vec![gray(1); 3]);
    assert_eq!(histogram(&im, Mode::Color), Err(EntropyError::InvalidInput));
    let im = image_of(1, 1, vec![gray(1); 2]);
    assert_eq!(histogram(&im, Mode::Grayscale), Err(EntropyError::InvalidInput));
}

#[test]
fn luma_uses_bt709_weights() {
    assert_eq!(bin_key(Rgb { r: 255, g: 0, b: 0 }, Mode::Grayscale), 54);
    assert_eq!(bin_key(Rgb { r: 0, g: 255, b: 0 }, Mode::Grayscale), 182);
    assert_eq!(bin_key(Rgb { r: 0, g: 0, b: 255 }, Mode::Grayscale), 18);
    assert_eq!(bin_key(Rgb { r: 100, g: 150, b: 200 }, Mode::Grayscale), 142);
    assert_eq!(bin_key(gray(255), Mode::Grayscale), 255);
    assert_eq!(bin_key(gray(77), Mode::Grayscale), 77);
}

#[test]
fn color_key_packs_the_triple() {
    assert_eq!(bin_key(Rgb { r: 1, g: 2, b: 3 }, Mode::Color), 66051);
    assert_eq!(bin_key(Rgb { r: 255, g: 255, b: 255 }, Mode::Color), 16777215);
    assert_eq!(bin_key(gray(0), Mode::Color), 0);
}

#[test]
fn red_image_bins_by_luma() {
    let im = image_of(1, 2, vec![Rgb { r: 255, g: 0, b: 0 }, Rgb { r: 255, g: 0, b: 0 }]);
    let h = histogram(&im, Mode::Grayscale).unwrap();
    assert_eq!(h.get(&54), Some(&2));
    assert_eq!(h.get(&255), None);
}

#[test]
fn counts_add_up_and_bounds_hold() {
    let (w, h) = (40u32, 30u32);
    let mut pixels = Vec::new();
    for i in 0..(w * h) {
        pixels.push(Rgb { r: (i % 256) as u8, g: (i * 7 % 256) as u8, b: (i / 5 % 256) as u8 });
    }
    let im = image_of(w, h, pixels);
    for mode in [Mode::Grayscale, Mode::Color] {
        let hist = histogram(&im, mode).unwrap();
        assert_eq!(hist.values().sum::<u64>(), (w * h) as u64);
        assert!(hist.len() <= (w * h) as usize);
        assert!(hist.values().all(|c| *c >= 1));
        let e = entropy_of(&hist, (w * h) as u64);
        assert!(e >= 0.0);
        assert!(e <= ((w * h) as f64).log2() + 1e-9);
        if mode == Mode::Grayscale {
            assert!(hist.len() <= 256);
            assert!(e <= 8.0 + 1e-9);
        }
    }
}
