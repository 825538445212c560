use frame_interp::image::{check_sizes, Image, ImageError};
use frame_interp::pixel::{smooth, Pixel};
use frame_interp::sequence::{frame_at, interpolate_all, Interpolator};

fn px(r: u8, g: u8, b: u8) -> Pixel {
    Pixel { r, g, b }
}

fn solid(p: Pixel, width: u32, height: u32) -> Image {
    let data = vec![p; (width * height) as usize];
    Image::new_from_parts(&data, width, height).unwrap()
}

fn patterned(seed: u8) -> Image {
    let data: Vec<Pixel> = (0..4u8)
        .map(|i| px(seed.wrapping_mul(37).wrapping_add(i * 50), seed.wrapping_add(i * 7), 255 - seed.wrapping_mul(3)))
        .collect();
    Image::new_from_parts(&data, 2, 2).unwrap()
}

fn stateful(images: &[Image], steps: usize) -> Vec<Vec<Pixel>> {
    let owned: Vec<Image> = images.iter().map(|i| i.duplicate()).collect();
    let mut it = Interpolator::new(owned, steps);
    let mut out = Vec::new();
    while let Some(img) = it.next() {
        out.push(img.data().to_vec());
    }
    out
}

fn stateless(images: &[Image], steps: usize) -> Vec<Vec<Pixel>> {
    interpolate_all(images, steps).iter().map(|i| i.data().to_vec()).collect()
}

#[test]
fn blend_at_zero_is_first_pixel() {
    let a = px(12, 200, 99);
    let b = px(250, 3, 128);
    for steps in [1usize, 2, 3, 50] {
        assert_eq!(smooth(0, steps, a, b), a);
    }
}

#[test]
fn blend_at_one_is_second_pixel() {
    let a = px(12, 200, 99);
    let b = px(250, 3, 128);
    assert_eq!(smooth(7, 7, a, b), b);
}

#[test]
fn blend_midpoint_truncates() {
    assert_eq!(smooth(1, 2, px(0, 0, 0), px(255, 255, 255)), px(127, 127, 127));
    assert_eq!(smooth(1, 2, px(255, 1, 10), px(0, 2, 11)), px(127, 1, 10));
}

#[test]
fn blend_one_third() {
    // (10 * 2 + 200) / 3 = 73, (200 * 2 + 10) / 3 = 136, (0 * 2 + 255) / 3 = 85
    assert_eq!(smooth(1, 3, px(10, 200, 0), px(200, 10, 255)), px(73, 136, 85));
}

#[test]
fn blend_near_one_approaches_second() {
    // steps = 50, local = 49: (0 * 1 + 255 * 49) / 50 = 249
    assert_eq!(smooth(49, 50, px(0, 0, 0), px(255, 255, 255)), px(249, 249, 249));
}

#[test]
fn construction_checks_length() {
    let data = vec![px(1, 2, 3); 3];
    assert_eq!(Image::new_from_parts(&data, 2, 2).unwrap_err(), ImageError::DimensionMismatch);
    let img = Image::new_from_parts(&data, 3, 1).unwrap();
    assert_eq!(img.width(), 3);
    assert_eq!(img.height(), 1);
    assert_eq!(img.data(), &data[..]);
}

#[test]
fn construction_of_empty_image() {
    let img = Image::new_from_parts(&[], 0, 5).unwrap();
    assert!(img.data().is_empty());
    assert_eq!(Image::new_from_parts(&[], 1, 1).unwrap_err(), ImageError::DimensionMismatch);
}

#[test]
fn sizes_must_agree() {
    let a = solid(px(0, 0, 0), 2, 2);
    let b = solid(px(0, 0, 0), 2, 2);
    let c = solid(px(0, 0, 0), 4, 1);
    assert_eq!(check_sizes(&[a.duplicate(), b.duplicate()]), Ok(()));
    assert_eq!(check_sizes(&[a, b, c]), Err(ImageError::InconsistentImageSizes));
}

#[test]
fn frame_count_matches_formula() {
    for (n, steps) in [(2usize, 1usize), (2, 50), (3, 1), (4, 3), (5, 7)] {
        let images: Vec<Image> = (0..n).map(|i| patterned(i as u8)).collect();
        assert_eq!(interpolate_all(&images, steps).len(), (n - 1) * steps + 1);
        assert_eq!(stateful(&images, steps).len(), (n - 1) * steps + 1);
    }
}

#[test]
fn first_and_last_frames_are_sources() {
    let images: Vec<Image> = (0..4).map(|i| patterned(i as u8 + 1)).collect();
    let steps = 3;
    assert_eq!(frame_at(&images, steps, 0).data(), images[0].data());
    assert_eq!(frame_at(&images, steps, 9).data(), images[3].data());
    let all = interpolate_all(&images, steps);
    assert_eq!(all[0].data(), images[0].data());
    assert_eq!(all[all.len() - 1].data(), images[3].data());
}

#[test]
fn drivers_agree_two_images_one_step() {
    let images = vec![patterned(3), patterned(90)];
    assert_eq!(stateful(&images, 1), stateless(&images, 1));
}

#[test]
fn drivers_agree_two_images_fifty_steps() {
    let images = vec![patterned(3), patterned(90)];
    assert_eq!(stateful(&images, 50), stateless(&images, 50));
}

#[test]
fn drivers_agree_four_images_three_steps() {
    let images = vec![patterned(3), patterned(90), patterned(17), patterned(200)];
    assert_eq!(stateful(&images, 3), stateless(&images, 3));
}

#[test]
fn collect_frames_matches_stateless() {
    let images = vec![patterned(5), patterned(60), patterned(120)];
    let owned: Vec<Image> = images.iter().map(|i| i.duplicate()).collect();
    let mut it = Interpolator::new(owned, 4);
    let first = it.next().unwrap();
    assert_eq!(first.data(), images[0].data());
    let rest: Vec<Vec<Pixel>> = it.collect_frames().iter().map(|i| i.data().to_vec()).collect();
    assert_eq!(rest, stateless(&images, 4)[1..].to_vec());
    assert!(it.next().is_none());
    assert!(it.collect_frames().is_empty());
}

#[test]
fn black_to_white_in_two_steps() {
    let images = vec![solid(px(0, 0, 0), 2, 2), solid(px(255, 255, 255), 2, 2)];
    let frames = interpolate_all(&images, 2);
    assert_eq!(frames.len(), 3);
    assert_eq!(frames[0].data(), &[px(0, 0, 0); 4][..]);
    assert_eq!(frames[1].data(), &[px(127, 127, 127); 4][..]);
    assert_eq!(frames[2].data(), &[px(255, 255, 255); 4][..]);
    for f in &frames {
        assert_eq!((f.width(), f.height()), (2, 2));
    }
    assert_eq!(stateful(&images, 2), stateless(&images, 2));
}

#[test]
fn one_step_yields_sources_only() {
    let images = vec![patterned(10), patterned(20), patterned(30)];
    let frames = interpolate_all(&images, 1);
    assert_eq!(frames.len(), 3);
    for (f, src) in frames.iter().zip(images.iter()) {
        assert_eq!(f.data(), src.data());
    }
    assert_eq!(stateful(&images, 1), stateless(&images, 1));
}
