use burn::backend::ndarray::NdArrayDevice;
use mion::data::{stack_labels, stack_levels, ImageItem, MnistBatcher, PIXEL_SCALE};
use mion::tensor::{has_room, Tensor, ELEMENT_BYTES};
use mion::{IMG_HEIGHT, IMG_PIXELS, IMG_WIDTH};

fn item(seed: usize, label: i32) -> ImageItem {
    let levels: Vec<u8> = (0..IMG_PIXELS).map(|i| ((i * 13 + seed * 101) % 256) as u8).collect();
    ImageItem::from(levels, label)
}

fn numbers(bytes: &[u8]) -> Vec<f32> {
    bytes.chunks_exact(4).map(|c| f32::from_ne_bytes([c[0], c[1], c[2], c[3]])).collect()
}

#[test]
fn scale_is_the_level_of_white() {
    assert_eq!(PIXEL_SCALE, u8::MAX);
}

#[test]
fn labels_are_stacked_in_order() {
    let samples = vec![item(0, 3), item(1, -7), item(2, 3), item(3, 2147483647)];
    assert_eq!(stack_labels(&samples), vec![3, -7, 3, 2147483647]);
    assert_eq!(stack_labels(&Vec::new()), Vec::<i32>::new());
}

#[test]
fn levels_are_stacked_image_after_image() {
    let samples = vec![item(0, 1), item(1, 2), item(2, 3)];
    let levels = stack_levels(&samples);
    assert_eq!(levels.len(), 3 * IMG_PIXELS);
    for (i, sample) in samples.iter().enumerate() {
        assert_eq!(&levels[i * IMG_PIXELS..(i + 1) * IMG_PIXELS], &sample.image[..]);
    }
    assert_eq!(levels[4500], samples[1].image[0]);
    assert_eq!(levels[13499], samples[2].image[4499]);
    assert!(stack_levels(&Vec::new()).is_empty());
}

#[test]
fn batch_has_the_shapes_of_its_samples() {
    let device = NdArrayDevice::default();
    for count in [1usize, 2, 5] {
        let samples: Vec<ImageItem> = (0..count).map(|i| item(i, i as i32)).collect();
        let batch = MnistBatcher::default().batch(samples, &device);
        assert_eq!(batch.images.dims(), [count, IMG_WIDTH, IMG_HEIGHT]);
        assert_eq!(batch.images.dims(), [count, 90, 50]);
        assert_eq!(batch.targets.dims(), [count]);
    }
}

#[test]
fn batch_targets_are_the_labels_in_order() {
    let device = NdArrayDevice::default();
    let samples = vec![item(0, 3), item(1, 3), item(2, 7), item(3, -12), item(4, 0)];
    let batch = MnistBatcher {}.batch(samples, &device);
    assert_eq!(numbers(&batch.targets.to_bytes()), vec![3.0, 3.0, 7.0, -12.0, 0.0]);
}

#[test]
fn batch_images_are_the_levels_over_the_scale() {
    let device = NdArrayDevice::default();
    let samples = vec![item(0, 1), item(1, 2), item(2, 3)];
    let batch = MnistBatcher::default().batch(samples.clone(), &device);
    let bytes = batch.images.to_bytes();
    assert_eq!(bytes.len(), 4 * 3 * IMG_PIXELS);
    let values = numbers(&bytes);
    for (i, sample) in samples.iter().enumerate() {
        for (j, level) in sample.image.iter().enumerate() {
            let value = values[i * IMG_PIXELS + j];
            assert_eq!(value, *level as f32 / 255.0);
            assert!((0.0..=1.0).contains(&value));
        }
    }
}

#[test]
fn black_and_white_become_zero_and_one() {
    let device = NdArrayDevice::default();
    let mut levels = vec![0u8; IMG_PIXELS];
    levels[1] = 255;
    levels[2] = 51;
    let batch = MnistBatcher::default().batch(vec![ImageItem::from(levels, 0)], &device);
    let values = numbers(&batch.images.to_bytes());
    assert_eq!(values[0], 0.0);
    assert_eq!(values[1], 1.0);
    assert_eq!(values[2], 0.2);
    assert_eq!(values[3], 0.0);
}

#[test]
fn batch_of_the_same_samples_is_the_same_batch() {
    let device = NdArrayDevice::default();
    let samples = vec![item(4, 9), item(5, 8)];
    let first = MnistBatcher::default().batch(samples.clone(), &device);
    let second = MnistBatcher::default().batch(samples, &device);
    assert_eq!(first.images.to_bytes(), second.images.to_bytes());
    assert_eq!(first.targets.to_bytes(), second.targets.to_bytes());
}

#[test]
fn copy_of_a_tensor_holds_the_same() {
    let device = NdArrayDevice::default();
    let batch = MnistBatcher::default().batch(vec![item(0, 5), item(1, 6)], &device);
    let copy = batch.targets.clone();
    assert_eq!(copy.dims(), batch.targets.dims());
    assert_eq!(copy.to_bytes(), batch.targets.to_bytes());
}

#[test]
fn tensor_of_labels_holds_them_in_order() {
    let device = NdArrayDevice::default();
    let tensor = Tensor::<1>::from_labels(vec![5, -3, 0, 16777216], &device);
    assert_eq!(tensor.dims(), [4]);
    assert_eq!(numbers(&tensor.to_bytes()), vec![5.0, -3.0, 0.0, 16777216.0]);
    let empty = Tensor::<1>::from_labels(Vec::new(), &device);
    assert_eq!(empty.dims(), [0]);
    assert!(empty.to_bytes().is_empty());
}

#[test]
fn tensor_of_levels_holds_them_over_the_scale() {
    let device = NdArrayDevice::default();
    let tensor = Tensor::<3>::from_levels(vec![0, 1, 2, 3, 4, 5], [1, 2, 3], 2, &device).unwrap();
    assert_eq!(tensor.dims(), [1, 2, 3]);
    assert_eq!(numbers(&tensor.to_bytes()), vec![0.0, 0.5, 1.0, 1.5, 2.0, 2.5]);
    let other = Tensor::<3>::from_levels(vec![10, 20, 30, 40], [2, 2, 1], 10, &device).unwrap();
    assert_eq!(other.dims(), [2, 2, 1]);
    assert_eq!(numbers(&other.to_bytes()), vec![1.0, 2.0, 3.0, 4.0]);
}

#[test]
fn tensor_of_levels_wants_the_shape_filled() {
    let device = NdArrayDevice::default();
    assert!(Tensor::<3>::from_levels(vec![0; 5], [1, 2, 3], 255, &device).is_none());
    assert!(Tensor::<3>::from_levels(vec![0; 7], [1, 2, 3], 255, &device).is_none());
    assert!(Tensor::<3>::from_levels(Vec::new(), [1, 2, 3], 255, &device).is_none());
    assert!(Tensor::<3>::from_levels(vec![0; 6], [usize::MAX, 2, 3], 255, &device).is_none());
    assert!(Tensor::<3>::from_levels(vec![0; 6], [2, usize::MAX, 1], 255, &device).is_none());
    assert!(Tensor::<3>::from_levels(vec![0; 6], [3, 2, usize::MAX], 255, &device).is_none());
    assert!(Tensor::<3>::from_levels(Vec::new(), [usize::MAX, usize::MAX, 0], 255, &device)
        .is_none());
    assert!(Tensor::<3>::from_levels(vec![0; 6], [1, 2, 3], 255, &device).is_some());
}

#[test]
fn tensor_of_levels_wants_no_empty_side() {
    let device = NdArrayDevice::default();
    assert!(Tensor::<3>::from_levels(Vec::new(), [0, 2, 3], 255, &device).is_none());
    assert!(Tensor::<3>::from_levels(Vec::new(), [1, 0, 3], 255, &device).is_none());
    assert!(Tensor::<3>::from_levels(Vec::new(), [1, 2, 0], 255, &device).is_none());
    assert!(Tensor::<3>::from_levels(Vec::new(), [usize::MAX, 0, 5], 255, &device).is_none());
    assert!(Tensor::<3>::from_levels(Vec::new(), [0, usize::MAX, usize::MAX], 255, &device)
        .is_none());
    assert!(Tensor::<3>::from_levels(Vec::new(), [0, 0, 0], 255, &device).is_none());
    assert!(Tensor::<3>::from_levels(vec![9], [1, 1, 1], 255, &device).is_some());
}

#[test]
fn room_is_counted_in_bytes() {
    assert_eq!(ELEMENT_BYTES, 4);
    assert!(has_room(0));
    assert!(has_room(1));
    assert!(has_room(isize::MAX as usize / 4));
    assert!(!has_room(isize::MAX as usize / 4 + 1));
    assert!(!has_room(isize::MAX as usize));
    assert!(!has_room(usize::MAX));
}

#[test]
fn checked_batch_is_the_batch() {
    let device = NdArrayDevice::default();
    let samples = vec![item(0, 3), item(1, 7)];
    let batch = MnistBatcher::default().batch(samples.clone(), &device);
    let checked = MnistBatcher::default().try_batch(samples, &device).unwrap();
    assert_eq!(checked.images.dims(), [2, 90, 50]);
    assert_eq!(checked.targets.dims(), [2]);
    assert_eq!(checked.images.to_bytes(), batch.images.to_bytes());
    assert_eq!(checked.targets.to_bytes(), batch.targets.to_bytes());
}

#[test]
fn checked_batch_wants_a_sample() {
    let device = NdArrayDevice::default();
    assert!(MnistBatcher::default().try_batch(Vec::new(), &device).is_none());
}
