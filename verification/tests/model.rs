use burn::backend::ndarray::NdArrayDevice;
use burn::nn::DropoutConfig;
use mion::data::{ImageItem, MnistBatch, MnistBatcher};
use mion::model::{
    Model, ModelConfig, CONV1_CHANNELS, CONV2_CHANNELS, KERNEL_SIZE, MIN_SIDE, POOLED_FEATURES,
    POOLED_SIZE,
};
use mion::tensor::Tensor;
use mion::IMG_PIXELS;

fn item(seed: usize, label: i32) -> ImageItem {
    let levels: Vec<u8> = (0..IMG_PIXELS).map(|i| ((i * 13 + seed * 101) % 256) as u8).collect();
    ImageItem::from(levels, label)
}

fn batch_of(count: usize) -> MnistBatch {
    let samples: Vec<ImageItem> = (0..count).map(|i| item(i, 3 * i as i32 - 2)).collect();
    MnistBatcher::default().batch(samples, &NdArrayDevice::default())
}

fn model_of(num_classes: usize, hidden_size: usize) -> Model {
    let dropout = DropoutConfig::new(0.5).init();
    ModelConfig::new(num_classes, hidden_size, dropout).init(&NdArrayDevice::default())
}

fn images_of(count: usize, width: usize, height: usize) -> Tensor<3> {
    let levels: Vec<u8> = (0..count * width * height).map(|i| ((i * 37) % 256) as u8).collect();
    Tensor::<3>::from_levels(levels, [count, width, height], 255, &NdArrayDevice::default())
        .unwrap()
}

fn numbers(bytes: &[u8]) -> Vec<f32> {
    bytes.chunks_exact(4).map(|c| f32::from_ne_bytes([c[0], c[1], c[2], c[3]])).collect()
}

#[test]
fn architecture_constants_fit_together() {
    assert_eq!(CONV1_CHANNELS, 8);
    assert_eq!(CONV2_CHANNELS, 16);
    assert_eq!(KERNEL_SIZE, 3);
    assert_eq!(POOLED_SIZE, 8);
    assert_eq!(POOLED_FEATURES, 16 * 8 * 8);
    assert_eq!(MIN_SIDE, 5);
}

#[test]
fn forward_gives_one_row_for_each_image() {
    let model = model_of(10, 32);
    for count in [1usize, 2, 4] {
        let output = model.forward(batch_of(count).images);
        assert_eq!(output.dims(), [count, 10]);
        assert_eq!(output.to_bytes().len(), 4 * count * 10);
    }
}

#[test]
fn forward_gives_as_many_columns_as_the_model_predicts() {
    for num_classes in [1usize, 3, 10] {
        let output = model_of(num_classes, 16).forward(batch_of(2).images);
        assert_eq!(output.dims(), [2, num_classes]);
    }
}

#[test]
fn forward_does_not_depend_on_the_hidden_width() {
    for hidden_size in [1usize, 7, 64] {
        let output = model_of(4, hidden_size).forward(batch_of(3).images);
        assert_eq!(output.dims(), [3, 4]);
    }
}

#[test]
fn forward_gives_numbers() {
    let output = model_of(2, 8).forward(batch_of(3).images);
    for value in numbers(&output.to_bytes()) {
        assert!(value.is_finite());
    }
}

#[test]
fn forward_twice_on_the_same_images_gives_the_same() {
    let model = model_of(5, 24);
    let first = model.forward(batch_of(3).images);
    let second = model.forward(batch_of(3).images);
    assert_eq!(first.to_bytes(), second.to_bytes());
}

#[test]
fn step_gives_loss_predictions_and_targets() {
    let model = model_of(10, 32);
    let step = model.forward_step(batch_of(4));
    assert_eq!(step.loss.dims(), [1]);
    assert_eq!(step.output.dims(), [4, 10]);
    assert_eq!(step.targets.dims(), [4, 1]);
    assert_eq!(numbers(&step.targets.to_bytes()), vec![-2.0, 1.0, 4.0, 7.0]);
}

#[test]
fn step_loss_is_not_negative() {
    let model = model_of(1, 16);
    for count in [1usize, 2, 5] {
        let loss = numbers(&model.forward_step(batch_of(count)).loss.to_bytes());
        assert_eq!(loss.len(), 1);
        assert!(loss[0] >= 0.0);
        assert!(loss[0].is_finite());
    }
}

#[test]
fn step_loss_is_the_mean_squared_error() {
    let model = model_of(1, 16);
    let step = model.forward_step(batch_of(3));
    let output = numbers(&step.output.to_bytes());
    let targets = numbers(&step.targets.to_bytes());
    let loss = numbers(&step.loss.to_bytes())[0];
    let mut sum = 0.0f64;
    for (o, t) in output.iter().zip(targets.iter()) {
        sum += ((o - t) as f64) * ((o - t) as f64);
    }
    let mean = (sum / 3.0) as f32;
    assert!((loss - mean).abs() <= 1e-4 * mean.abs().max(1.0));
}

#[test]
fn step_loss_stretches_the_targets_over_the_predictions() {
    let model = model_of(3, 16);
    let step = model.forward_step(batch_of(2));
    let output = numbers(&step.output.to_bytes());
    let targets = numbers(&step.targets.to_bytes());
    let loss = numbers(&step.loss.to_bytes())[0];
    let mut sum = 0.0f64;
    for row in 0..2 {
        for column in 0..3 {
            let d = (output[row * 3 + column] - targets[row]) as f64;
            sum += d * d;
        }
    }
    let mean = (sum / 6.0) as f32;
    assert!((loss - mean).abs() <= 1e-4 * mean.abs().max(1.0));
}

#[test]
fn valid_step_twice_on_the_same_batch_gives_the_same() {
    let model = model_of(10, 32);
    let first = model.valid_step(batch_of(3));
    let second = model.valid_step(batch_of(3));
    assert_eq!(first.loss.to_bytes(), second.loss.to_bytes());
    assert_eq!(first.output.to_bytes(), second.output.to_bytes());
    assert_eq!(first.targets.to_bytes(), second.targets.to_bytes());
}

#[test]
fn valid_step_is_the_forward_step() {
    let model = model_of(2, 8);
    let valid = model.valid_step(batch_of(2));
    let forward = model.forward_step(batch_of(2));
    assert_eq!(valid.loss.to_bytes(), forward.loss.to_bytes());
    assert_eq!(valid.output.to_bytes(), forward.output.to_bytes());
}

#[test]
fn dropout_probability_does_not_change_a_valid_step() {
    let device = NdArrayDevice::default();
    let model = ModelConfig::new(2, 8, DropoutConfig::new(1.0).init()).init(&device);
    let first = model.valid_step(batch_of(2));
    let second = model.valid_step(batch_of(2));
    assert_eq!(first.output.to_bytes(), second.output.to_bytes());
    for value in numbers(&first.output.to_bytes()) {
        assert!(value.is_finite());
    }
}

#[test]
fn forward_shape_does_not_depend_on_the_size_of_the_images() {
    let model = model_of(10, 32);
    for (width, height) in [(90usize, 50usize), (50, 90), (64, 64), (12, 31), (8, 8), (5, 200)] {
        for count in [1usize, 3] {
            let images = images_of(count, width, height);
            assert_eq!(images.dims(), [count, width, height]);
            assert_eq!(model.forward(images).dims(), [count, 10]);
        }
    }
}

#[test]
fn forward_takes_the_smallest_images() {
    let model = model_of(3, 4);
    let output = model.forward(images_of(2, MIN_SIDE, MIN_SIDE));
    assert_eq!(output.dims(), [2, 3]);
    for value in numbers(&output.to_bytes()) {
        assert!(value.is_finite());
    }
}

#[test]
fn step_shape_does_not_depend_on_the_size_of_the_images() {
    let model = model_of(1, 8);
    let device = NdArrayDevice::default();
    for (width, height) in [(20usize, 30usize), (7, 9)] {
        let batch = MnistBatch {
            images: images_of(4, width, height),
            targets: Tensor::<1>::from_labels(vec![1, 2, 3, 4], &device),
        };
        let step = model.valid_step(batch);
        assert_eq!(step.loss.dims(), [1]);
        assert_eq!(step.output.dims(), [4, 1]);
        assert_eq!(step.targets.dims(), [4, 1]);
        assert!(numbers(&step.loss.to_bytes())[0] >= 0.0);
    }
}

#[test]
fn configuration_keeps_what_it_was_made_with() {
    let config = ModelConfig::new(10, 512, DropoutConfig::new(0.5).init());
    assert_eq!(config.num_classes(), 10);
    assert_eq!(config.hidden_size(), 512);
    assert_eq!(config.dropout().prob, 0.5);
    let other = ModelConfig::new(1, 1, DropoutConfig::new(0.0).init());
    assert_eq!(other.num_classes(), 1);
    assert_eq!(other.hidden_size(), 1);
    assert_eq!(other.dropout().prob, 0.0);
}

#[test]
fn activations_bend_the_model() {
    // An affine map f has f(x) + f(y) = f(x + y) + f(0); the model has not.
    let device = NdArrayDevice::default();
    let model = model_of(4, 16);
    let side = 12usize;
    let of = |levels: Vec<u8>| {
        let images = Tensor::<3>::from_levels(levels, [1, side, side], 255, &device).unwrap();
        numbers(&model.forward(images).to_bytes())
    };
    let zero = of(vec![0; side * side]);
    let mut bent = false;
    for seed in 0..8usize {
        let x: Vec<u8> = (0..side * side).map(|i| ((i * 29 + seed * 53) % 128) as u8).collect();
        let y: Vec<u8> = (0..side * side).map(|i| ((i * 71 + seed * 17) % 128) as u8).collect();
        let sum: Vec<u8> = x.iter().zip(y.iter()).map(|(a, b)| a + b).collect();
        let (fx, fy, fs) = (of(x), of(y), of(sum));
        for k in 0..4 {
            let gap = (fx[k] + fy[k] - fs[k] - zero[k]).abs();
            let size = fx[k].abs().max(fy[k].abs()).max(fs[k].abs()).max(zero[k].abs());
            if gap > 1e-3 * size.max(1e-6) {
                bent = true;
            }
        }
    }
    assert!(bent);
}

#[test]
fn configuration_wants_positive_sizes_that_fit() {
    assert!(ModelConfig::accepts(10, 512));
    assert!(ModelConfig::accepts(1, 1));
    assert!(!ModelConfig::accepts(0, 512));
    assert!(!ModelConfig::accepts(10, 0));
    assert!(!ModelConfig::accepts(0, 0));
    assert!(!ModelConfig::accepts(1, usize::MAX));
    assert!(!ModelConfig::accepts(usize::MAX, 1));
    assert!(!ModelConfig::accepts(usize::MAX, usize::MAX));
    assert!(!ModelConfig::accepts(1, isize::MAX as usize / 4096 + 1));
    assert!(ModelConfig::accepts(1, isize::MAX as usize / 4096));
}

#[test]
fn model_takes_images_that_leave_a_pixel() {
    let model = model_of(10, 32);
    assert!(model.accepts([1, 5, 5]));
    assert!(model.accepts([3, 90, 50]));
    assert!(model.accepts([64, 90, 50]));
    assert!(!model.accepts([0, 90, 50]));
    assert!(!model.accepts([1, 4, 50]));
    assert!(!model.accepts([1, 90, 4]));
    assert!(!model.accepts([1, 4, 4]));
    assert!(!model.accepts([1, 0, 0]));
    assert!(!model.accepts([usize::MAX, 5, 5]));
    assert!(!model.accepts([1, usize::MAX, 5]));
    assert!(!model.accepts([1, 5, usize::MAX]));
    assert!(!model.accepts([usize::MAX, usize::MAX, usize::MAX]));
}

#[test]
fn step_targets_are_the_labels_as_a_column() {
    let device = NdArrayDevice::default();
    let model = model_of(1, 32);
    let samples = vec![
        ImageItem::from(vec![0u8; 4500], 3),
        ImageItem::from(vec![255u8; 4500], 7),
    ];
    let out = model.forward_step(MnistBatcher {}.batch(samples, &device));
    assert_eq!(out.loss.dims(), [1]);
    assert!(numbers(&out.loss.to_bytes())[0] >= 0.0);
    assert_eq!(out.output.dims(), [2, 1]);
    assert_eq!(out.targets.dims(), [2, 1]);
    assert_eq!(numbers(&out.targets.to_bytes()), vec![3.0, 7.0]);
}

#[test]
fn step_output_is_what_forward_gives() {
    let model = model_of(4, 16);
    let step = model.forward_step(batch_of(3));
    let output = model.forward(batch_of(3).images);
    assert_eq!(step.output.to_bytes(), output.to_bytes());
}
