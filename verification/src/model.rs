//! The regression model: two convolutions, an adaptive average pooling and
//! two linear layers.

use crate::data::MnistBatch;
use crate::layers::{
    conv_forward, conv_geometry, conv_init, conv_output, dropout_clone, dropout_forward,
    linear_forward, linear_init, linear_output, linear_widths, mse_mean, mse_of, pool_forward,
    pool_init, pool_output, pool_size, relu_forward2, relu_forward4, relu_init, relu_output2,
    relu_output4, Conv2dLayer, LinearLayer,
};
use crate::tensor::{
    dims3, fits, has_room, reshape3_to_4, reshape4_to_2, reshaped2, reshaped4, shape1, shape2,
    shape3, shape4, unsqueeze1_to_2, unsqueezed, Tensor,
};
use burn::backend::ndarray::NdArrayDevice;
use burn::nn::pool::AdaptiveAvgPool2d;
use burn::nn::{Dropout, Relu};
use vstd::prelude::*;

verus! {

/// Number of channels that the first convolution gives.
pub const CONV1_CHANNELS: usize = 8;

/// Number of channels that the second convolution gives.
pub const CONV2_CHANNELS: usize = 16;

/// Height and width of the kernel of both convolutions.
pub const KERNEL_SIZE: usize = 3;

/// Height and width that the pooling gives, whatever the size of the images.
pub const POOLED_SIZE: usize = 8;

/// Number of features that the first linear layer takes: what the pooling
/// gives for one image.
pub const POOLED_FEATURES: usize = 1024;

/// The shortest side of an image that leaves a pixel after both
/// convolutions.
pub const MIN_SIDE: usize = 5;

/// The pooled features are the channels of the second convolution times the
/// pooled height and width, and the shortest side is what two convolutions
/// without padding need.
pub proof fn lemma_pooled_features()
    ensures
        POOLED_FEATURES == CONV2_CHANNELS * POOLED_SIZE * POOLED_SIZE,
        MIN_SIDE == 2 * (KERNEL_SIZE - 1) + 1,
{
}

/// The model.
#[derive(Debug)]
pub struct Model {
    conv1: Conv2dLayer,
    conv2: Conv2dLayer,
    pool: AdaptiveAvgPool2d,
    dropout: Dropout,
    linear1: LinearLayer,
    linear2: LinearLayer,
    activation: Relu,
    hidden_size: usize,
    num_classes: usize,
}

/// What a model is made with: the number of values it predicts for an image,
/// the width of its hidden layer, and its dropout layer, which holds the
/// probability of dropping a value during training.
#[derive(Debug)]
pub struct ModelConfig {
    num_classes: usize,
    hidden_size: usize,
    dropout: Dropout,
}

/// What a step gives: the loss, of shape `[1]`, the predictions, of shape
/// `[batch_size, num_classes]`, and the targets, of shape `[batch_size, 1]`.
#[derive(Debug)]
pub struct RegressionOutput {
    pub loss: Tensor<1>,
    pub output: Tensor<2>,
    pub targets: Tensor<2>,
}

/// Both sizes are positive, and the weights of both linear layers fit the
/// machine.
pub open spec fn sizes_fit(num_classes: nat, hidden_size: nat) -> bool {
    &&& num_classes >= 1
    &&& hidden_size >= 1
    &&& fits(POOLED_FEATURES as int * hidden_size as int)
    &&& fits(hidden_size as int * num_classes as int)
}

/// Tells whether a tensor of `a * b * c * d` elements fits the machine.
fn product_has_room(a: usize, b: usize, c: usize, d: usize) -> (room: bool)
    requires
        a >= 1 && b >= 1 && c >= 1 && d >= 1,
    ensures
        room == fits(a as int * b as int * c as int * d as int),
{
    let ab = match a.checked_mul(b) {
        Some(ab) => ab,
        None => {
            assert(!fits(a as int * b as int * c as int * d as int)) by (nonlinear_arith)
                requires
                    a as int * b as int > usize::MAX,
                    c >= 1,
                    d >= 1,
                    isize::MAX <= usize::MAX,
            ;
            return false;
        },
    };
    let abc = match ab.checked_mul(c) {
        Some(abc) => abc,
        None => {
            assert(!fits(a as int * b as int * c as int * d as int)) by (nonlinear_arith)
                requires
                    ab == a as int * b as int,
                    ab as int * c as int > usize::MAX,
                    d >= 1,
                    isize::MAX <= usize::MAX,
            ;
            return false;
        },
    };
    match abc.checked_mul(d) {
        Some(count) => {
            assert(count == a as int * b as int * c as int * d as int) by (nonlinear_arith)
                requires
                    ab == a as int * b as int,
                    abc == ab as int * c as int,
                    count == abc as int * d as int,
            ;
            has_room(count)
        },
        None => {
            assert(!fits(a as int * b as int * c as int * d as int)) by (nonlinear_arith)
                requires
                    ab == a as int * b as int,
                    abc == ab as int * c as int,
                    abc as int * d as int > usize::MAX,
                    isize::MAX <= usize::MAX,
            ;
            false
        },
    }
}

impl ModelConfig {
    /// Both sizes are positive, and the weights fit the machine.
    #[verifier::type_invariant]
    closed spec fn valid(&self) -> bool {
        sizes_fit(self.num_classes as nat, self.hidden_size as nat)
    }

    /// The number of values that the model predicts for an image.
    pub closed spec fn classes(&self) -> nat {
        self.num_classes as nat
    }

    /// The width of the hidden layer.
    pub closed spec fn hidden(&self) -> nat {
        self.hidden_size as nat
    }

    /// The dropout layer.
    pub closed spec fn dropout_layer(&self) -> Dropout {
        self.dropout
    }

    /// The number of values that the model predicts for an image.
    pub fn num_classes(&self) -> (count: usize)
        ensures
            count == self.classes(),
            sizes_fit(self.classes(), self.hidden()),
    {
        proof {
            use_type_invariant(self);
        }
        self.num_classes
    }

    /// The width of the hidden layer.
    pub fn hidden_size(&self) -> (width: usize)
        ensures
            width == self.hidden(),
            sizes_fit(self.classes(), self.hidden()),
    {
        proof {
            use_type_invariant(self);
        }
        self.hidden_size
    }

    /// The dropout layer.
    pub fn dropout(&self) -> (layer: &Dropout)
        ensures
            *layer == self.dropout_layer(),
    {
        &self.dropout
    }

    /// Tells whether a configuration can be made of these sizes.
    pub fn accepts(num_classes: usize, hidden_size: usize) -> (ok: bool)
        ensures
            ok == sizes_fit(num_classes as nat, hidden_size as nat),
    {
        if num_classes == 0 || hidden_size == 0 {
            return false;
        }
        let first = product_has_room(POOLED_FEATURES, hidden_size, 1, 1);
        let second = product_has_room(hidden_size, num_classes, 1, 1);
        assert(POOLED_FEATURES as int * hidden_size as int * 1 * 1 == POOLED_FEATURES as int
            * hidden_size as int);
        assert(hidden_size as int * num_classes as int * 1 * 1 == hidden_size as int
            * num_classes as int);
        first && second
    }

    /// Makes a configuration. Both sizes are positive, and the weights of the
    /// linear layers fit the machine.
    pub fn new(num_classes: usize, hidden_size: usize, dropout: Dropout) -> (config: Self)
        requires
            sizes_fit(num_classes as nat, hidden_size as nat),
        ensures
            config.classes() == num_classes,
            config.hidden() == hidden_size,
            config.dropout_layer() == dropout,
    {
        ModelConfig { num_classes, hidden_size, dropout }
    }

    /// Returns the initialized model: its layers have the sizes of the
    /// architecture and of the configuration, and weights drawn at random.
    pub fn init(&self, device: &NdArrayDevice) -> (model: Model)
        ensures
            model.has_architecture(),
            model.classes() == self.classes(),
            model.hidden() == self.hidden(),
            model.dropout_layer() == self.dropout_layer(),
    {
        proof {
            use_type_invariant(self);
        }
        Model {
            conv1: conv_init([1, CONV1_CHANNELS], [KERNEL_SIZE, KERNEL_SIZE], device),
            conv2: conv_init([CONV1_CHANNELS, CONV2_CHANNELS], [KERNEL_SIZE, KERNEL_SIZE], device),
            pool: pool_init([POOLED_SIZE, POOLED_SIZE]),
            activation: relu_init(),
            linear1: linear_init(POOLED_FEATURES, self.hidden_size, device),
            linear2: linear_init(self.hidden_size, self.num_classes, device),
            dropout: dropout_clone(&self.dropout),
            hidden_size: self.hidden_size,
            num_classes: self.num_classes,
        }
    }
}

impl Model {
    /// The layers have the sizes of the architecture, and the model knows
    /// the widths of its linear layers.
    #[verifier::type_invariant]
    closed spec fn well_formed(&self) -> bool {
        &&& self.has_architecture()
        &&& self.hidden_size == linear_widths(self.linear1)[1]
        &&& self.num_classes == linear_widths(self.linear2)[1]
    }

    /// The first convolution.
    pub closed spec fn first_conv(&self) -> Conv2dLayer {
        self.conv1
    }

    /// The second convolution.
    pub closed spec fn second_conv(&self) -> Conv2dLayer {
        self.conv2
    }

    /// The pooling layer.
    pub closed spec fn pooling(&self) -> AdaptiveAvgPool2d {
        self.pool
    }

    /// The first linear layer.
    pub closed spec fn first_linear(&self) -> LinearLayer {
        self.linear1
    }

    /// The second linear layer.
    pub closed spec fn second_linear(&self) -> LinearLayer {
        self.linear2
    }

    /// The dropout layer.
    pub closed spec fn dropout_layer(&self) -> Dropout {
        self.dropout
    }

    /// The number of values that the model predicts for an image.
    pub open spec fn classes(&self) -> nat {
        linear_widths(self.second_linear())[1]
    }

    /// The width of the hidden layer.
    pub open spec fn hidden(&self) -> nat {
        linear_widths(self.first_linear())[1]
    }

    /// The layers have the sizes of the architecture: the first convolution
    /// goes from 1 channel to [`CONV1_CHANNELS`], the second from there to
    /// [`CONV2_CHANNELS`], both with a kernel of [`KERNEL_SIZE`] by
    /// [`KERNEL_SIZE`]; the pooling gives [`POOLED_SIZE`] by [`POOLED_SIZE`];
    /// the first linear layer goes from [`POOLED_FEATURES`] to the hidden
    /// width, the second from there to the number of predicted values.
    pub open spec fn has_architecture(&self) -> bool {
        &&& conv_geometry(self.first_conv()) == seq![
            1nat,
            CONV1_CHANNELS as nat,
            KERNEL_SIZE as nat,
            KERNEL_SIZE as nat,
        ]
        &&& conv_geometry(self.second_conv()) == seq![
            CONV1_CHANNELS as nat,
            CONV2_CHANNELS as nat,
            KERNEL_SIZE as nat,
            KERNEL_SIZE as nat,
        ]
        &&& pool_size(self.pooling()) == seq![POOLED_SIZE as nat, POOLED_SIZE as nat]
        &&& linear_widths(self.first_linear()) == seq![POOLED_FEATURES as nat, self.hidden()]
        &&& linear_widths(self.second_linear()) == seq![self.hidden(), self.classes()]
        &&& sizes_fit(self.classes(), self.hidden())
    }

    /// The model takes images of this shape: there is an image, each side
    /// leaves a pixel after both convolutions, and every tensor on the way
    /// fits the machine. Each convolution takes 2 off each side.
    pub open spec fn takes(&self, shape: Seq<nat>) -> bool {
        &&& shape.len() == 3
        &&& shape[0] >= 1
        &&& shape[1] >= MIN_SIDE
        &&& shape[2] >= MIN_SIDE
        &&& fits(shape[0] as int * CONV1_CHANNELS as int * (shape[1] - 2) * (shape[2] - 2))
        &&& fits(shape[0] as int * CONV2_CHANNELS as int * (shape[1] - 4) * (shape[2] - 4))
        &&& fits(shape[0] as int * CONV2_CHANNELS as int * POOLED_SIZE as int * POOLED_SIZE as int)
        &&& fits(shape[0] as int * self.hidden() as int)
        &&& fits(shape[0] as int * self.classes() as int)
    }

    /// The images with a channel: of shape `[batch_size, 1, height, width]`.
    pub open spec fn with_channel(images: Tensor<3>) -> Tensor<4> {
        reshaped4(images, seq![shape3(images)[0], 1nat, shape3(images)[1], shape3(images)[2]])
    }

    /// What the convolutions and the pooling make of the images: the two
    /// convolutions one after the other, the activation, then the pooling.
    pub open spec fn features(&self, images: Tensor<3>) -> Tensor<4> {
        pool_output(
            self.pooling(),
            relu_output4(
                conv_output(
                    self.second_conv(),
                    conv_output(self.first_conv(), Self::with_channel(images)),
                ),
            ),
        )
    }

    /// What the model predicts for the images, outside training: the
    /// features, one row for each image, through the first linear layer, the
    /// activation, and the second linear layer.
    pub open spec fn predicted(&self, images: Tensor<3>) -> Tensor<2> {
        linear_output(
            self.second_linear(),
            relu_output2(
                linear_output(
                    self.first_linear(),
                    reshaped2(
                        self.features(images),
                        seq![shape3(images)[0], POOLED_FEATURES as nat],
                    ),
                ),
            ),
        )
    }

    /// What a step on a batch gives, outside training: the labels as a
    /// column, the predictions for the images, and the mean squared error of
    /// the predictions against that column.
    pub open spec fn step_of(&self, item: MnistBatch) -> RegressionOutput {
        RegressionOutput {
            loss: mse_of(self.predicted(item.images), unsqueezed(item.targets, 1)),
            output: self.predicted(item.images),
            targets: unsqueezed(item.targets, 1),
        }
    }

    /// Tells whether the model takes images of this shape.
    pub fn accepts(&self, dims: [usize; 3]) -> (ok: bool)
        ensures
            ok == self.takes(seq![dims[0] as nat, dims[1] as nat, dims[2] as nat]),
    {
        proof {
            use_type_invariant(self);
        }
        let ghost shape = seq![dims[0] as nat, dims[1] as nat, dims[2] as nat];
        assert(shape[0] == dims[0] && shape[1] == dims[1] && shape[2] == dims[2]);
        if dims[0] == 0 || dims[1] < MIN_SIDE || dims[2] < MIN_SIDE {
            return false;
        }
        let first = product_has_room(dims[0], CONV1_CHANNELS, dims[1] - 2, dims[2] - 2);
        let second = product_has_room(dims[0], CONV2_CHANNELS, dims[1] - 4, dims[2] - 4);
        let pooled = product_has_room(dims[0], CONV2_CHANNELS, POOLED_SIZE, POOLED_SIZE);
        let hidden = product_has_room(dims[0], self.hidden_size, 1, 1);
        let classes = product_has_room(dims[0], self.num_classes, 1, 1);
        assert(dims[0] as int * self.hidden_size as int * 1 * 1 == dims[0] as int
            * self.hidden_size as int);
        assert(dims[0] as int * self.num_classes as int * 1 * 1 == dims[0] as int
            * self.num_classes as int);
        first && second && pooled && hidden && classes
    }

    /// Predicts the values of each image of a batch.
    ///
    /// # Shapes
    ///   - Images [batch_size, height, width]
    ///   - Output [batch_size, num_classes]
    pub fn forward(&self, images: Tensor<3>) -> (output: Tensor<2>)
        requires
            self.takes(shape3(images)),
        ensures
            output == self.predicted(images),
            shape2(output) == seq![shape3(images)[0], self.classes()],
    {
        proof {
            use_type_invariant(self);
        }
        let dims = dims3(&images);
        let batch_size = dims[0];
        let height = dims[1];
        let width = dims[2];

        // Create a channel.
        assert(batch_size * height * width == batch_size * 1 * height * width);
        let x = reshape3_to_4(images, [batch_size, 1, height, width]);

        let x = conv_forward(&self.conv1, x);  // [batch_size, 8, _, _]
        let x = dropout_forward(&self.dropout, x);
        let x = conv_forward(&self.conv2, x);  // [batch_size, 16, _, _]
        let x = dropout_forward(&self.dropout, x);
        let x = relu_forward4(&self.activation, x);

        let x = pool_forward(&self.pool, x);  // [batch_size, 16, 8, 8]
        assert(batch_size * CONV2_CHANNELS * POOLED_SIZE * POOLED_SIZE == batch_size
            * POOLED_FEATURES);
        let x = reshape4_to_2(x, [batch_size, POOLED_FEATURES]);
        let x = linear_forward(&self.linear1, x);
        let x = dropout_forward(&self.dropout, x);
        let x = relu_forward2(&self.activation, x);

        linear_forward(&self.linear2, x)  // [batch_size, num_classes]
    }

    /// Predicts the values of each image of a batch and measures the mean
    /// squared error of the predictions against the labels.
    pub fn forward_step(&self, item: MnistBatch) -> (step: RegressionOutput)
        requires
            self.takes(shape3(item.images)),
            shape1(item.targets) == seq![shape3(item.images)[0]],
        ensures
            step == self.step_of(item),
            shape1(step.loss) == seq![1nat],
            shape2(step.output) == seq![shape3(item.images)[0], self.classes()],
            shape2(step.targets) == seq![shape3(item.images)[0], 1nat],
    {
        proof {
            use_type_invariant(self);
        }
        let targets = unsqueeze1_to_2(item.targets, 1);
        let output = self.forward(item.images);

        let loss = mse_mean(output.clone(), targets.clone());

        RegressionOutput { loss, output, targets }
    }

    /// The step of validation: the forward step, with no gradient and no
    /// dropout.
    pub fn valid_step(&self, item: MnistBatch) -> (step: RegressionOutput)
        requires
            self.takes(shape3(item.images)),
            shape1(item.targets) == seq![shape3(item.images)[0]],
        ensures
            step == self.step_of(item),
            shape1(step.loss) == seq![1nat],
            shape2(step.output) == seq![shape3(item.images)[0], self.classes()],
            shape2(step.targets) == seq![shape3(item.images)[0], 1nat],
    {
        self.forward_step(item)
    }
}

/// Outside training the model is a function of its layers and the images:
/// two forward passes of one model on the same images give the same
/// predictions, and two steps on the same batch give the same loss,
/// predictions and targets.
pub proof fn lemma_steps_repeat(model: Model, first: MnistBatch, second: MnistBatch)
    requires
        first.images == second.images,
        first.targets == second.targets,
    ensures
        model.predicted(first.images) == model.predicted(second.images),
        model.step_of(first) == model.step_of(second),
        model.step_of(first).output == model.predicted(first.images),
        model.step_of(first).targets == unsqueezed(first.targets, 1),
        model.step_of(first).loss == mse_of(
            model.step_of(first).output,
            model.step_of(first).targets,
        ),
{
}

} // verus!
