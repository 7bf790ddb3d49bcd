//! The layers of the `burn` crate that the model is made of, on its CPU
//! backend.
//!
//! Each contract states the shape that the layer gives, as the documentation
//! of the layer states it, and names what the layer gives: on this backend
//! that depends on the layer and on its input alone. A layer draws its
//! weights when it is first used and keeps them from then on.

use crate::tensor::{fits, shape1, shape2, shape4, Tensor};
use burn::backend::ndarray::NdArrayDevice;
use burn::nn::pool::AdaptiveAvgPool2d;
use burn::nn::{Dropout, Relu};
use vstd::prelude::*;

verus! {

/// The pooling layer `burn::nn::pool::AdaptiveAvgPool2d`.
#[verifier::external_type_specification]
#[verifier::external_body]
pub struct ExAdaptiveAvgPool2d(AdaptiveAvgPool2d);

/// The dropout layer `burn::nn::Dropout`.
#[verifier::external_type_specification]
#[verifier::external_body]
pub struct ExDropout(Dropout);

/// The activation layer `burn::nn::Relu`.
#[verifier::external_type_specification]
#[verifier::external_body]
pub struct ExRelu(Relu);

/// A convolution over images: a `burn::nn::conv::Conv2d` with stride 1,
/// dilation 1, one group and no padding.
///
/// Trusted: the verifier sees nothing of what the layer holds.
#[verifier::external_body]
#[derive(Debug)]
pub struct Conv2dLayer {
    inner: burn::nn::conv::Conv2d<burn::backend::NdArray>,
}

/// A linear layer with bias: a `burn::nn::Linear`.
///
/// Trusted: the verifier sees nothing of what the layer holds.
#[verifier::external_body]
#[derive(Debug)]
pub struct LinearLayer {
    inner: burn::nn::Linear<burn::backend::NdArray>,
}

/// What a convolution was made with: the number of channels it takes, the
/// number it gives, and the height and width of its kernel.
pub uninterp spec fn conv_geometry(layer: Conv2dLayer) -> Seq<nat>;

/// What a linear layer was made with: the number of features it takes and
/// the number it gives.
pub uninterp spec fn linear_widths(layer: LinearLayer) -> Seq<nat>;

/// The height and width that a pooling layer gives.
pub uninterp spec fn pool_size(layer: AdaptiveAvgPool2d) -> Seq<nat>;

/// What a convolution gives for an input.
pub uninterp spec fn conv_output(layer: Conv2dLayer, input: Tensor<4>) -> Tensor<4>;

/// What a pooling layer gives for an input.
pub uninterp spec fn pool_output(layer: AdaptiveAvgPool2d, input: Tensor<4>) -> Tensor<4>;

/// What a linear layer gives for an input.
pub uninterp spec fn linear_output(layer: LinearLayer, input: Tensor<2>) -> Tensor<2>;

/// The input with each negative element replaced by 0, in two dimensions.
pub uninterp spec fn relu_output2(input: Tensor<2>) -> Tensor<2>;

/// The input with each negative element replaced by 0, in four dimensions.
pub uninterp spec fn relu_output4(input: Tensor<4>) -> Tensor<4>;

/// The mean, over all elements, of the squared difference of the predictions
/// and the targets, in a tensor of one element.
pub uninterp spec fn mse_of(logits: Tensor<2>, targets: Tensor<2>) -> Tensor<1>;

/// `Conv2dConfig::new` and `Conv2dConfig::init`: a convolution with the
/// defaults of the configuration, which are stride 1, dilation 1, one group,
/// no padding, and a bias.
///
/// Trusted: the layer holds the channels and the kernel it was made with. Its
/// weights are drawn at random when it is first used, from a range that is
/// finite only where the layer takes a channel and the kernel is not empty;
/// they have to fit the machine.
#[verifier::external_body]
pub(crate) fn conv_init(channels: [usize; 2], kernel_size: [usize; 2], device: &NdArrayDevice) -> (layer:
    Conv2dLayer)
    requires
        channels[0] >= 1,
        channels[1] >= 1,
        kernel_size[0] >= 1,
        kernel_size[1] >= 1,
        fits(channels[0] * channels[1] * kernel_size[0] * kernel_size[1]),
    ensures
        conv_geometry(layer) == seq![
            channels[0] as nat,
            channels[1] as nat,
            kernel_size[0] as nat,
            kernel_size[1] as nat,
        ],
{
    Conv2dLayer { inner: burn::nn::conv::Conv2dConfig::new(channels, kernel_size).init(device) }
}

/// `Conv2d::forward`, from `[batch_size, channels_in, height_in, width_in]`
/// to `[batch_size, channels_out, height_out, width_out]`. With stride 1,
/// dilation 1 and no padding each side loses the kernel's size less one.
///
/// Trusted: the result depends on the layer and the input alone, and its
/// shape. The call panics where the input has another number of channels
/// than the layer takes, and goes wrong where a side of the input is shorter
/// than the kernel or the result does not fit the machine.
#[verifier::external_body]
pub(crate) fn conv_forward(layer: &Conv2dLayer, input: Tensor<4>) -> (output: Tensor<4>)
    requires
        shape4(input).len() == 4,
        conv_geometry(*layer).len() == 4,
        shape4(input)[0] >= 1,
        shape4(input)[1] == conv_geometry(*layer)[0] >= 1,
        conv_geometry(*layer)[1] >= 1,
        shape4(input)[2] >= conv_geometry(*layer)[2] >= 1,
        shape4(input)[3] >= conv_geometry(*layer)[3] >= 1,
        fits(
            shape4(input)[0] as int * conv_geometry(*layer)[1] as int * (shape4(input)[2]
                - conv_geometry(*layer)[2] + 1) * (shape4(input)[3] - conv_geometry(*layer)[3]
                + 1),
        ),
    ensures
        output == conv_output(*layer, input),
        shape4(output) == seq![
            shape4(input)[0],
            conv_geometry(*layer)[1],
            (shape4(input)[2] - conv_geometry(*layer)[2] + 1) as nat,
            (shape4(input)[3] - conv_geometry(*layer)[3] + 1) as nat,
        ],
{
    Tensor { inner: layer.inner.forward(input.inner) }
}

/// `AdaptiveAvgPool2dConfig::new` and `AdaptiveAvgPool2dConfig::init`.
///
/// Trusted: the layer holds the size it was made with.
#[verifier::external_body]
pub(crate) fn pool_init(output_size: [usize; 2]) -> (layer: AdaptiveAvgPool2d)
    requires
        output_size[0] >= 1,
        output_size[1] >= 1,
    ensures
        pool_size(layer) == seq![output_size[0] as nat, output_size[1] as nat],
{
    burn::nn::pool::AdaptiveAvgPool2dConfig::new(output_size).init()
}

/// `AdaptiveAvgPool2d::forward`, from
/// `[batch_size, channels, height_in, width_in]` to
/// `[batch_size, channels, height_out, width_out]`, whatever the height and
/// width of the input.
///
/// Trusted: the result depends on the layer and the input alone, and its
/// shape. The call panics where the result does not fit the machine.
#[verifier::external_body]
pub(crate) fn pool_forward(layer: &AdaptiveAvgPool2d, input: Tensor<4>) -> (output: Tensor<4>)
    requires
        shape4(input).len() == 4,
        pool_size(*layer).len() == 2,
        shape4(input)[0] >= 1 && shape4(input)[1] >= 1 && shape4(input)[2] >= 1 && shape4(
            input,
        )[3] >= 1,
        pool_size(*layer)[0] >= 1 && pool_size(*layer)[1] >= 1,
        fits(
            shape4(input)[0] as int * shape4(input)[1] as int * pool_size(*layer)[0] as int
                * pool_size(*layer)[1] as int,
        ),
    ensures
        output == pool_output(*layer, input),
        shape4(output) == seq![
            shape4(input)[0],
            shape4(input)[1],
            pool_size(*layer)[0],
            pool_size(*layer)[1],
        ],
{
    Tensor { inner: layer.forward(input.inner) }
}

/// `LinearConfig::new` and `LinearConfig::init`: a linear layer with a bias.
///
/// Trusted: the layer holds the widths it was made with. Its weights are
/// drawn at random when it is first used, from a range that is finite only
/// where the layer takes a feature; they have to fit the machine.
#[verifier::external_body]
pub(crate) fn linear_init(d_input: usize, d_output: usize, device: &NdArrayDevice) -> (layer:
    LinearLayer)
    requires
        d_input >= 1,
        d_output >= 1,
        fits(d_input * d_output),
    ensures
        linear_widths(layer) == seq![d_input as nat, d_output as nat],
{
    LinearLayer { inner: burn::nn::LinearConfig::new(d_input, d_output).init(device) }
}

/// `Linear::forward` on a tensor of two dimensions, from `[..., d_input]` to
/// `[..., d_output]`.
///
/// Trusted: the result depends on the layer and the input alone, and its
/// shape. The call panics where the input has another number of features
/// than the layer takes or no rows, where the layer gives no feature, and
/// where the result does not fit the machine.
#[verifier::external_body]
pub(crate) fn linear_forward(layer: &LinearLayer, input: Tensor<2>) -> (output: Tensor<2>)
    requires
        shape2(input).len() == 2,
        linear_widths(*layer).len() == 2,
        shape2(input)[0] >= 1,
        shape2(input)[1] == linear_widths(*layer)[0] >= 1,
        linear_widths(*layer)[1] >= 1,
        fits(shape2(input)[0] as int * linear_widths(*layer)[1] as int),
    ensures
        output == linear_output(*layer, input),
        shape2(output) == seq![shape2(input)[0], linear_widths(*layer)[1]],
{
    Tensor { inner: layer.inner.forward(input.inner) }
}

/// `Relu::new`.
#[verifier::external_body]
pub(crate) fn relu_init() -> Relu {
    Relu::new()
}

/// `Relu::forward` on a tensor of two dimensions.
///
/// Trusted: the result depends on the input alone and has its shape.
#[verifier::external_body]
pub(crate) fn relu_forward2(layer: &Relu, input: Tensor<2>) -> (output: Tensor<2>)
    ensures
        output == relu_output2(input),
        shape2(output) == shape2(input),
{
    Tensor { inner: layer.forward(input.inner) }
}

/// `Relu::forward` on a tensor of four dimensions.
///
/// Trusted: the result depends on the input alone and has its shape.
#[verifier::external_body]
pub(crate) fn relu_forward4(layer: &Relu, input: Tensor<4>) -> (output: Tensor<4>)
    ensures
        output == relu_output4(input),
        shape4(output) == shape4(input),
{
    Tensor { inner: layer.forward(input.inner) }
}

/// `Dropout::forward`. On a backend without automatic differentiation, as
/// this one is, the layer hands its input back.
///
/// Trusted: the result is the input.
#[verifier::external_body]
pub(crate) fn dropout_forward<const D: usize>(layer: &Dropout, input: Tensor<D>) -> (output:
    Tensor<D>)
    ensures
        output == input,
{
    Tensor { inner: layer.forward(input.inner) }
}

/// `Clone::clone` on a dropout layer.
///
/// Trusted: the copy is the layer.
#[verifier::external_body]
pub(crate) fn dropout_clone(layer: &Dropout) -> (copy: Dropout)
    ensures
        copy == *layer,
{
    layer.clone()
}

/// `MseLoss::new` and `MseLoss::forward` with the reduction
/// `Reduction::Mean`: the mean, over all elements, of the squared difference
/// of the two tensors, in a tensor of one element. A dimension in which the
/// targets have size 1 is stretched to the size of the predictions.
///
/// Trusted: the result depends on the two tensors alone, and its shape. The
/// call panics where the two shapes differ in a dimension in which neither
/// has size 1, and where there is no element to take the mean of.
#[verifier::external_body]
pub(crate) fn mse_mean(logits: Tensor<2>, targets: Tensor<2>) -> (loss: Tensor<1>)
    requires
        shape2(logits).len() == 2,
        shape2(targets).len() == 2,
        forall|i: int| 0 <= i < 2 ==> shape2(logits)[i] >= 1,
        forall|i: int|
            0 <= i < 2 ==> shape2(targets)[i] == shape2(logits)[i] || shape2(targets)[i] == 1,
    ensures
        loss == mse_of(logits, targets),
        shape1(loss) == seq![1nat],
{
    let criterion = burn::nn::loss::MseLoss::new();
    Tensor { inner: criterion.forward(logits.inner, targets.inner, burn::nn::loss::Reduction::Mean) }
}

} // verus!
