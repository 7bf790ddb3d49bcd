//! Tensors of the `burn` crate, on its CPU backend.
//!
//! A tensor holds single-precision numbers, which this crate never reads.
//! What the contracts speak of is the shape of a tensor, and what a tensor is
//! made of: each call that makes a tensor has a name for what it gives, which
//! depends on what the call is given and on nothing else.

use burn::backend::ndarray::NdArrayDevice;
use vstd::prelude::*;

verus! {

/// The number of bytes that an element of a tensor takes.
pub const ELEMENT_BYTES: usize = 4;

/// A tensor of `count` elements fits the machine: its bytes are no more than
/// the largest size of an allocation.
pub open spec fn fits(count: int) -> bool {
    count * ELEMENT_BYTES as int <= isize::MAX
}

/// The device of the CPU backend, `burn::backend::ndarray::NdArrayDevice`.
#[verifier::external_type_specification]
#[verifier::external_body]
pub struct ExNdArrayDevice(NdArrayDevice);

/// A tensor of `D` dimensions: a `burn::tensor::Tensor` of the backend
/// `burn::backend::NdArray`.
///
/// Trusted: the verifier sees nothing of what a tensor holds.
#[verifier::external_body]
#[derive(Debug)]
pub struct Tensor<const D: usize> {
    pub(crate) inner: burn::tensor::Tensor<burn::backend::NdArray, D>,
}

/// The size of a tensor along its one dimension.
pub uninterp spec fn shape1(tensor: Tensor<1>) -> Seq<nat>;

/// The sizes of a tensor along its two dimensions.
pub uninterp spec fn shape2(tensor: Tensor<2>) -> Seq<nat>;

/// The sizes of a tensor along its three dimensions.
pub uninterp spec fn shape3(tensor: Tensor<3>) -> Seq<nat>;

/// The sizes of a tensor along its four dimensions.
pub uninterp spec fn shape4(tensor: Tensor<4>) -> Seq<nat>;

/// The tensor of one dimension whose elements are these integers, each
/// converted to a number of single precision, in this order.
pub uninterp spec fn label_tensor(labels: Seq<i32>) -> Tensor<1>;

/// The tensor of this shape whose elements are these bytes, row by row, each
/// converted to a number of single precision.
pub uninterp spec fn level_tensor(levels: Seq<u8>, shape: Seq<nat>) -> Tensor<3>;

/// The tensor whose elements are those of `tensor`, each divided by
/// `divisor`.
pub uninterp spec fn divided(tensor: Tensor<3>, divisor: u8) -> Tensor<3>;

/// The tensor of four dimensions that holds the elements of `tensor`, in
/// their order, in this shape.
pub uninterp spec fn reshaped4(tensor: Tensor<3>, shape: Seq<nat>) -> Tensor<4>;

/// The tensor of two dimensions that holds the elements of `tensor`, in
/// their order, in this shape.
pub uninterp spec fn reshaped2(tensor: Tensor<4>, shape: Seq<nat>) -> Tensor<2>;

/// The tensor of two dimensions that holds the elements of `tensor`, in
/// their order, with a dimension of size 1 put in at position `dim`.
pub uninterp spec fn unsqueezed(tensor: Tensor<1>, dim: nat) -> Tensor<2>;

/// `Tensor::dims` on a tensor of one dimension.
///
/// Trusted: what it returns is the shape.
#[verifier::external_body]
pub(crate) fn dims1(tensor: &Tensor<1>) -> (dims: [usize; 1])
    ensures
        shape1(*tensor) == seq![dims[0] as nat],
{
    tensor.inner.dims()
}

/// `Tensor::dims` on a tensor of two dimensions.
///
/// Trusted: what it returns is the shape.
#[verifier::external_body]
pub(crate) fn dims2(tensor: &Tensor<2>) -> (dims: [usize; 2])
    ensures
        shape2(*tensor) == seq![dims[0] as nat, dims[1] as nat],
{
    tensor.inner.dims()
}

/// `Tensor::dims` on a tensor of three dimensions.
///
/// Trusted: what it returns is the shape.
#[verifier::external_body]
pub(crate) fn dims3(tensor: &Tensor<3>) -> (dims: [usize; 3])
    ensures
        shape3(*tensor) == seq![dims[0] as nat, dims[1] as nat, dims[2] as nat],
{
    tensor.inner.dims()
}

/// `Tensor::to_data` and `TensorData::as_bytes` on a tensor of one dimension.
///
/// Trusted: every element takes four bytes.
#[verifier::external_body]
pub(crate) fn bytes1(tensor: &Tensor<1>) -> (bytes: Vec<u8>)
    ensures
        bytes.len() == ELEMENT_BYTES * shape1(*tensor)[0],
{
    tensor.inner.to_data().as_bytes().to_vec()
}

/// `Tensor::to_data` and `TensorData::as_bytes` on a tensor of two dimensions.
///
/// Trusted: every element takes four bytes.
#[verifier::external_body]
pub(crate) fn bytes2(tensor: &Tensor<2>) -> (bytes: Vec<u8>)
    ensures
        bytes.len() == ELEMENT_BYTES * (shape2(*tensor)[0] * shape2(*tensor)[1]),
{
    tensor.inner.to_data().as_bytes().to_vec()
}

/// `Tensor::to_data` and `TensorData::as_bytes` on a tensor of three
/// dimensions.
///
/// Trusted: every element takes four bytes.
#[verifier::external_body]
pub(crate) fn bytes3(tensor: &Tensor<3>) -> (bytes: Vec<u8>)
    ensures
        bytes.len() == ELEMENT_BYTES * (shape3(*tensor)[0] * shape3(*tensor)[1] * shape3(
            *tensor,
        )[2]),
{
    tensor.inner.to_data().as_bytes().to_vec()
}

/// `Tensor::from_data` on `TensorData::new` of 32-bit integers, which
/// converts each of them to a number of single precision.
///
/// Trusted: the tensor depends on the integers alone, and has one element
/// for each. The integers fit the machine, as those of every vector do.
#[verifier::external_body]
pub(crate) fn tensor_of_labels(labels: Vec<i32>, device: &NdArrayDevice) -> (tensor: Tensor<1>)
    requires
        fits(labels.len() as int),
    ensures
        tensor == label_tensor(labels@),
        shape1(tensor) == seq![labels@.len()],
{
    let count = labels.len();
    let data = burn::tensor::TensorData::new(labels, [count]);
    Tensor { inner: burn::tensor::Tensor::from_data(data, device) }
}

/// `Tensor::from_data` on `TensorData::new` of bytes in a shape, which
/// converts each byte to a number of single precision.
///
/// Trusted: the tensor depends on the bytes and the shape alone, and has the
/// shape asked for. `TensorData::new` panics where the shape does not hold as
/// many elements as there are bytes, and the backend where the elements do
/// not fit the machine.
#[verifier::external_body]
pub(crate) fn tensor_of_levels(levels: Vec<u8>, shape: [usize; 3], device: &NdArrayDevice) -> (tensor:
    Tensor<3>)
    requires
        shape[0] >= 1 && shape[1] >= 1 && shape[2] >= 1,
        fits(shape[0] * shape[1] * shape[2]),
        levels.len() == shape[0] * shape[1] * shape[2],
    ensures
        tensor == level_tensor(levels@, seq![shape[0] as nat, shape[1] as nat, shape[2] as nat]),
        shape3(tensor) == seq![shape[0] as nat, shape[1] as nat, shape[2] as nat],
{
    let data = burn::tensor::TensorData::new(levels, shape);
    Tensor { inner: burn::tensor::Tensor::from_data(data, device) }
}

/// `Tensor::div_scalar`, which divides each element by the divisor,
/// converted to a number of single precision.
///
/// Trusted: the result depends on the tensor and the divisor alone, and has
/// the shape of the tensor.
#[verifier::external_body]
pub(crate) fn scale_down(tensor: Tensor<3>, divisor: u8) -> (scaled: Tensor<3>)
    ensures
        scaled == divided(tensor, divisor),
        shape3(scaled) == shape3(tensor),
{
    Tensor { inner: tensor.inner.div_scalar(divisor) }
}

/// `Tensor::reshape` from three dimensions to four.
///
/// Trusted: the result depends on the tensor and the shape alone, and has
/// the shape asked for. The call multiplies the sizes asked for one after the
/// other, and panics where the two shapes do not hold the same number of
/// elements. No product on the way is over the number of elements of the
/// tensor, since no size asked for is 0.
#[verifier::external_body]
pub(crate) fn reshape3_to_4(tensor: Tensor<3>, shape: [usize; 4]) -> (reshaped: Tensor<4>)
    requires
        shape3(tensor).len() == 3,
        shape[0] >= 1 && shape[1] >= 1 && shape[2] >= 1 && shape[3] >= 1,
        shape3(tensor)[0] * shape3(tensor)[1] * shape3(tensor)[2] == shape[0] * shape[1]
            * shape[2] * shape[3],
    ensures
        reshaped == reshaped4(
            tensor,
            seq![shape[0] as nat, shape[1] as nat, shape[2] as nat, shape[3] as nat],
        ),
        shape4(reshaped) == seq![
            shape[0] as nat,
            shape[1] as nat,
            shape[2] as nat,
            shape[3] as nat,
        ],
{
    Tensor { inner: tensor.inner.reshape(shape) }
}

/// `Tensor::reshape` from four dimensions to two.
///
/// Trusted: the result depends on the tensor and the shape alone, and has
/// the shape asked for. The call panics where the two shapes do not hold the
/// same number of elements, or a size asked for is 0 beside one that is too
/// large for the machine.
#[verifier::external_body]
pub(crate) fn reshape4_to_2(tensor: Tensor<4>, shape: [usize; 2]) -> (reshaped: Tensor<2>)
    requires
        shape4(tensor).len() == 4,
        shape[0] >= 1 && shape[1] >= 1,
        shape4(tensor)[0] * shape4(tensor)[1] * shape4(tensor)[2] * shape4(tensor)[3]
            == shape[0] * shape[1],
    ensures
        reshaped == reshaped2(tensor, seq![shape[0] as nat, shape[1] as nat]),
        shape2(reshaped) == seq![shape[0] as nat, shape[1] as nat],
{
    Tensor { inner: tensor.inner.reshape(shape) }
}

/// `Tensor::unsqueeze_dim` from one dimension to two: a dimension of size 1
/// is put in at position `dim`. The call panics where `dim` is over 1.
///
/// Trusted: the result depends on the tensor and the position alone, and has
/// the shape of the tensor with the 1 put in.
#[verifier::external_body]
pub(crate) fn unsqueeze1_to_2(tensor: Tensor<1>, dim: usize) -> (widened: Tensor<2>)
    requires
        shape1(tensor).len() == 1,
        dim <= 1,
    ensures
        widened == unsqueezed(tensor, dim as nat),
        shape2(widened) == if dim == 0 {
            seq![1nat, shape1(tensor)[0]]
        } else {
            seq![shape1(tensor)[0], 1nat]
        },
{
    Tensor { inner: tensor.inner.unsqueeze_dim(dim) }
}

impl<const D: usize> Clone for Tensor<D> {
    /// `Clone::clone` on the tensor of `burn`.
    ///
    /// Trusted: the copy is the tensor.
    #[verifier::external_body]
    fn clone(&self) -> (copy: Self)
        ensures
            copy == *self,
    {
        Tensor { inner: self.inner.clone() }
    }
}

impl Tensor<1> {
    /// The tensor of these labels, in this order. The labels fit the
    /// machine, as those of every vector do.
    pub fn from_labels(labels: Vec<i32>, device: &NdArrayDevice) -> (tensor: Self)
        requires
            fits(labels.len() as int),
        ensures
            tensor == label_tensor(labels@),
            shape1(tensor) == seq![labels@.len()],
    {
        tensor_of_labels(labels, device)
    }

    /// The size of the tensor along its one dimension.
    pub fn dims(&self) -> (dims: [usize; 1])
        ensures
            shape1(*self) == seq![dims[0] as nat],
    {
        dims1(self)
    }

    /// The elements in order, each as the four bytes of a number of single
    /// precision in the byte order of the machine.
    pub fn to_bytes(&self) -> (bytes: Vec<u8>)
        ensures
            shape1(*self).len() == 1,
            bytes.len() == ELEMENT_BYTES * shape1(*self)[0],
    {
        let _ = dims1(self);
        bytes1(self)
    }
}

impl Tensor<2> {
    /// The sizes of the tensor along its two dimensions.
    pub fn dims(&self) -> (dims: [usize; 2])
        ensures
            shape2(*self) == seq![dims[0] as nat, dims[1] as nat],
    {
        dims2(self)
    }

    /// The elements row by row, each as the four bytes of a number of single
    /// precision in the byte order of the machine.
    pub fn to_bytes(&self) -> (bytes: Vec<u8>)
        ensures
            shape2(*self).len() == 2,
            bytes.len() == ELEMENT_BYTES * (shape2(*self)[0] * shape2(*self)[1]),
    {
        let _ = dims2(self);
        bytes2(self)
    }
}

/// `count` elements fill the shape: no size is 0, there is one element for
/// each place, and the tensor fits the machine.
pub open spec fn fills(count: nat, shape: Seq<nat>) -> bool {
    &&& shape.len() == 3
    &&& shape[0] >= 1 && shape[1] >= 1 && shape[2] >= 1
    &&& fits(shape[0] as int * shape[1] as int * shape[2] as int)
    &&& count as int == shape[0] as int * shape[1] as int * shape[2] as int
}

/// Tells whether a tensor of `count` elements fits the machine.
pub fn has_room(count: usize) -> (room: bool)
    ensures
        room == fits(count as int),
{
    count <= isize::MAX as usize / ELEMENT_BYTES
}

impl Tensor<3> {
    /// The tensor of this shape whose elements are these gray levels over
    /// `scale`, row by row; nothing where the levels do not fill the shape.
    pub fn from_levels(
        levels: Vec<u8>,
        shape: [usize; 3],
        scale: u8,
        device: &NdArrayDevice,
    ) -> (made: Option<Self>)
        ensures
            made is Some <==> fills(
                levels@.len(),
                seq![shape[0] as nat, shape[1] as nat, shape[2] as nat],
            ),
            made matches Some(tensor) ==> {
                &&& tensor == divided(
                    level_tensor(
                        levels@,
                        seq![shape[0] as nat, shape[1] as nat, shape[2] as nat],
                    ),
                    scale,
                )
                &&& shape3(tensor) == seq![shape[0] as nat, shape[1] as nat, shape[2] as nat]
            },
    {
        let ghost wanted = seq![shape[0] as nat, shape[1] as nat, shape[2] as nat];
        assert(wanted[0] == shape[0] && wanted[1] == shape[1] && wanted[2] == shape[2]);
        let given = levels.len();
        if shape[0] == 0 || shape[1] == 0 || shape[2] == 0 {
            return None;
        }
        let rows = match shape[0].checked_mul(shape[1]) {
            Some(rows) => rows,
            None => {
                assert(!fits(shape[0] as int * shape[1] as int * shape[2] as int))
                    by (nonlinear_arith)
                    requires
                        shape[0] as int * shape[1] as int > usize::MAX,
                        shape[2] >= 1,
                        isize::MAX <= usize::MAX,
                ;
                return None;
            },
        };
        assert(shape[0] as int * shape[1] as int * shape[2] as int == rows as int
            * shape[2] as int);
        match rows.checked_mul(shape[2]) {
            Some(count) => {
                if has_room(count) && count == given {
                    assert(fills(levels@.len(), wanted));
                    Some(scale_down(tensor_of_levels(levels, shape, device), scale))
                } else {
                    assert(!fills(levels@.len(), wanted));
                    None
                }
            },
            None => {
                assert(!fills(levels@.len(), wanted));
                None
            },
        }
    }

    /// The sizes of the tensor along its three dimensions.
    pub fn dims(&self) -> (dims: [usize; 3])
        ensures
            shape3(*self) == seq![dims[0] as nat, dims[1] as nat, dims[2] as nat],
    {
        dims3(self)
    }

    /// The elements row by row, each as the four bytes of a number of single
    /// precision in the byte order of the machine.
    pub fn to_bytes(&self) -> (bytes: Vec<u8>)
        ensures
            shape3(*self).len() == 3,
            bytes.len() == ELEMENT_BYTES * (shape3(*self)[0] * shape3(*self)[1] * shape3(
                *self,
            )[2]),
    {
        let _ = dims3(self);
        bytes3(self)
    }
}

} // verus!
