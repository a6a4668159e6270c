//! The numeric backend: `candle_core::Tensor` values and the operations on
//! them that the engine calls.
//!
//! A tensor is opaque to the verifier.  A few names describe what the engine
//! needs to know of one: its dimensions, the type and layout of its elements
//! and, where the engine follows them, the bytes or indices it holds.  Every
//! operation below is a thin call into the backend whose contract is taken on
//! trust from the backend's source; what the engine does with the results is
//! proved against those contracts.  A contract says what an accepted call
//! returns, and names arguments on which the backend's source shows that the
//! call is accepted.  It asks that the element counts of the shapes it meets
//! are representable, since the backend multiplies the dimensions out.  All
//! tensors live on the CPU device, the only one that the backend is built
//! with here.

use vstd::prelude::*;
use candle_core::Tensor;
use candle_core::Device;
use candle_core::Module;
use byteorder::ByteOrder;

verus! {

#[verifier::external_type_specification]
#[verifier::external_body]
pub struct ExTensor(candle_core::Tensor);

#[verifier::external_type_specification]
#[verifier::external_body]
pub struct ExBackendError(candle_core::Error);

/// The dimensions of a tensor, outermost first, as `Tensor::dims` reports them.
pub uninterp spec fn tensor_dims(t: Tensor) -> Seq<usize>;

/// The elements of a tensor in row-major order, each in its little-endian
/// encoding.
pub uninterp spec fn tensor_le_bytes(t: Tensor) -> Seq<u8>;

/// Whether the elements of a tensor are 32-bit floats.
pub uninterp spec fn tensor_is_f32(t: Tensor) -> bool;

/// Whether the elements of a tensor are 32-bit unsigned integers.
pub uninterp spec fn tensor_is_u32(t: Tensor) -> bool;

/// Whether the elements of a tensor are 8-bit unsigned integers.
pub uninterp spec fn tensor_is_u8(t: Tensor) -> bool;

/// Whether a tensor is laid out in row-major order, as
/// `Tensor::is_contiguous` reports it.
pub uninterp spec fn tensor_is_contiguous(t: Tensor) -> bool;

/// The elements of a tensor of 32-bit unsigned integers, in row-major order.
pub uninterp spec fn tensor_indices(t: Tensor) -> Seq<u32>;

/// The number of elements of a tensor with the given dimensions.
pub open spec fn numel(dims: Seq<usize>) -> nat
    decreases dims.len(),
{
    if dims.len() == 0 {
        1
    } else {
        (dims[0] as nat) * numel(dims.skip(1))
    }
}

/// Whether the element count of a shape is representable, so that the backend
/// can compute it.
pub open spec fn shape_fits(dims: Seq<usize>) -> bool {
    numel(dims) <= usize::MAX
}

/// Whether a tensor holds 32-bit floats in row-major order.
pub open spec fn dense(t: Tensor) -> bool {
    tensor_is_f32(t) && tensor_is_contiguous(t)
}

/// Whether a tensor of shape `from` can be viewed under the shape `to`: the
/// dimensions of `from` match the last dimensions of `to`, each equal or one.
pub open spec fn broadcasts_to(from: Seq<usize>, to: Seq<usize>) -> bool {
    from.len() <= to.len() && forall|k: int|
        0 <= k < from.len() ==> (#[trigger] from[k] == to[to.len() - from.len() + k] || from[k]
            == 1)
}

/// Bytes in blocks of `block`, each block written `n` times in a row.
pub open spec fn repeat_blocks(src: Seq<u8>, block: nat, n: nat) -> Seq<u8> {
    Seq::new(
        src.len() * n,
        |i: int| src[(i / ((block * n) as int)) * (block as int) + i % (block as int)],
    )
}

/// Two tensors that `Tensor::cat` accepts along a dimension: 32-bit floats
/// in row-major order whose other dimensions agree.
pub open spec fn cat_accepts(a: Tensor, b: Tensor, dim: usize) -> bool {
    dense(a) && dense(b) && tensor_dims(b) == tensor_dims(a).update(
        dim as int,
        tensor_dims(b)[dim as int],
    )
}

/// Two tensors that `Tensor::matmul` accepts: 32-bit floats in row-major
/// order, of one rank from two to four, with equal batch dimensions and
/// matching inner dimension.
pub open spec fn matmul_accepts(a: Tensor, b: Tensor) -> bool {
    let rank = tensor_dims(a).len();
    &&& dense(a)
    &&& dense(b)
    &&& 2 <= rank <= 4
    &&& tensor_dims(b).len() == rank
    &&& tensor_dims(a).take(rank - 2) == tensor_dims(b).take(rank - 2)
    &&& tensor_dims(a)[rank - 1] == tensor_dims(b)[rank - 2]
}

/// A mask and two tensors that `Tensor::where_cond` accepts: 8-bit unsigned
/// integers over 32-bit floats, all of one shape.
pub open spec fn where_accepts(mask: Tensor, on_true: Tensor, on_false: Tensor) -> bool {
    &&& tensor_is_u8(mask)
    &&& tensor_is_f32(on_true)
    &&& tensor_is_f32(on_false)
    &&& tensor_dims(on_true) == tensor_dims(mask)
    &&& tensor_dims(on_false) == tensor_dims(mask)
}

/// An input and a weight that a linear layer accepts: a batch of rows of
/// 32-bit floats in row-major order, not empty, whose width is that of the
/// weight, which holds 32-bit floats.
pub open spec fn linear_accepts(x: Tensor, weight: Tensor) -> bool {
    &&& dense(x)
    &&& tensor_is_f32(weight)
    &&& tensor_dims(weight).len() == 2
    &&& tensor_dims(x).len() == 3
    &&& tensor_dims(x)[0] >= 1
    &&& tensor_dims(x)[1] >= 1
    &&& tensor_dims(x)[2] == tensor_dims(weight)[1]
}

/// A table and indices that an embedding accepts: a table of 32-bit floats
/// in row-major order with `hidden` columns, and indices of 32 bits below
/// the number of its rows.
pub open spec fn embedding_accepts(table: Tensor, hidden: usize, ids: Tensor) -> bool {
    &&& dense(table)
    &&& tensor_dims(table).len() == 2
    &&& tensor_dims(table)[1] == hidden
    &&& tensor_is_u32(ids)
    &&& forall|i: int|
        0 <= i < tensor_indices(ids).len() ==> #[trigger] tensor_indices(ids)[i] < tensor_dims(
            table,
        )[0]
}

/// `Tensor::dims`: the dimensions of `t`.
#[verifier::external_body]
pub(crate) fn shape_of(t: &Tensor) -> (dims: Vec<usize>)
    ensures
        dims@ == tensor_dims(*t),
{
    t.dims().to_vec()
}

/// `Tensor::dtype`: whether the elements of `t` are 32-bit floats.
#[verifier::external_body]
pub(crate) fn is_f32(t: &Tensor) -> (r: bool)
    ensures
        r == tensor_is_f32(*t),
{
    match t.dtype() {
        candle_core::DType::F32 => true,
        _ => false,
    }
}

/// `Tensor::clone`: a second handle on the same tensor.
#[verifier::external_body]
pub(crate) fn share(t: &Tensor) -> (r: Tensor)
    ensures
        r == *t,
{
    t.clone()
}

/// `byteorder::LittleEndian::read_f32_into` followed by `Tensor::from_vec`:
/// decodes `count` little-endian 32-bit floats and lays them out row-major in
/// the given shape, which has `count` elements.  The tensor has the shape,
/// holds exactly the given bytes, and its elements are 32-bit floats.
#[verifier::external_body]
pub(crate) fn tensor_from_le_bytes(bytes: &[u8], count: usize, shape: &[usize]) -> (r: Result<
    Tensor,
    candle_core::Error,
>)
    requires
        bytes@.len() == 4 * count,
        numel(shape@) == count,
    ensures
        r is Ok,
        r matches Ok(t) ==> tensor_dims(t) == shape@ && tensor_le_bytes(t) == bytes@ && dense(t),
{
    let mut data = vec![Default::default(); count];
    byteorder::LittleEndian::read_f32_into(bytes, &mut data);
    Tensor::from_vec(data, shape, &Device::Cpu)
}

/// `Tensor::new` on a slice of 32-bit unsigned integers: a one-dimensional
/// tensor that holds the entries.
#[verifier::external_body]
pub(crate) fn u32_tensor(values: &[u32]) -> (r: Result<Tensor, candle_core::Error>)
    ensures
        r is Ok,
        r matches Ok(t) ==> tensor_dims(t) == seq![values@.len() as usize] && tensor_is_u32(t)
            && tensor_is_contiguous(t) && tensor_indices(t) == values@,
{
    Tensor::new(values, &Device::Cpu)
}

/// `Tensor::from_slice` on bytes: a `side` by `side` tensor of 8-bit unsigned
/// integers that holds the given bytes row by row.
#[verifier::external_body]
pub(crate) fn square_u8_tensor(bytes: &[u8], side: usize) -> (r: Result<
    Tensor,
    candle_core::Error,
>)
    requires
        bytes@.len() == side * side,
    ensures
        r is Ok,
        r matches Ok(t) ==> tensor_dims(t) == seq![side, side] && tensor_le_bytes(t) == bytes@
            && tensor_is_u8(t),
{
    Tensor::from_slice(bytes, (side, side), &Device::Cpu)
}

/// `Tensor::reshape`: the same elements, in the same row-major order, under
/// another shape; the result is laid out in row-major order.  A shape with
/// as many elements is accepted.
#[verifier::external_body]
pub(crate) fn reshape(t: &Tensor, shape: &[usize]) -> (r: Result<Tensor, candle_core::Error>)
    requires
        shape_fits(tensor_dims(*t)),
        shape_fits(shape@),
    ensures
        r matches Ok(out) ==> tensor_dims(out) == shape@ && tensor_le_bytes(out)
            == tensor_le_bytes(*t) && tensor_is_contiguous(out) && tensor_is_f32(out)
            == tensor_is_f32(*t) && tensor_is_u32(out) == tensor_is_u32(*t) && tensor_indices(out)
            == tensor_indices(*t),
        numel(shape@) == numel(tensor_dims(*t)) ==> r is Ok,
{
    t.reshape(shape)
}

/// `Tensor::get`: the `i`-th slice of `t` along its first dimension, laid out
/// in row-major order.  Its elements are the `i`-th of the equal runs into
/// which the first dimension divides the row-major elements of `t`, and they
/// keep their type.  An index below the first dimension is accepted.
#[verifier::external_body]
pub(crate) fn row(t: &Tensor, i: usize) -> (r: Result<Tensor, candle_core::Error>)
    requires
        shape_fits(tensor_dims(*t)),
        tensor_dims(*t).len() >= 1,
        i < usize::MAX,
    ensures
        r matches Ok(out) ==> i < tensor_dims(*t)[0] && tensor_dims(out) == tensor_dims(*t).skip(1)
            && tensor_is_f32(out) == tensor_is_f32(*t) && tensor_is_contiguous(out)
            && tensor_le_bytes(out) == tensor_le_bytes(*t).subrange(
            i * (tensor_le_bytes(*t).len() / (tensor_dims(*t)[0] as nat)),
            (i + 1) * (tensor_le_bytes(*t).len() / (tensor_dims(*t)[0] as nat)),
        ),
        i < tensor_dims(*t)[0] ==> r is Ok,
{
    t.get(i)
}

/// `Tensor::transpose`: the two given dimensions change places.  Dimensions
/// that the tensor has are accepted.
#[verifier::external_body]
pub(crate) fn transpose(t: &Tensor, d1: usize, d2: usize) -> (r: Result<
    Tensor,
    candle_core::Error,
>)
    requires
        shape_fits(tensor_dims(*t)),
    ensures
        r matches Ok(out) ==> d1 < tensor_dims(*t).len() && d2 < tensor_dims(*t).len()
            && tensor_dims(out) == tensor_dims(*t).update(d1 as int, tensor_dims(*t)[d2 as int])
            .update(d2 as int, tensor_dims(*t)[d1 as int]) && tensor_is_f32(out) == tensor_is_f32(
            *t,
        ),
        d1 < tensor_dims(*t).len() && d2 < tensor_dims(*t).len() ==> r is Ok,
{
    t.transpose(d1, d2)
}

/// `Tensor::cat` on two tensors: they are joined along dimension `dim`, whose
/// size becomes the sum of the two sizes; the other dimensions agree.  Two
/// tensors of 32-bit floats in row-major order whose other dimensions agree
/// are accepted, and the result is such a tensor.  Where the dimensions
/// before `dim` are all of size one, the result holds the bytes of the first
/// tensor, then those of the second.
#[verifier::external_body]
pub(crate) fn cat2(a: &Tensor, b: &Tensor, dim: usize) -> (r: Result<Tensor, candle_core::Error>)
    requires
        shape_fits(tensor_dims(*a)),
        shape_fits(tensor_dims(*b)),
        dim < tensor_dims(*a).len(),
        dim < tensor_dims(*b).len(),
        shape_fits(
            tensor_dims(*a).update(
                dim as int,
                (tensor_dims(*a)[dim as int] + tensor_dims(*b)[dim as int]) as usize,
            ),
        ),
        tensor_dims(*a)[dim as int] + tensor_dims(*b)[dim as int] <= usize::MAX,
    ensures
        r matches Ok(out) ==> tensor_dims(out) == tensor_dims(*a).update(
            dim as int,
            (tensor_dims(*a)[dim as int] + tensor_dims(*b)[dim as int]) as usize,
        ) && tensor_dims(*b) == tensor_dims(*a).update(dim as int, tensor_dims(*b)[dim as int])
            && (cat_accepts(*a, *b, dim) ==> dense(out)) && (numel(
            tensor_dims(*a).take(dim as int),
        ) == 1 ==> tensor_le_bytes(out) == tensor_le_bytes(*a) + tensor_le_bytes(*b)),
        cat_accepts(*a, *b, dim) ==> r is Ok,
{
    Tensor::cat(&[a, b], dim)
}

/// `Tensor::narrow`: the `len` entries from `start` on along dimension `dim`.
/// A range inside the dimension is accepted.
#[verifier::external_body]
pub(crate) fn narrow(t: &Tensor, dim: usize, start: usize, len: usize) -> (r: Result<
    Tensor,
    candle_core::Error,
>)
    requires
        shape_fits(tensor_dims(*t)),
        start + len <= usize::MAX,
    ensures
        r matches Ok(out) ==> dim < tensor_dims(*t).len() && start + len <= tensor_dims(
            *t,
        )[dim as int] && tensor_dims(out) == tensor_dims(*t).update(dim as int, len)
            && tensor_is_f32(out) == tensor_is_f32(*t),
        dim < tensor_dims(*t).len() && start + len <= tensor_dims(*t)[dim as int] ==> r is Ok,
{
    t.narrow(dim, start, len)
}

/// `Tensor::matmul`: the batched matrix product.  Both operands have the same
/// rank, at least two; the result has the shape of the left operand with its
/// last dimension replaced by the last dimension of the right operand.  Two
/// tensors of 32-bit floats in row-major order, of rank four at most, with
/// equal batch dimensions and matching inner dimension are accepted, and the
/// result is such a tensor.
#[verifier::external_body]
pub(crate) fn matmul(a: &Tensor, b: &Tensor) -> (r: Result<Tensor, candle_core::Error>)
    requires
        shape_fits(tensor_dims(*a)),
        shape_fits(tensor_dims(*b)),
        tensor_dims(*a).len() >= 2,
        tensor_dims(*b).len() == tensor_dims(*a).len(),
        shape_fits(
            tensor_dims(*a).update(
                tensor_dims(*a).len() - 1,
                tensor_dims(*b)[tensor_dims(*b).len() - 1],
            ),
        ),
    ensures
        r matches Ok(out) ==> tensor_dims(out) == tensor_dims(*a).update(
            tensor_dims(*a).len() - 1,
            tensor_dims(*b)[tensor_dims(*b).len() - 1],
        ) && (matmul_accepts(*a, *b) ==> dense(out)),
        matmul_accepts(*a, *b) ==> r is Ok,
{
    a.matmul(b)
}

/// `Tensor::broadcast_as`: a view of `t` under the larger shape, with
/// elements of the same type.  A shape that the dimensions of `t` match is
/// accepted.  Where the shape differs from that of `t` in one dimension
/// only, of size one in `t`, the view holds the bytes of `t` in the blocks
/// that lie below that dimension, each block as often as the shape says.
#[verifier::external_body]
pub(crate) fn broadcast_as(t: &Tensor, shape: &[usize]) -> (r: Result<Tensor, candle_core::Error>)
    requires
        shape_fits(tensor_dims(*t)),
        shape_fits(shape@),
    ensures
        r matches Ok(out) ==> tensor_dims(out) == shape@ && tensor_is_f32(out) == tensor_is_f32(*t)
            && tensor_is_u8(out) == tensor_is_u8(*t) && forall|d: int|
            0 <= d < shape@.len() && tensor_dims(*t).len() == shape@.len() && tensor_dims(*t)[d]
                == 1 && shape@ == tensor_dims(*t).update(d, shape@[d]) ==> tensor_le_bytes(out)
                == repeat_blocks(
                tensor_le_bytes(*t),
                tensor_le_bytes(*t).len() / numel(#[trigger] tensor_dims(*t).take(d)),
                shape@[d] as nat,
            ),
        broadcasts_to(tensor_dims(*t), shape@) ==> r is Ok,
{
    t.broadcast_as(shape)
}

/// `Tensor::where_cond`: element by element, `on_true` where `mask` is not
/// zero and `on_false` elsewhere.  All three have the same shape.  A mask of
/// 8-bit unsigned integers over two tensors of 32-bit floats of its shape is
/// accepted, and the result holds 32-bit floats in row-major order.
#[verifier::external_body]
pub(crate) fn where_cond(mask: &Tensor, on_true: &Tensor, on_false: &Tensor) -> (r: Result<
    Tensor,
    candle_core::Error,
>)
    requires
        shape_fits(tensor_dims(*mask)),
    ensures
        r matches Ok(out) ==> tensor_dims(out) == tensor_dims(*mask) && tensor_dims(*on_true)
            == tensor_dims(*mask) && tensor_dims(*on_false) == tensor_dims(*mask) && (where_accepts(
            *mask,
            *on_true,
            *on_false,
        ) ==> dense(out)),
        where_accepts(*mask, *on_true, *on_false) ==> r is Ok,
{
    mask.where_cond(on_true, on_false)
}

/// `Tensor::contiguous`: the same tensor laid out in row-major order.  A
/// tensor of 32-bit floats is accepted.
#[verifier::external_body]
pub(crate) fn contiguous(t: &Tensor) -> (r: Result<Tensor, candle_core::Error>)
    requires
        shape_fits(tensor_dims(*t)),
    ensures
        r matches Ok(out) ==> tensor_dims(out) == tensor_dims(*t) && tensor_is_contiguous(out)
            && tensor_is_f32(out) == tensor_is_f32(*t) && tensor_le_bytes(out) == tensor_le_bytes(
            *t,
        ),
        tensor_is_f32(*t) ==> r is Ok,
{
    t.contiguous()
}

/// `Tensor::to_dtype` with the 32-bit float type: the elements converted, the
/// shape kept, a row-major layout kept.  Floats and unsigned integers of 32
/// bits are accepted.
#[verifier::external_body]
pub(crate) fn to_float(t: &Tensor) -> (r: Result<Tensor, candle_core::Error>)
    requires
        shape_fits(tensor_dims(*t)),
    ensures
        r matches Ok(out) ==> tensor_dims(out) == tensor_dims(*t) && tensor_is_f32(out) && (
        tensor_is_contiguous(*t) ==> tensor_is_contiguous(out)),
        tensor_is_f32(*t) || tensor_is_u32(*t) ==> r is Ok,
{
    t.to_dtype(candle_core::DType::F32)
}

/// `Tensor::silu`: the sigmoid-weighted linear unit of every element.  The tensor holds
/// 32-bit floats, and so does the result.
#[verifier::external_body]
pub(crate) fn silu(t: &Tensor) -> (r: Result<Tensor, candle_core::Error>)
    requires
        shape_fits(tensor_dims(*t)),
        tensor_is_f32(*t),
    ensures
        r is Ok,
        r matches Ok(out) ==> tensor_dims(out) == tensor_dims(*t) && tensor_is_f32(out),
{
    t.silu()
}

/// `Tensor::cos`: the cosine of every element.  The tensor holds
/// 32-bit floats, and so does the result.
#[verifier::external_body]
pub(crate) fn cos(t: &Tensor) -> (r: Result<Tensor, candle_core::Error>)
    requires
        shape_fits(tensor_dims(*t)),
        tensor_is_f32(*t),
    ensures
        r is Ok,
        r matches Ok(out) ==> tensor_dims(out) == tensor_dims(*t) && tensor_is_f32(out),
{
    t.cos()
}

/// `Tensor::sin`: the sine of every element.  The tensor holds
/// 32-bit floats, and so does the result.
#[verifier::external_body]
pub(crate) fn sin(t: &Tensor) -> (r: Result<Tensor, candle_core::Error>)
    requires
        shape_fits(tensor_dims(*t)),
        tensor_is_f32(*t),
    ensures
        r is Ok,
        r matches Ok(out) ==> tensor_dims(out) == tensor_dims(*t) && tensor_is_f32(out),
{
    t.sin()
}

/// `Tensor::sqrt`: the square root of every element.  The tensor holds
/// 32-bit floats, and so does the result.
#[verifier::external_body]
pub(crate) fn sqrt(t: &Tensor) -> (r: Result<Tensor, candle_core::Error>)
    requires
        shape_fits(tensor_dims(*t)),
        tensor_is_f32(*t),
    ensures
        r is Ok,
        r matches Ok(out) ==> tensor_dims(out) == tensor_dims(*t) && tensor_is_f32(out),
{
    t.sqrt()
}

/// `Tensor::recip`: the reciprocal of every element.  The tensor holds
/// 32-bit floats, and so does the result.
#[verifier::external_body]
pub(crate) fn recip(t: &Tensor) -> (r: Result<Tensor, candle_core::Error>)
    requires
        shape_fits(tensor_dims(*t)),
        tensor_is_f32(*t),
    ensures
        r is Ok,
        r matches Ok(out) ==> tensor_dims(out) == tensor_dims(*t) && tensor_is_f32(out),
{
    t.recip()
}

/// `candle_nn::ops::softmax` along the last dimension, which may not be
/// empty: every row is normalised to a probability distribution.  The tensor
/// holds 32-bit floats, and so does the result.  A tensor that is not empty
/// is accepted.
#[verifier::external_body]
pub(crate) fn softmax_last(t: &Tensor) -> (r: Result<Tensor, candle_core::Error>)
    requires
        shape_fits(tensor_dims(*t)),
        tensor_dims(*t).len() >= 1,
        tensor_dims(*t).last() >= 1,
        tensor_is_f32(*t),
    ensures
        r matches Ok(out) ==> tensor_dims(out) == tensor_dims(*t) && tensor_is_f32(out),
        numel(tensor_dims(*t)) > 0 ==> r is Ok,
{
    candle_nn::ops::softmax(t, candle_core::D::Minus1)
}

/// `Tensor::add`: the element-wise sum of two tensors of one shape.  Two
/// tensors of 32-bit floats of one shape are accepted, and the result holds
/// 32-bit floats.
#[verifier::external_body]
pub(crate) fn add_same(a: &Tensor, b: &Tensor) -> (r: Result<Tensor, candle_core::Error>)
    requires
        shape_fits(tensor_dims(*a)),
        tensor_is_f32(*a),
        tensor_is_f32(*b),
    ensures
        r matches Ok(out) ==> tensor_dims(out) == tensor_dims(*a) && tensor_dims(*b)
            == tensor_dims(*a) && tensor_is_f32(out),
        tensor_dims(*b) == tensor_dims(*a) ==> r is Ok,
{
    a.add(b)
}

/// `Tensor::sub`: the element-wise difference of two tensors of one shape.  Two
/// tensors of 32-bit floats of one shape are accepted, and the result holds
/// 32-bit floats.
#[verifier::external_body]
pub(crate) fn sub_same(a: &Tensor, b: &Tensor) -> (r: Result<Tensor, candle_core::Error>)
    requires
        shape_fits(tensor_dims(*a)),
        tensor_is_f32(*a),
        tensor_is_f32(*b),
    ensures
        r matches Ok(out) ==> tensor_dims(out) == tensor_dims(*a) && tensor_dims(*b)
            == tensor_dims(*a) && tensor_is_f32(out),
        tensor_dims(*b) == tensor_dims(*a) ==> r is Ok,
{
    a.sub(b)
}

/// `Tensor::mul`: the element-wise product of two tensors of one shape.  Two
/// tensors of 32-bit floats of one shape are accepted, and the result holds
/// 32-bit floats.
#[verifier::external_body]
pub(crate) fn mul_same(a: &Tensor, b: &Tensor) -> (r: Result<Tensor, candle_core::Error>)
    requires
        shape_fits(tensor_dims(*a)),
        tensor_is_f32(*a),
        tensor_is_f32(*b),
    ensures
        r matches Ok(out) ==> tensor_dims(out) == tensor_dims(*a) && tensor_dims(*b)
            == tensor_dims(*a) && tensor_is_f32(out),
        tensor_dims(*b) == tensor_dims(*a) ==> r is Ok,
{
    a.mul(b)
}

/// `Tensor::div`: the element-wise quotient of two tensors of one shape.  Two
/// tensors of 32-bit floats of one shape are accepted, and the result holds
/// 32-bit floats.
#[verifier::external_body]
pub(crate) fn div_same(a: &Tensor, b: &Tensor) -> (r: Result<Tensor, candle_core::Error>)
    requires
        shape_fits(tensor_dims(*a)),
        tensor_is_f32(*a),
        tensor_is_f32(*b),
    ensures
        r matches Ok(out) ==> tensor_dims(out) == tensor_dims(*a) && tensor_dims(*b)
            == tensor_dims(*a) && tensor_is_f32(out),
        tensor_dims(*b) == tensor_dims(*a) ==> r is Ok,
{
    a.div(b)
}

/// `Tensor::pow`: every element of `a` raised to the matching element of `b`.  Two
/// tensors of 32-bit floats of one shape are accepted, and the result holds
/// 32-bit floats.
#[verifier::external_body]
pub(crate) fn pow_same(a: &Tensor, b: &Tensor) -> (r: Result<Tensor, candle_core::Error>)
    requires
        shape_fits(tensor_dims(*a)),
        tensor_is_f32(*a),
        tensor_is_f32(*b),
    ensures
        r matches Ok(out) ==> tensor_dims(out) == tensor_dims(*a) && tensor_dims(*b)
            == tensor_dims(*a) && tensor_is_f32(out),
        tensor_dims(*b) == tensor_dims(*a) ==> r is Ok,
{
    a.pow(b)
}

/// `candle_nn::Linear::forward` without bias: `x` times the transpose of
/// `weight`.  With a two-dimensional weight of shape `(out, in)`, the result
/// has the shape of `x` with its last dimension replaced by `out`.  A batch
/// of rows of 32-bit floats in row-major order, not empty, whose width is
/// `in`, is accepted for a weight of 32-bit floats, and the result is a
/// tensor of 32-bit floats in row-major order.
#[verifier::external_body]
pub(crate) fn linear(x: &Tensor, weight: &Tensor) -> (r: Result<Tensor, candle_core::Error>)
    requires
        shape_fits(tensor_dims(*x)),
        shape_fits(tensor_dims(*weight)),
        tensor_dims(*weight).len() == 2,
        tensor_dims(*x).len() >= 2,
        shape_fits(tensor_dims(*x).update(tensor_dims(*x).len() - 1, tensor_dims(*weight)[0])),
    ensures
        r matches Ok(out) ==> tensor_dims(out) == tensor_dims(*x).update(
            tensor_dims(*x).len() - 1,
            tensor_dims(*weight)[0],
        ) && (linear_accepts(*x, *weight) ==> dense(out)),
        linear_accepts(*x, *weight) ==> r is Ok,
{
    candle_nn::Linear::new(weight.clone(), None).forward(x)
}

/// `candle_nn::Embedding::forward`: looks every index of `ids` up in `table`.
/// The result has the shape of `ids` with `hidden` appended.  Indices of 32
/// bits below the number of rows are accepted for a table of 32-bit floats
/// in row-major order with `hidden` columns, and the result is a tensor of
/// 32-bit floats in row-major order.
#[verifier::external_body]
pub(crate) fn embedding(table: &Tensor, hidden: usize, ids: &Tensor) -> (r: Result<
    Tensor,
    candle_core::Error,
>)
    requires
        shape_fits(tensor_dims(*table)),
        shape_fits(tensor_dims(*ids)),
        shape_fits(tensor_dims(*ids).push(hidden)),
    ensures
        r matches Ok(out) ==> tensor_dims(out) == tensor_dims(*ids).push(hidden) && (
        embedding_accepts(*table, hidden, *ids) ==> dense(out)),
        embedding_accepts(*table, hidden, *ids) ==> r is Ok,
{
    candle_nn::Embedding::new(table.clone(), hidden).forward(ids)
}

/// `candle_nn::RmsNorm::forward`: root-mean-square normalisation of the last
/// dimension, scaled by `weight`, which has one entry per entry of that
/// dimension; the dimension may not be empty, since the backend divides by
/// its size.  The stabilising constant is handed over as the bit pattern of
/// a 64-bit float, which `Tensor::from_raw_buffer` and `Tensor::to_scalar`
/// turn back into the number.  The shape is kept.  Two tensors of 32-bit
/// floats in row-major order are accepted, and the result is such a tensor.
#[verifier::external_body]
pub(crate) fn rms_norm(x: &Tensor, weight: &Tensor, eps_bits: u64) -> (r: Result<
    Tensor,
    candle_core::Error,
>)
    requires
        shape_fits(tensor_dims(*x)),
        shape_fits(tensor_dims(*weight)),
        tensor_dims(*x).len() >= 1,
        tensor_dims(*x).last() > 0,
        tensor_dims(*weight) == seq![tensor_dims(*x).last()],
    ensures
        r matches Ok(out) ==> tensor_dims(out) == tensor_dims(*x) && (dense(*x) && dense(*weight)
            ==> dense(out)),
        dense(*x) && dense(*weight) ==> r is Ok,
{
    let eps = Tensor::from_raw_buffer(
        &eps_bits.to_ne_bytes(),
        candle_core::DType::F64,
        &[],
        &Device::Cpu,
    )?;
    candle_nn::RmsNorm::new(weight.clone(), eps.to_scalar()?).forward(x)
}

} // verus!
