//! The buffer exchange: an input and an output region of bytes that a
//! foreign caller fills and drains, and the operations that grow, clear and
//! convert them.
//!
//! Every operation takes the exchange explicitly, as an `Option`: a caller
//! that cannot reach its exchange passes `None` and gets the error back.
//! Counts cross the boundary as `i32`, with -1 for every failure.

use vstd::prelude::*;

use crate::batch::{batch_output, convert_all};
use crate::codec::{BigEndian, BytesToFloat, IntegerToBytes, LittleEndian};
use crate::colormap::{float2rgba_simple, simple_colormap};
use crate::convert::{FloatToRgba, SimpleColormap};
use crate::rgba::{lemma_unpack_recovers, Rgba};
use crate::scalar::Scalar;

verus! {

/// Why an operation of the exchange failed.
#[derive(Clone, Copy, Debug, PartialEq, Eq, Structural)]
pub enum ExchangeError {
    /// The caller had no exchange to pass.
    Unreachable,
    /// The region could not be grown.
    AllocationFailed,
}

/// A growable region of bytes.
pub struct Region {
    /// The content; its length is the length of the region.
    pub bytes: Vec<u8>,
    /// The capacity that was negotiated: what `bytes` was seen to have room
    /// for when the region was last grown or written.
    pub capacity: usize,
}

/// The two regions of one exchange.
pub struct Exchange {
    pub input: Region,
    pub output: Region,
}

/// `Vec::capacity`: the number of bytes that the vector can hold without
/// reallocating. All that is claimed is that it is not below the length;
/// how much more the allocator gave differs from run to run.
#[verifier::external_body]
fn vec_capacity(bytes: &Vec<u8>) -> (capacity: usize)
    ensures
        capacity >= bytes@.len(),
{
    bytes.capacity()
}

/// What a count becomes at the boundary: itself where an `i32` holds it, and
/// -1 for a larger one and for every error.
pub open spec fn sentinel_of(outcome: Result<usize, ExchangeError>) -> int {
    match outcome {
        Ok(count) => if count <= i32::MAX {
            count as int
        } else {
            -1
        },
        Err(_) => -1,
    }
}

/// The one place where an outcome becomes a sentinel.
pub fn count_sentinel(outcome: Result<usize, ExchangeError>) -> (r: i32)
    ensures
        r == sentinel_of(outcome),
{
    match outcome {
        Ok(count) => if count <= 0x7FFF_FFFF {
            count as i32
        } else {
            -1
        },
        Err(_) => -1,
    }
}

/// What a region asks of its vector in order to grow by `additional` bytes:
/// room beyond the length for everything up to the old capacity and for the
/// request, so that the capacity to come covers both. Where the old capacity
/// and the request together exceed `usize`, there is nothing to ask.
pub open spec fn reservation(capacity: usize, len: usize, additional: usize) -> Option<usize> {
    if capacity + additional <= usize::MAX {
        Some((capacity + additional - len) as usize)
    } else {
        None
    }
}

/// Makes the amount that `Region::grow` hands to the vector's `try_reserve`.
pub fn reserve_request(capacity: usize, len: usize, additional: usize) -> (r: Option<usize>)
    requires
        len <= capacity,
    ensures
        r == reservation(capacity, len, additional),
{
    match capacity.checked_add(additional) {
        Some(target) => Some(target - len),
        None => None,
    }
}

/// What a request to grow comes to, given what the allocator did: the new
/// capacity where the reservation succeeded and the capacity seen afterwards
/// covers the request, the error otherwise.
pub open spec fn growth(capacity: usize, additional: usize, reserved: bool, observed: usize) -> Result<
    usize,
    ExchangeError,
> {
    if reserved && observed >= capacity + additional {
        Ok(observed)
    } else {
        Err(ExchangeError::AllocationFailed)
    }
}

/// Decides a request to grow from the outcome of the reservation.
pub fn grow_outcome(capacity: usize, additional: usize, reserved: bool, observed: usize) -> (r:
    Result<usize, ExchangeError>)
    ensures
        r == growth(capacity, additional, reserved, observed),
{
    if reserved && observed as u128 >= capacity as u128 + additional as u128 {
        Ok(observed)
    } else {
        Err(ExchangeError::AllocationFailed)
    }
}

impl Region {
    /// The length never exceeds the capacity.
    pub open spec fn wf(&self) -> bool {
        self.bytes@.len() <= self.capacity
    }

    /// Whether the region is well formed.
    #[verifier::when_used_as_spec(wf)]
    pub fn is_wf(&self) -> (b: bool)
        ensures
            b == self.wf(),
    {
        self.bytes.len() <= self.capacity
    }

    /// An empty region without capacity.
    pub fn new() -> (region: Region)
        ensures
            region.wf(),
            region.bytes@ == Seq::<u8>::empty(),
            region.capacity == 0,
    {
        Region { bytes: Vec::new(), capacity: 0 }
    }

    /// Makes room for `additional` bytes beyond the present capacity. The
    /// bytes and the length stay; the storage may move.
    ///
    /// Growing by nothing succeeds. Any other request asks the vector for
    /// the amount that `reserve_request` makes, and `grow_outcome` decides
    /// from what came back: the request succeeds when the allocator grants
    /// it, and then the new capacity covers the old one and the request. A
    /// failed request leaves the capacity as it was.
    pub fn grow(&mut self, additional: usize) -> (r: Result<usize, ExchangeError>)
        requires
            old(self).wf(),
        ensures
            final(self).wf(),
            final(self).bytes@ == old(self).bytes@,
            match r {
                Ok(capacity) => capacity == final(self).capacity && capacity >= old(self).capacity
                    + additional,
                Err(e) => e == ExchangeError::AllocationFailed && final(self).capacity == old(
                    self,
                ).capacity,
            },
            additional == 0 ==> r == Ok::<usize, ExchangeError>(old(self).capacity),
            reservation(old(self).capacity, old(self).bytes@.len() as usize, additional) is None
                ==> r is Err,
    {
        if additional == 0 {
            return Ok(self.capacity);
        }
        let spare: usize = match reserve_request(self.capacity, self.bytes.len(), additional) {
            Some(spare) => spare,
            None => {
                return Err(ExchangeError::AllocationFailed);
            },
        };
        let reserved: bool = self.bytes.try_reserve(spare).is_ok();
        let observed: usize = vec_capacity(&self.bytes);
        let outcome: Result<usize, ExchangeError> = grow_outcome(
            self.capacity,
            additional,
            reserved,
            observed,
        );
        if let Ok(capacity) = outcome {
            self.capacity = capacity;
        }
        outcome
    }

    /// Fills the region with zeros up to its capacity: the length becomes the
    /// capacity, and every byte is 0.
    pub fn zero_fill(&mut self) -> (capacity: usize)
        ensures
            final(self).wf(),
            capacity == old(self).capacity,
            final(self).capacity == old(self).capacity,
            final(self).bytes@ == Seq::new(old(self).capacity as nat, |i: int| 0u8),
    {
        self.bytes.clear();
        self.bytes.resize(self.capacity, 0);
        assert(self.bytes@ =~= Seq::new(self.capacity as nat, |i: int| 0u8));
        self.capacity
    }
}

impl Exchange {
    /// Both regions are well formed.
    pub open spec fn wf(&self) -> bool {
        self.input.wf() && self.output.wf()
    }

    /// Whether both regions are well formed.
    #[verifier::when_used_as_spec(wf)]
    pub fn is_wf(&self) -> (b: bool)
        ensures
            b == self.wf(),
    {
        self.input.is_wf() && self.output.is_wf()
    }

    /// An exchange of two empty regions.
    pub fn new() -> (exchange: Exchange)
        ensures
            exchange.wf(),
            exchange.input.bytes@ == Seq::<u8>::empty(),
            exchange.output.bytes@ == Seq::<u8>::empty(),
            exchange.input.capacity == 0,
            exchange.output.capacity == 0,
    {
        Exchange { input: Region::new(), output: Region::new() }
    }
}

/// How a region and the count returned stand after a request to grow it by
/// `add_bytes_count` bytes. The bytes stay and the capacity never shrinks. A
/// negative request is refused, and a request for nothing is granted. Any
/// other request either fails, with the capacity as it was, or leaves a
/// capacity that covers the old one and the request.
pub open spec fn allocated(before: Region, add_bytes_count: i32, after: Region, r: i32) -> bool {
    &&& after.wf()
    &&& after.bytes@ == before.bytes@
    &&& after.capacity >= before.capacity
    &&& add_bytes_count < 0 ==> r == -1 && after.capacity == before.capacity
    &&& add_bytes_count == 0 ==> after.capacity == before.capacity && r == sentinel_of(
        Ok(before.capacity),
    )
    &&& add_bytes_count > 0 ==> {
        ||| r == -1 && after.capacity == before.capacity
        ||| after.capacity >= before.capacity + add_bytes_count && r == sentinel_of(
            Ok(after.capacity),
        )
    }
}

/// Grows a region by a count that came over the boundary.
fn allocate(region: &mut Region, add_bytes_count: i32) -> (outcome: Result<usize, ExchangeError>)
    requires
        old(region).wf(),
    ensures
        allocated(*old(region), add_bytes_count, *final(region), sentinel_of(outcome) as i32),
        outcome is Err ==> outcome == Err::<usize, ExchangeError>(ExchangeError::AllocationFailed),
{
    if add_bytes_count < 0 {
        Err(ExchangeError::AllocationFailed)
    } else {
        region.grow(add_bytes_count as usize)
    }
}

/// Grows the input region by `add_bytes_count` bytes and returns its new
/// capacity, or -1. A negative count is refused.
pub fn i_allocate(exchange: Option<&mut Exchange>, add_bytes_count: i32) -> (r: i32)
    requires
        match exchange {
            Some(x) => x.wf(),
            None => true,
        },
    ensures
        match exchange {
            Some(x) => allocated(x.input, add_bytes_count, final(x).input, r) && final(x).output
                == x.output,
            None => r == -1,
        },
{
    let outcome: Result<usize, ExchangeError> = match exchange {
        Some(x) => allocate(&mut x.input, add_bytes_count),
        None => Err(ExchangeError::Unreachable),
    };
    count_sentinel(outcome)
}

/// Grows the output region by `add_bytes_count` bytes and returns its new
/// capacity, or -1. A negative count is refused.
pub fn o_allocate(exchange: Option<&mut Exchange>, add_bytes_count: i32) -> (r: i32)
    requires
        match exchange {
            Some(x) => x.wf(),
            None => true,
        },
    ensures
        match exchange {
            Some(x) => allocated(x.output, add_bytes_count, final(x).output, r) && final(x).input
                == x.input,
            None => r == -1,
        },
{
    let outcome: Result<usize, ExchangeError> = match exchange {
        Some(x) => allocate(&mut x.output, add_bytes_count),
        None => Err(ExchangeError::Unreachable),
    };
    count_sentinel(outcome)
}

/// Fills the input region with zeros up to its capacity and returns the
/// capacity, or -1 where an `i32` cannot hold it.
pub fn i_zero(exchange: Option<&mut Exchange>) -> (r: i32)
    requires
        match exchange {
            Some(x) => x.wf(),
            None => true,
        },
    ensures
        match exchange {
            Some(x) => {
                &&& final(x).wf()
                &&& final(x).output == x.output
                &&& final(x).input.capacity == x.input.capacity
                &&& final(x).input.bytes@ == Seq::new(x.input.capacity as nat, |i: int| 0u8)
                &&& r == sentinel_of(Ok(x.input.capacity))
            },
            None => r == -1,
        },
{
    let outcome: Result<usize, ExchangeError> = match exchange {
        Some(x) => Ok(x.input.zero_fill()),
        None => Err(ExchangeError::Unreachable),
    };
    count_sentinel(outcome)
}

/// Converts the whole content of the input region into the output region,
/// and returns the length of the output. What the output region held before
/// is discarded; the input region stays as it is.
pub fn try_convert_all<C, D, E>(
    converter: &C,
    bytes2float: &D,
    integer2bytes: &E,
    exchange: Option<&mut Exchange>,
) -> (r: Result<usize, ExchangeError>) where C: FloatToRgba, D: BytesToFloat, E: IntegerToBytes
    requires
        match exchange {
            Some(x) => x.wf(),
            None => true,
        },
    ensures
        match exchange {
            Some(x) => {
                &&& final(x).wf()
                &&& final(x).input == x.input
                &&& final(x).output.capacity >= x.output.capacity
                &&& final(x).output.bytes@ == batch_output(
                    converter,
                    bytes2float,
                    integer2bytes,
                    x.input.bytes@,
                )
                &&& r == Ok::<usize, ExchangeError>((4 * (x.input.bytes@.len() / 4)) as usize)
            },
            None => r == Err::<usize, ExchangeError>(ExchangeError::Unreachable),
        },
{
    match exchange {
        Some(x) => {
            convert_all(
                converter,
                bytes2float,
                integer2bytes,
                x.input.bytes.as_slice(),
                &mut x.output.bytes,
            );
            let observed: usize = vec_capacity(&x.output.bytes);
            if observed > x.output.capacity {
                x.output.capacity = observed;
            }
            Ok(x.output.bytes.len())
        },
        None => Err(ExchangeError::Unreachable),
    }
}

/// The packed colour that the reference colormap gives to one scalar: red in
/// the most significant byte, alpha in the least significant one.
pub fn convert_simple(f: Scalar) -> (packed: u32)
    ensures
        packed == simple_colormap(f).packed(),
        f.below_zero() || f.above_one() ==> packed == 0,
        f.bits == 0 ==> packed == 0xFF00_00FF,
        f.bits == 0x3F00_0000 ==> packed == 0x00FF_00FF,
        f.bits == 0x3F80_0000 ==> packed == 0x0000_FFFF,
{
    let converted: Rgba = float2rgba_simple(f);
    proof {
        lemma_unpack_recovers(converted);
    }
    u32::from(converted)
}

/// Converts the input region with the reference colormap: scalars are read
/// in little-endian order, colours are written as the bytes red, green, blue,
/// alpha. Returns the length of the output, or -1.
pub fn convert_all_simple_le(exchange: Option<&mut Exchange>) -> (r: i32)
    requires
        match exchange {
            Some(x) => x.wf(),
            None => true,
        },
    ensures
        match exchange {
            Some(x) => {
                &&& final(x).wf()
                &&& final(x).input == x.input
                &&& final(x).output.capacity >= x.output.capacity
                &&& final(x).output.bytes@ == batch_output(
                    &SimpleColormap,
                    &LittleEndian,
                    &BigEndian,
                    x.input.bytes@,
                )
                &&& r == sentinel_of(Ok((4 * (x.input.bytes@.len() / 4)) as usize))
            },
            None => r == -1,
        },
{
    count_sentinel(try_convert_all(&SimpleColormap, &LittleEndian, &BigEndian, exchange))
}

/// Converts the input region with the reference colormap: scalars are read
/// in big-endian order, colours are written as the bytes red, green, blue,
/// alpha. Returns the length of the output, or -1.
pub fn convert_all_simple_be(exchange: Option<&mut Exchange>) -> (r: i32)
    requires
        match exchange {
            Some(x) => x.wf(),
            None => true,
        },
    ensures
        match exchange {
            Some(x) => {
                &&& final(x).wf()
                &&& final(x).input == x.input
                &&& final(x).output.capacity >= x.output.capacity
                &&& final(x).output.bytes@ == batch_output(
                    &SimpleColormap,
                    &BigEndian,
                    &BigEndian,
                    x.input.bytes@,
                )
                &&& r == sentinel_of(Ok((4 * (x.input.bytes@.len() / 4)) as usize))
            },
            None => r == -1,
        },
{
    count_sentinel(try_convert_all(&SimpleColormap, &BigEndian, &BigEndian, exchange))
}

} // verus!
