//! The batch engine: raw bytes in, packed colours out, four bytes at a time.

use vstd::prelude::*;

use crate::codec::{lemma_packed_be_bytes, BigEndian, BytesToFloat, IntegerToBytes};
use crate::colormap::simple_colormap;
use crate::convert::{FloatToRgba, SimpleColormap};
use crate::rgba::{lemma_unpack_recovers, Rgba};
use crate::scalar::Scalar;

verus! {

/// What one group of four input bytes becomes: decoded to a scalar,
/// converted to a colour, packed, and encoded.
pub open spec fn group_output<C: FloatToRgba, D: BytesToFloat, E: IntegerToBytes>(
    converter: &C,
    bytes2float: &D,
    integer2bytes: &E,
    group: [u8; 4],
) -> [u8; 4] {
    integer2bytes.encoded(converter.converted(bytes2float.decoded(group)).packed() as u32)
}

/// The group of four bytes with the number `k`, counted from 0.
pub open spec fn group_at(input: Seq<u8>, k: int) -> [u8; 4] {
    [input[4 * k], input[4 * k + 1], input[4 * k + 2], input[4 * k + 3]]
}

/// What an input becomes: the outputs of its whole groups of four bytes, in
/// order. Bytes after the last whole group are dropped.
pub open spec fn batch_output<C: FloatToRgba, D: BytesToFloat, E: IntegerToBytes>(
    converter: &C,
    bytes2float: &D,
    integer2bytes: &E,
    input: Seq<u8>,
) -> Seq<u8> {
    Seq::new(
        (4 * (input.len() / 4)) as nat,
        |i: int|
            group_output(converter, bytes2float, integer2bytes, group_at(input, i / 4))[i % 4],
    )
}

/// Converts `input` group by group into `output`. What `output` held before
/// is discarded.
pub fn convert_all<C, D, E>(
    converter: &C,
    bytes2float: &D,
    integer2bytes: &E,
    input: &[u8],
    output: &mut Vec<u8>,
) where C: FloatToRgba, D: BytesToFloat, E: IntegerToBytes
    ensures
        final(output)@ == batch_output(converter, bytes2float, integer2bytes, input@),
        final(output)@.len() == 4 * (input@.len() / 4),
{
    output.clear();
    let groups: usize = input.len() / 4;
    let mut g: usize = 0;
    while g < groups
        invariant
            groups == input@.len() / 4,
            input@.len() <= usize::MAX,
            g <= groups,
            output@.len() == 4 * g,
            forall|i: int|
                0 <= i < 4 * g ==> output@[i] == batch_output(
                    converter,
                    bytes2float,
                    integer2bytes,
                    input@,
                )[i],
        decreases groups - g,
    {
        let at: usize = 4 * g;
        let group: [u8; 4] = [input[at], input[at + 1], input[at + 2], input[at + 3]];
        let f: Scalar = bytes2float.decode(group);
        let rgba: Rgba = converter.convert(f);
        let word: u32 = u32::from(rgba);
        let bytes: [u8; 4] = integer2bytes.encode(word);
        proof {
            lemma_unpack_recovers(rgba);
            assert(group =~= group_at(input@, g as int));
            assert(bytes == group_output(
                converter,
                bytes2float,
                integer2bytes,
                group_at(input@, g as int),
            ));
        }
        output.push(bytes[0]);
        output.push(bytes[1]);
        output.push(bytes[2]);
        output.push(bytes[3]);
        g = g + 1;
    }
    assert(output@ =~= batch_output(converter, bytes2float, integer2bytes, input@));
}

/// Groups are converted independently of each other: the output of a
/// concatenation, the first part a whole number of groups, is the
/// concatenation of the outputs.
pub proof fn lemma_batch_concat<C: FloatToRgba, D: BytesToFloat, E: IntegerToBytes>(
    converter: &C,
    bytes2float: &D,
    integer2bytes: &E,
    input1: Seq<u8>,
    input2: Seq<u8>,
)
    requires
        input1.len() % 4 == 0,
    ensures
        batch_output(converter, bytes2float, integer2bytes, input1 + input2) == batch_output(
            converter,
            bytes2float,
            integer2bytes,
            input1,
        ) + batch_output(converter, bytes2float, integer2bytes, input2),
{
    let whole = input1 + input2;
    let out = batch_output(converter, bytes2float, integer2bytes, whole);
    let out1 = batch_output(converter, bytes2float, integer2bytes, input1);
    let out2 = batch_output(converter, bytes2float, integer2bytes, input2);
    let n1 = input1.len() as int;
    assert(out1.len() == n1);
    assert(out.len() == out1.len() + out2.len());
    assert forall|i: int| 0 <= i < out.len() implies out[i] == (out1 + out2)[i] by {
        if i < n1 {
            assert(group_at(whole, i / 4) == group_at(input1, i / 4));
        } else {
            let j = i - n1;
            assert(j / 4 == i / 4 - n1 / 4 && j % 4 == i % 4);
            assert(group_at(whole, i / 4) == group_at(input2, j / 4));
        }
    }
    assert(out =~= out1 + out2);
}

/// The output has four bytes for every whole group of four input bytes.
pub proof fn lemma_batch_len<C: FloatToRgba, D: BytesToFloat, E: IntegerToBytes>(
    converter: &C,
    bytes2float: &D,
    integer2bytes: &E,
    input: Seq<u8>,
)
    ensures
        batch_output(converter, bytes2float, integer2bytes, input).len() == 4 * (input.len() / 4),
{
}

/// With the reference colormap and big-endian output, a group becomes the
/// literal bytes red, green, blue, alpha of the colour of its scalar.
pub proof fn lemma_simple_group<D: BytesToFloat>(bytes2float: &D, group: [u8; 4])
    ensures
        ({
            let rgba = simple_colormap(bytes2float.decoded(group));
            group_output(&SimpleColormap, bytes2float, &BigEndian, group) == [
                rgba.0,
                rgba.1,
                rgba.2,
                rgba.3,
            ]
        }),
{
    lemma_packed_be_bytes(simple_colormap(bytes2float.decoded(group)));
}

/// With the reference colormap and big-endian output, the output holds for
/// every whole group of the input, at the group's place, the bytes red,
/// green, blue, alpha of the colour of the group's scalar.
pub proof fn lemma_simple_batch<D: BytesToFloat>(bytes2float: &D, input: Seq<u8>, k: int)
    requires
        0 <= k < input.len() / 4,
    ensures
        ({
            let output = batch_output(&SimpleColormap, bytes2float, &BigEndian, input);
            let rgba = simple_colormap(bytes2float.decoded(group_at(input, k)));
            &&& output[4 * k] == rgba.0
            &&& output[4 * k + 1] == rgba.1
            &&& output[4 * k + 2] == rgba.2
            &&& output[4 * k + 3] == rgba.3
        }),
{
    lemma_simple_group(bytes2float, group_at(input, k));
    assert((4 * k) / 4 == k && (4 * k + 1) / 4 == k && (4 * k + 2) / 4 == k && (4 * k + 3) / 4 == k);
}

} // verus!
