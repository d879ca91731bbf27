//! The feature transformer's output: pairwise products of clamped accumulator halves.
use vstd::prelude::*;
use crate::chess::{Color, color_index};
use crate::layers::clamp;

verus! {

/// `(clamp(a, 0, 127) * clamp(b, 0, 127)) >> 7`.
pub open spec fn pair_product(a: int, b: int) -> int {
    (clamp(a, 0, 127) * clamp(b, 0, 127)) / 128
}

/// The transformed value of lane `index` of an accumulator whose halves are `half` long.
pub open spec fn transformed(accumulation: Seq<i16>, half: int, index: int) -> int {
    pair_product(accumulation[index] as int, accumulation[index + half] as int)
}

/// Writes the `half` transformed values of `accumulation` to `output[offset..offset + half]`.
fn transform_perspective(accumulation: &[i16], output: &mut [u8], offset: usize)
    requires
        offset + accumulation@.len() / 2 <= old(output)@.len(),
    ensures
        final(output)@.len() == old(output)@.len(),
        forall|i: int| 0 <= i < accumulation@.len() / 2 ==>
            #[trigger] final(output)@[offset + i] == transformed(accumulation@, (accumulation@.len() / 2) as int, i),
        forall|i: int| 0 <= i < old(output)@.len() && !(offset <= i < offset + accumulation@.len() / 2) ==>
            #[trigger] final(output)@[i] == old(output)@[i],
{
    let half = accumulation.len() / 2;
    let olen = output.len();
    let mut index: usize = 0;
    while index < half
        invariant
            index <= half,
            olen == output@.len(),
            half == accumulation@.len() / 2,
            offset + half <= output@.len(),
            output@.len() == old(output)@.len(),
            forall|i: int| 0 <= i < index ==>
                #[trigger] output@[offset + i] == transformed(accumulation@, half as int, i),
            forall|i: int| 0 <= i < output@.len() && !(offset <= i < offset + index) ==>
                #[trigger] output@[i] == old(output)@[i],
        decreases half - index,
    {
        let a = accumulation[index] as i32;
        let b = accumulation[index + half] as i32;
        let left: i32 = if a < 0 { 0 } else if a > 127 { 127 } else { a };
        let right: i32 = if b < 0 { 0 } else if b > 127 { 127 } else { b };
        assert(0 <= left * right <= 127 * 127) by (nonlinear_arith)
            requires 0 <= left <= 127, 0 <= right <= 127;
        let value = ((left * right) / 128) as u8;
        output[offset + index] = value;
        index = index + 1;
    }
}

/// Transforms both perspectives into `output`: the side to move fills the first
/// half, the other side the second half.
pub fn transform_features(accumulation: [&[i16]; 2], side_to_move: Color, output: &mut [u8])
    requires
        accumulation[0]@.len() / 2 == old(output)@.len() / 2,
        accumulation[1]@.len() / 2 == old(output)@.len() / 2,
    ensures
        final(output)@.len() == old(output)@.len(),
        forall|i: int| 0 <= i < old(output)@.len() / 2 ==> #[trigger] final(output)@[i]
            == transformed(accumulation[color_index(side_to_move)]@, (old(output)@.len() / 2) as int, i),
        forall|i: int| 0 <= i < old(output)@.len() / 2 ==> #[trigger] final(output)@[old(output)@.len() / 2 + i]
            == transformed(accumulation[1 - color_index(side_to_move)]@, (old(output)@.len() / 2) as int, i),
{
    let half = output.len() / 2;
    let stm = side_to_move.index();
    let opp = 1 - stm;
    transform_perspective(accumulation[stm], output, 0);
    let ghost mid = output@;
    transform_perspective(accumulation[opp], output, half);
    proof {
        assert forall|i: int| 0 <= i < half implies #[trigger] output@[i]
            == transformed(accumulation[stm as int]@, half as int, i) by {
            assert(output@[i] == mid[0 + i]);
        }
    }
}

} // verus!
