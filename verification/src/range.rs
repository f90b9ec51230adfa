//! Copying a contiguous range out of a flat buffer.

use vstd::prelude::*;

verus! {

/// Why a range cannot be copied out of an array.
#[derive(Clone, Copy, Debug, PartialEq, Eq, Structural)]
pub enum RangeError {
    /// The range ends before it starts.
    Reversed,
    /// The range ends beyond the end of the array.
    OutOfBounds,
}

/// Copies the elements from `first` up to, but not including, `last` into a
/// new array.
pub fn get_range_from_array<T: Copy>(array: &[T], first: u32, last: u32) -> (result: Result<
    Vec<T>,
    RangeError,
>)
    ensures
        match result {
            Ok(range) => {
                &&& first <= last <= array@.len()
                &&& range@ == array@.subrange(first as int, last as int)
            },
            Err(RangeError::Reversed) => first > last,
            Err(RangeError::OutOfBounds) => first <= last && last > array@.len(),
        },
{
    if first > last {
        return Err(RangeError::Reversed);
    }
    if last as usize > array.len() {
        return Err(RangeError::OutOfBounds);
    }
    let mut range: Vec<T> = Vec::new();
    let mut index: u32 = first;
    while index < last
        invariant
            first <= index <= last,
            last <= array@.len(),
            range@ == array@.subrange(first as int, index as int),
        decreases last - index,
    {
        range.push(array[index as usize]);
        index = index + 1;
        proof {
            assert(range@ =~= array@.subrange(first as int, index as int));
        }
    }
    Ok(range)
}

} // verus!
