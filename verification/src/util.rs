//! Extremes of a slice of costs, with the position at which each is found.

use vstd::prelude::*;

verus! {

/// The smallest value of `arr` and the first index that holds it.
pub fn find_minimum_value_and_index(arr: &[u32]) -> (res: (u32, usize))
    requires
        arr@.len() > 0,
    ensures
        res.1 < arr@.len(),
        res.0 == arr@[res.1 as int],
        forall|j: int| 0 <= j < arr@.len() ==> res.0 <= arr@[j],
        forall|j: int| 0 <= j < res.1 ==> res.0 < arr@[j],
{
    let mut index: usize = 0;
    let mut min_value: u32 = arr[0];
    let mut i: usize = 1;
    while i < arr.len()
        invariant
            1 <= i <= arr@.len(),
            index < i,
            min_value == arr@[index as int],
            forall|j: int| 0 <= j < i ==> min_value <= arr@[j],
            forall|j: int| 0 <= j < index ==> min_value < arr@[j],
        decreases arr@.len() - i,
    {
        if arr[i] < min_value {
            min_value = arr[i];
            index = i;
        }
        i += 1;
    }
    (min_value, index)
}

/// The largest value of `arr` and the last index that holds it.
pub fn find_maximum_value_and_index(arr: &[u32]) -> (res: (u32, usize))
    requires
        arr@.len() > 0,
    ensures
        res.1 < arr@.len(),
        res.0 == arr@[res.1 as int],
        forall|j: int| 0 <= j < arr@.len() ==> arr@[j] <= res.0,
        forall|j: int| res.1 < j < arr@.len() ==> arr@[j] < res.0,
{
    let mut index: usize = 0;
    let mut max_value: u32 = arr[0];
    let mut i: usize = 1;
    while i < arr.len()
        invariant
            1 <= i <= arr@.len(),
            index < i,
            max_value == arr@[index as int],
            forall|j: int| 0 <= j < i ==> arr@[j] <= max_value,
            forall|j: int| index < j < i ==> arr@[j] < max_value,
        decreases arr@.len() - i,
    {
        if arr[i] >= max_value {
            max_value = arr[i];
            index = i;
        }
        i += 1;
    }
    (max_value, index)
}

} // verus!
