use vstd::prelude::*;
use std::marker::PhantomData;

verus! {

/// A string key tagged with the type `V` of the value it stands for, at no
/// cost at run time; covariant over `V`, as if it held a `V`.
pub struct CovariantKey<V> {
    pub raw: String,
    pub _type: PhantomData<V>,
}

/// A key typed by a marker alone: its text is the one it was made with.
pub fn phantom_data_variance() -> (key: CovariantKey<i32>)
    ensures
        key.raw@ == "user:score"@,
{
    CovariantKey { raw: "user:score".to_string(), _type: PhantomData }
}

} // verus!
