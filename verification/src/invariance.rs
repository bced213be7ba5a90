use vstd::prelude::*;

verus! {

/// Writing through a `&mut &str` whose target has the same type and lifetime:
/// the variable it borrows holds the new text afterwards.
pub fn invariance_mut_refs() -> (greeting: &'static str)
    ensures
        greeting@ == "world"@,
{
    let mut greeting: &'static str = "hello";
    {
        let r: &mut &'static str = &mut greeting;
        *r = "world";
    }
    greeting
}

/// A mutable borrow of a list of strings, the borrow and the strings each
/// with a lifetime of their own.
pub struct Cache<'a, 'b> {
    pub data: &'a mut Vec<&'b str>,
}

/// A list of strings borrowed mutably through a `Cache`, then used again:
/// it holds its first entry followed by the one pushed through the cache.
pub fn common_lifetime_error_and_fix() -> (storage: Vec<&'static str>)
    ensures
        storage@.len() == 2,
        storage@[0]@ == "cached"@,
        storage@[1]@ == "new entry"@,
{
    let mut storage: Vec<&'static str> = vec!["cached"];
    {
        let cache = Cache { data: &mut storage };
        cache.data.push("new entry");
        let n = cache.data.len();
        assert(n == 2);
    }
    storage
}

} // verus!
