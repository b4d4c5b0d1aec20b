use vstd::prelude::*;

verus! {

/// One entry of the store: a value and the time-to-live, in seconds, that the
/// caller attached to it. The time-to-live is recorded but not enforced.
#[derive(Debug)]
pub struct StoreValue {
    pub value: String,
    pub ttl: i64,
}

impl View for StoreValue {
    type V = (Seq<char>, i64);

    open spec fn view(&self) -> (Seq<char>, i64) {
        (self.value@, self.ttl)
    }
}

impl Clone for StoreValue {
    fn clone(&self) -> (r: StoreValue)
        ensures
            r@ == self@,
    {
        StoreValue { value: self.value.clone(), ttl: self.ttl }
    }
}

} // verus!
