use crate::util::str_eq;
use vstd::prelude::*;

verus! {

/// A type whose values are exactly the variants of a field-less enum, which can all be listed.
pub trait Enumerate: Sized {
    /// Every value of the type, in declaration order.
    spec fn spec_enumerate() -> Seq<Self>;

    fn enumerate() -> (r: Vec<Self>)
        ensures
            r@ == Self::spec_enumerate(),
    ;
}

/// A type whose values each have a fixed textual name.
pub trait EnumerateStr: Sized + Clone {
    /// The name of this value.
    spec fn spec_as_str(&self) -> Seq<char>;

    fn as_str(&self) -> (r: &'static str)
        ensures
            r@ == self.spec_as_str(),
    ;
}

/// Returned when a name does not belong to any variant.
#[derive(Copy, Clone, Debug, PartialEq, Eq, Structural)]
pub struct NoSuchVariantError;

/// The value named `s`: the first variant, in declaration order, whose name is `s`.
pub fn variant_from_str<T: Enumerate + EnumerateStr>(s: &str) -> (r: Result<T, NoSuchVariantError>)
    ensures
        match r {
            Ok(v) => exists|i: int|
                #![trigger T::spec_enumerate()[i]]
                0 <= i < T::spec_enumerate().len() && T::spec_enumerate()[i] == v
                    && v.spec_as_str() == s@ && forall|j: int|
                    0 <= j < i ==> (#[trigger] T::spec_enumerate()[j]).spec_as_str() != s@,
            Err(_) => forall|i: int|
                0 <= i < T::spec_enumerate().len() ==> (#[trigger] T::spec_enumerate()[i]).spec_as_str()
                    != s@,
        },
{
    let mut all = T::enumerate();
    let ghost values = all@;
    let n = all.len();
    let mut i: usize = 0;
    while i < n
        invariant
            n == values.len(),
            all@ == values,
            values == T::spec_enumerate(),
            i <= n,
            forall|j: int| 0 <= j < i ==> (#[trigger] values[j]).spec_as_str() != s@,
        decreases n - i,
    {
        if str_eq(all[i].as_str(), s) {
            let v = all.swap_remove(i);
            assert(values[i as int] == v);
            return Ok(v);
        }
        i = i + 1;
    }
    Err(NoSuchVariantError)
}

} // verus!
