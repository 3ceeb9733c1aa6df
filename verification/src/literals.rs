//! The interned string literals of a compilation, held in a `lasso::Rodeo`.
//!
//! A literal is named by the number that its key stands for: the first string
//! that was interned has number zero, the next one has number one, and so on.

use lasso::{Key, Rodeo, Spur};
use vstd::prelude::*;

#[allow(unused_imports)]
use crate::text::decimal_text;

verus! {

/// `lasso::Rodeo`, the string interner.
#[verifier::external_type_specification]
#[verifier::external_body]
#[verifier::reject_recursive_types(K)]
#[verifier::reject_recursive_types(S)]
pub struct ExRodeo<K, S>(lasso::Rodeo<K, S>);

/// `lasso::Spur`, the key type of the interner.
#[verifier::external_type_specification]
#[verifier::external_body]
pub struct ExSpur(lasso::Spur);

/// The strings that an interner holds, in the order in which they were interned.
pub uninterp spec fn interned(literals: lasso::Rodeo) -> Seq<Seq<char>>;

/// `Rodeo::len`: the number of strings held.
#[verifier::external_body]
pub(crate) fn literal_count(literals: &Rodeo) -> (res: usize)
    ensures
        res == interned(*literals).len(),
{
    literals.len()
}

/// `Rodeo::resolve`, which indexing an interner calls: the string with the
/// given number. The call panics on a number that is not in use, so `requires`
/// leaves those out; a number in use always has a key.
#[verifier::external_body]
pub(crate) fn resolve(literals: &Rodeo, number: usize) -> (res: &str)
    requires
        number < interned(*literals).len(),
    ensures
        res@ == interned(*literals)[number as int],
{
    literals.resolve(&Spur::try_from_usize(number).unwrap())
}

/// `Rodeo::iter`: every string held, with the number of its key, in the order
/// of the numbers. A string is only interned under a key, and `Spur` has no more
/// than `u32::MAX` of them.
#[verifier::external_body]
pub(crate) fn literal_entries(literals: &Rodeo) -> (res: Vec<(usize, String)>)
    ensures
        res@.len() == interned(*literals).len(),
        res@.len() <= u32::MAX,
        forall|i: int|
            0 <= i < res@.len() ==> (#[trigger] res@[i]).0 == i && res@[i].1@ == interned(
                *literals,
            )[i],
{
    literals.iter().map(|(key, text)| (key.into_usize(), text.to_string())).collect()
}

/// The `Debug` text of `lasso::Spur`: the word `Spur` and, in brackets, one
/// more than the number that the key stands for. There is no key for a number
/// of `u32::MAX` or more.
#[verifier::external_body]
pub(crate) fn key_debug(number: usize) -> (res: String)
    requires
        number < u32::MAX,
    ensures
        res@ == "Spur("@ + decimal_text((number + 1) as nat) + ")"@,
{
    format!("{:?}", Spur::try_from_usize(number).unwrap())
}

} // verus!
