//! Access to the elements of the syntax tree.
use vstd::prelude::*;

verus! {

/// The element at an index.
#[verifier::allow_in_spec]
pub fn nth<'a, T>(list: &'a Vec<T>, i: usize) -> (r: Option<&'a T>)
    returns
        (if i < list@.len() { Some(&list@[i as int]) } else { None }),
{
    if i < list.len() { Some(&list[i]) } else { None }
}

/// The next index.
#[verifier::allow_in_spec]
pub fn next(i: usize) -> (r: usize)
    returns
        (if i < usize::MAX { (i + 1) as usize } else { i }),
{
    if i < usize::MAX { i + 1 } else { i }
}

/// The first value, or else the second.
#[verifier::allow_in_spec]
pub fn or<T: Copy>(a: Option<T>, b: Option<T>) -> (r: Option<T>)
    returns
        (match a {
            Some(x) => Some(x),
            None => b,
        }),
{
    match a {
        Some(x) => Some(x),
        None => b,
    }
}

/// The value, or else the other.
#[verifier::allow_in_spec]
pub fn or_else<T: Copy>(a: Option<T>, b: T) -> (r: T)
    returns
        (match a {
            Some(x) => x,
            None => b,
        }),
{
    match a {
        Some(x) => x,
        None => b,
    }
}

} // verus!
