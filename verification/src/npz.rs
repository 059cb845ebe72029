//! Arrays read from archives.

use crate::text::{decimal, push_decimal};
use vstd::prelude::*;
use vstd::string::*;

verus! {

/// Why an array cannot be used.
#[derive(Clone, Copy, PartialEq, Eq, Structural, Debug)]
pub enum NpzError {
    /// There is no array of that name.
    NotFound,
    /// It has another number of extents.
    WrongRank { expected: usize, got: usize },
}

/// What the user is told.
pub open spec fn npz_text(error: NpzError, name: Seq<char>) -> Seq<char> {
    match error {
        NpzError::NotFound => "Tensor '"@ + name + "' not found in NPZ archive"@,
        NpzError::WrongRank { expected, got } => "Mismatched dimensions for tensor '"@ + name
            + "'. Expected "@ + decimal(expected as nat) + ", got "@ + decimal(got as nat),
    }
}

impl NpzError {
    /// What the user is told.
    pub fn message(&self, name: &str) -> (r: String)
        ensures
            r@ == npz_text(*self, name@),
    {
        match self {
            NpzError::NotFound => {
                let mut out: String = "Tensor '".to_owned();
                out.append(name);
                out.append("' not found in NPZ archive");
                out
            },
            NpzError::WrongRank { expected, got } => {
                let mut out: String = "Mismatched dimensions for tensor '".to_owned();
                out.append(name);
                out.append("'. Expected ");
                push_decimal(&mut out, *expected as u64);
                out.append(", got ");
                push_decimal(&mut out, *got as u64);
                out
            },
        }
    }
}

/// Checks the extents of an array that was looked up; `None` means that there is none.
pub fn load_tensor_from_npz(shape: Option<Vec<usize>>, rank: usize) -> (r: Result<
    Vec<usize>,
    NpzError,
>)
    ensures
        match shape {
            None => r == Err::<Vec<usize>, NpzError>(NpzError::NotFound),
            Some(extents) => if extents@.len() == rank {
                r == Ok::<Vec<usize>, NpzError>(extents)
            } else {
                r == Err::<Vec<usize>, NpzError>(
                    NpzError::WrongRank { expected: rank, got: extents@.len() as usize },
                )
            },
        },
{
    match shape {
        None => Err(NpzError::NotFound),
        Some(extents) => if extents.len() == rank {
            Ok(extents)
        } else {
            Err(NpzError::WrongRank { expected: rank, got: extents.len() })
        },
    }
}

/// What the user is told names the array, and for an array with another number of extents
/// both numbers, the expected one first.
pub proof fn law_npz_texts(name: Seq<char>, expected: usize, got: usize)
    ensures
        npz_text(NpzError::NotFound, name) == "Tensor '"@ + name + "' not found in NPZ archive"@,
        npz_text(NpzError::WrongRank { expected, got }, name)
            == "Mismatched dimensions for tensor '"@ + name + "'. Expected "@ + decimal(
            expected as nat,
        ) + ", got "@ + decimal(got as nat),
{
}

} // verus!
