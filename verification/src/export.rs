//! Where a run writes its checkpoints.

use crate::paths::{
    file_name, file_name_of, join_path, normalize, normalized, parent, parent_of, path_joined,
    PathStyle,
};
use crate::text::{
    decimal, decimal_len, lemma_decimal_nonempty, push_zero_padded, replace_all, replaced,
    zero_padded, zeros,
};
use vstd::prelude::*;
use vstd::string::*;

verus! {

/// The directory that a run writes to. The template may name the dataset, and is looked
/// up from the directory that holds the dataset.
pub open spec fn export_dir(style: PathStyle, base: Option<Seq<char>>, template: Seq<char>) -> Seq<
    char,
> {
    let name = match base {
        Some(p) => file_name_of(style, p),
        None => None,
    };
    let name = match name {
        Some(n) => n,
        None => "dataset"@,
    };
    let above = match base {
        Some(p) => parent_of(style, p),
        None => None,
    };
    let above = match above {
        Some(p) => p,
        None => "."@,
    };
    normalized(style, path_joined(style, above, replaced(template, "{dataset}"@, name)))
}

/// Finds the directory that a run writes to; `base` is where the dataset is, if it is on
/// disk.
pub fn resolve_export_dir(style: PathStyle, base: Option<&str>, template: &str) -> (r: String)
    ensures
        r@ == export_dir(
            style,
            match base {
                Some(p) => Some(p@),
                None => None,
            },
            template@,
        ),
{
    proof {
        reveal_strlit("{dataset}");
    }
    let found = match base {
        Some(p) => file_name(style, p),
        None => None,
    };
    let name: String = match found {
        Some(n) => n,
        None => "dataset".to_owned(),
    };
    let holder = match base {
        Some(p) => parent(style, p),
        None => None,
    };
    let above: String = match holder {
        Some(p) => p,
        None => ".".to_owned(),
    };
    let below: String = replace_all(template, "{dataset}", name.as_str());
    let joined: String = join_path(style, above.as_str(), below.as_str());
    normalize(style, joined.as_str())
}

/// The name of the file that a checkpoint is written to: the number of the iteration,
/// with as many digits as the number of steps has, takes the place of `{iter}`.
pub open spec fn checkpoint(template: Seq<char>, iter: nat, total_steps: nat) -> Seq<char> {
    replaced(template, "{iter}"@, zero_padded(iter, decimal(total_steps).len()))
}

/// Names the file that a checkpoint is written to.
pub fn checkpoint_name(template: &str, iter: u32, total_steps: u32) -> (r: String)
    ensures
        r@ == checkpoint(template@, iter as nat, total_steps as nat),
{
    proof {
        reveal_strlit("{iter}");
    }
    let mut number = String::new();
    push_zero_padded(&mut number, iter as u64, decimal_len(total_steps as u64));
    assert(number@ == zero_padded(iter as nat, decimal(total_steps as nat).len()));
    replace_all(template, "{iter}", number.as_str())
}

/// Finds the file that a checkpoint is written to.
pub fn checkpoint_path(
    style: PathStyle,
    dir: &str,
    template: &str,
    iter: u32,
    total_steps: u32,
) -> (r: String)
    ensures
        r@ == path_joined(
            style,
            dir@,
            checkpoint(template@, iter as nat, total_steps as nat),
        ),
{
    let name: String = checkpoint_name(template, iter, total_steps);
    join_path(style, dir, name.as_str())
}

/// All iterations of a run are numbered with the same number of characters, so that
/// their names sort as they were written; no two have the same number.
pub proof fn law_checkpoint_numbers(a: nat, b: nat, total_steps: nat)
    requires
        a <= total_steps,
        b <= total_steps,
    ensures
        zero_padded(a, decimal(total_steps).len()).len() == decimal(total_steps).len(),
        zero_padded(a, decimal(total_steps).len()) == zero_padded(b, decimal(total_steps).len())
            ==> a == b,
{
    lemma_decimal_grows(a, total_steps);
    lemma_decimal_grows(b, total_steps);
    let width = decimal(total_steps).len();
    let x = zero_padded(a, width);
    let y = zero_padded(b, width);
    if x == y {
        lemma_padding_value(a, width);
        lemma_padding_value(b, width);
    }
}

/// A larger number has no fewer digits.
proof fn lemma_decimal_grows(a: nat, b: nat)
    requires
        a <= b,
    ensures
        1 <= decimal(a).len() <= decimal(b).len(),
    decreases b,
{
    if a >= 10 {
        lemma_decimal_grows(a / 10, b / 10);
    } else {
        lemma_decimal_nonempty(b);
    }
}

/// The number that a row of digits stands for.
spec fn value_of(digits: Seq<char>) -> int
    decreases digits.len(),
{
    if digits.len() == 0 {
        0
    } else {
        10 * value_of(digits.drop_last()) + (digits.last() as int - 48)
    }
}

proof fn lemma_decimal_value(n: nat)
    ensures
        value_of(decimal(n)) == n,
    decreases n,
{
    if n < 10 {
        assert(decimal(n).drop_last() == Seq::<char>::empty());
        assert(value_of(Seq::<char>::empty()) == 0);
    } else {
        lemma_decimal_value(n / 10);
        assert(decimal(n).drop_last() == decimal(n / 10));
    }
}

proof fn lemma_zeros_value(n: nat, digits: Seq<char>)
    ensures
        value_of(zeros(n) + digits) == value_of(digits),
    decreases n + digits.len(),
{
    let all = zeros(n) + digits;
    if digits.len() > 0 {
        assert(all.drop_last() == zeros(n) + digits.drop_last());
        lemma_zeros_value(n, digits.drop_last());
    } else if n > 0 {
        assert(all.drop_last() == zeros((n - 1) as nat) + digits);
        assert(all.last() == '0');
        lemma_zeros_value((n - 1) as nat, digits);
    }
}

proof fn lemma_padding_value(n: nat, width: nat)
    ensures
        value_of(zero_padded(n, width)) == n,
{
    lemma_decimal_value(n);
    if decimal(n).len() < width {
        lemma_zeros_value((width - decimal(n).len()) as nat, decimal(n));
    }
}

} // verus!
