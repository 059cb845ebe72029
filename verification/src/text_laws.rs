//! What holds of all texts that are built: numbers can be read back, nothing is lost when
//! texts are joined, and replacing touches nothing but what is replaced.

use crate::export::{checkpoint, export_dir};
use crate::paths::{
    extension_of, file_name_of, last_dot, normalized, parent_of, path_joined, split_point, stem_of,
    PathStyle,
};
use crate::text::{begins_with, decimal, joined, replaced, zero_padded, zeros};
use vstd::prelude::*;
use vstd::string::*;

verus! {

/// The number that a row of decimal digits stands for.
pub open spec fn number_of(digits: Seq<char>) -> int
    decreases digits.len(),
{
    if digits.len() == 0 {
        0
    } else {
        10 * number_of(digits.drop_last()) + (digits.last() as int - '0' as int)
    }
}

/// A number is written in digits, stands for itself when it is read back, and begins with
/// no zero unless it is zero.
pub proof fn law_decimal_reads_back(n: nat)
    ensures
        decimal(n).len() >= 1,
        forall|i: int| 0 <= i < decimal(n).len() ==> '0' <= #[trigger] decimal(n)[i] <= '9',
        number_of(decimal(n)) == n,
        decimal(n)[0] == '0' ==> n == 0,
    decreases n,
{
    if n < 10 {
        assert(decimal(n).drop_last() == Seq::<char>::empty());
        assert(number_of(Seq::<char>::empty()) == 0);
    } else {
        law_decimal_reads_back(n / 10);
        let head = decimal(n / 10);
        assert(decimal(n).drop_last() == head);
        assert(decimal(n)[0] == head[0]);
        assert forall|i: int| 0 <= i < decimal(n).len() implies '0' <= #[trigger] decimal(n)[i]
            <= '9' by {
            if i < head.len() {
                assert(decimal(n)[i] == head[i]);
            }
        }
    }
}

/// A padded number is the number with zeros before it, as many as it takes to reach the
/// width; a number that is as wide already stays as it is.
pub proof fn law_padding(n: nat, width: nat, i: int)
    ensures
        ({
            let padded = zero_padded(n, width);
            let fill = padded.len() - decimal(n).len();
            &&& padded.len() >= width
            &&& fill >= 0
            &&& padded.len() > width ==> fill == 0
            &&& padded.skip(fill) == decimal(n)
            &&& 0 <= i < fill ==> padded[i] == '0'
            &&& number_of(padded) == n
        }),
{
    law_decimal_reads_back(n);
    let padded = zero_padded(n, width);
    let fill = padded.len() - decimal(n).len();
    if decimal(n).len() < width {
        assert(padded == zeros(fill as nat) + decimal(n));
        lemma_leading_zeros(fill as nat, decimal(n));
    }
    assert(padded.skip(fill) == decimal(n));
}

proof fn lemma_leading_zeros(n: nat, digits: Seq<char>)
    ensures
        number_of(zeros(n) + digits) == number_of(digits),
    decreases n + digits.len(),
{
    let all = zeros(n) + digits;
    if digits.len() > 0 {
        assert(all.drop_last() == zeros(n) + digits.drop_last());
        lemma_leading_zeros(n, digits.drop_last());
    } else if n > 0 {
        assert(all.drop_last() == zeros((n - 1) as nat) + digits);
        lemma_leading_zeros((n - 1) as nat, digits);
    }
}

/// One text is joined to itself, and two lists of texts are joined by joining each of them
/// and putting the separator between.
pub proof fn law_joined(
    text: Seq<char>,
    a: Seq<Seq<char>>,
    b: Seq<Seq<char>>,
    sep: Seq<char>,
)
    ensures
        joined(Seq::empty(), sep).len() == 0,
        joined(seq![text], sep) == text,
        a.len() > 0 && b.len() > 0 ==> joined(a + b, sep) == joined(a, sep) + sep + joined(b, sep),
    decreases b.len(),
{
    if a.len() > 0 && b.len() > 0 {
        assert((a + b).drop_last() == a + b.drop_last());
        if b.len() > 1 {
            law_joined(text, a, b.drop_last(), sep);
            assert(joined(a + b, sep) == joined(a, sep) + sep + joined(b, sep));
        } else {
            assert(a + b.drop_last() == a);
            assert(joined(b, sep) == b[0]);
        }
    }
}

/// A text begins with another one exactly if something put behind that one gives it.
pub proof fn law_begins_with(s: Seq<char>, prefix: Seq<char>)
    ensures
        begins_with(s, prefix) <==> exists|rest: Seq<char>| s == #[trigger] (prefix + rest),
{
    if begins_with(s, prefix) {
        assert(s == prefix + s.skip(prefix.len() as int));
    }
    if exists|rest: Seq<char>| s == #[trigger] (prefix + rest) {
        let rest = choose|rest: Seq<char>| s == #[trigger] (prefix + rest);
        assert((prefix + rest).take(prefix.len() as int) == prefix);
    }
}

/// Whether `pattern` stands in `s` at `at`.
pub open spec fn found_at(s: Seq<char>, pattern: Seq<char>, at: int) -> bool {
    0 <= at && at + pattern.len() <= s.len() && s.subrange(at, at + pattern.len()) == pattern
}

/// Whether `pattern` stands nowhere in `s` before `end`.
pub open spec fn not_before(s: Seq<char>, pattern: Seq<char>, end: int) -> bool {
    forall|at: int| 0 <= at < end ==> !#[trigger] found_at(s, pattern, at)
}

/// A text in which a pattern does not stand is left as it is. Where a pattern stands for
/// the first time it is replaced, what is before it is left as it is, and replacing goes
/// on behind it.
pub proof fn law_replaced(s: Seq<char>, pattern: Seq<char>, with: Seq<char>, at: int)
    requires
        pattern.len() > 0,
    ensures
        not_before(s, pattern, s.len() as int) ==> replaced(s, pattern, with) == s,
        found_at(s, pattern, at) && not_before(s, pattern, at) ==> replaced(s, pattern, with)
            == s.take(at) + with + replaced(s.skip(at + pattern.len()), pattern, with),
    decreases s.len(),
{
    if s.len() > 0 {
        let rest = s.skip(1);
        assert(begins_with(s, pattern) <==> found_at(s, pattern, 0)) by {
            if pattern.len() <= s.len() {
                assert(s.take(pattern.len() as int) == s.subrange(0, pattern.len() as int));
            }
        }
        assert forall|k: int| 0 <= k implies #[trigger] found_at(rest, pattern, k) == found_at(
            s,
            pattern,
            k + 1,
        ) by {
            if k + 1 + pattern.len() <= s.len() {
                assert(rest.subrange(k, k + pattern.len()) == s.subrange(
                    k + 1,
                    k + 1 + pattern.len(),
                ));
            }
        }
        law_replaced(rest, pattern, with, at - 1);
        if not_before(s, pattern, s.len() as int) {
            assert(!found_at(s, pattern, 0));
            assert(not_before(rest, pattern, rest.len() as int));
            assert(seq![s[0]] + rest == s);
        }
        if found_at(s, pattern, at) && not_before(s, pattern, at) {
            if at == 0 {
                assert(s.take(0) + with + replaced(s.skip(pattern.len() as int), pattern, with)
                    == with + replaced(s.skip(pattern.len() as int), pattern, with));
            } else {
                assert(!found_at(s, pattern, 0));
                assert(found_at(rest, pattern, at - 1));
                assert(not_before(rest, pattern, at - 1));
                assert(rest.skip(at - 1 + pattern.len()) == s.skip(at + pattern.len()));
                assert(seq![s[0]] + rest.take(at - 1) == s.take(at));
                let tail = replaced(s.skip(at + pattern.len()), pattern, with);
                assert(seq![s[0]] + (rest.take(at - 1) + with + tail) == s.take(at) + with + tail);
            }
        }
    }
}

/// A file name is its stem, a dot and its extension, if it has one: the extension has no
/// dot in it, and the stem is not empty. A name without an extension is its stem, and has
/// no dot but as its first character.
pub proof fn law_name_parts(style: PathStyle, path: Seq<char>)
    ensures
        file_name_of(style, path) is None <==> stem_of(style, path) is None,
        file_name_of(style, path) is None ==> extension_of(style, path) is None,
        file_name_of(style, path) matches Some(name) ==> {
            let stem = stem_of(style, path)->0;
            &&& extension_of(style, path) matches Some(extension) ==> {
                &&& name == stem + seq!['.'] + extension
                &&& stem.len() > 0
                &&& !extension.contains('.')
            }
            &&& extension_of(style, path) is None ==> stem == name && forall|i: int|
                0 < i < name.len() ==> #[trigger] name[i] != '.'
        },
{
    if let Some(name) = file_name_of(style, path) {
        lemma_last_dot(name, name.len() as int);
        if let Some(i) = split_point(name) {
            assert(name == name.take(i) + seq!['.'] + name.skip(i + 1));
            let extension = name.skip(i + 1);
            if extension.contains('.') {
                let k = choose|k: int| 0 <= k < extension.len() && extension[k] == '.';
                assert(name[i + 1 + k] == '.');
            }
        }
    }
}

proof fn lemma_last_dot(s: Seq<char>, end: int)
    requires
        0 <= end <= s.len(),
    ensures
        match last_dot(s, end) {
            Some(i) => 0 <= i < end && s[i] == '.' && forall|k: int|
                i < k < end ==> #[trigger] s[k] != '.',
            None => forall|k: int| 0 <= k < end ==> #[trigger] s[k] != '.',
        },
    decreases end,
{
    if end > 0 && s[end - 1] != '.' {
        lemma_last_dot(s, end - 1);
    }
}

/// A checkpoint is named like its template, with the number of its step, padded to the
/// width of the number of all steps, where the template has a place for it. A template
/// without such a place is the name itself.
pub proof fn law_checkpoint_named(
    before: Seq<char>,
    after: Seq<char>,
    iter: nat,
    total_steps: nat,
)
    ensures
        ({
            let template = before + "{iter}"@ + after;
            not_before(template, "{iter}"@, before.len() as int) && not_before(
                after,
                "{iter}"@,
                after.len() as int,
            ) ==> checkpoint(template, iter, total_steps) == before + zero_padded(
                iter,
                decimal(total_steps).len(),
            ) + after
        }),
        not_before(before, "{iter}"@, before.len() as int) ==> checkpoint(
            before,
            iter,
            total_steps,
        ) == before,
{
    reveal_strlit("{iter}");
    let pattern = "{iter}"@;
    let number = zero_padded(iter, decimal(total_steps).len());
    let template = before + pattern + after;
    let at = before.len() as int;
    law_replaced(before, pattern, number, 0);
    law_replaced(after, pattern, number, 0);
    law_replaced(template, pattern, number, at);
    assert(template.subrange(at, at + pattern.len()) == pattern);
    assert(template.skip(at + pattern.len()) == after);
    assert(template.take(at) == before);
}

/// Where a run writes to: the name of the dataset stands where the template has a place
/// for it, and what the template says is looked up from where the dataset lies. A dataset
/// that lies nowhere, or has no name of its own, is called `dataset`, and one that lies
/// nowhere, or under nothing, is taken to lie in the current directory.
pub proof fn law_export_place(
    style: PathStyle,
    base: Option<Seq<char>>,
    before: Seq<char>,
    after: Seq<char>,
)
    requires
        not_before(before + "{dataset}"@ + after, "{dataset}"@, before.len() as int),
        not_before(after, "{dataset}"@, after.len() as int),
    ensures
        ({
            let name = if base is Some && file_name_of(style, base->0) is Some {
                file_name_of(style, base->0)->0
            } else {
                "dataset"@
            };
            let above = if base is Some && parent_of(style, base->0) is Some {
                parent_of(style, base->0)->0
            } else {
                "."@
            };
            &&& export_dir(style, base, before + "{dataset}"@ + after) == normalized(
                style,
                path_joined(style, above, before + name + after),
            )
            &&& not_before(before, "{dataset}"@, before.len() as int) ==> export_dir(
                style,
                base,
                before,
            ) == normalized(style, path_joined(style, above, before))
        }),
{
    reveal_strlit("{dataset}");
    let pattern = "{dataset}"@;
    let name = if base is Some && file_name_of(style, base->0) is Some {
        file_name_of(style, base->0)->0
    } else {
        "dataset"@
    };
    let template = before + pattern + after;
    let at = before.len() as int;
    assert(template.subrange(at, at + pattern.len()) == pattern);
    assert(template.skip(at + pattern.len()) == after);
    assert(template.take(at) == before);
    law_replaced(template, pattern, name, at);
    law_replaced(after, pattern, name, 0);
    law_replaced(before, pattern, name, 0);
}

} // verus!
