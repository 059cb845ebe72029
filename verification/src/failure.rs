//! Errors as they are told to the user.

use crate::text::texts;
use vstd::prelude::*;
use vstd::string::*;

verus! {

/// What went wrong: the text of an error, followed by the texts of its causes, the
/// nearest one first.
#[derive(Debug)]
pub struct Failure {
    pub chain: Vec<String>,
}

impl Failure {
    /// An error has a text of its own.
    pub open spec fn valid(self) -> bool {
        self.chain@.len() > 0
    }

    /// The texts of the error and its causes.
    pub open spec fn causes(self) -> Seq<Seq<char>> {
        texts(self.chain@)
    }

    /// An error without a cause.
    pub fn msg(text: String) -> (r: Failure)
        ensures
            r.valid(),
            r.causes() == seq![text@],
    {
        let chain: Vec<String> = vec![text];
        assert(texts(chain@) == seq![text@]);
        Failure { chain }
    }

    /// An error with this text, whose cause is this one.
    pub fn context(self, text: String) -> (r: Failure)
        ensures
            r.valid(),
            r.causes() == seq![text@] + self.causes(),
    {
        let mut chain: Vec<String> = self.chain;
        chain.insert(0, text);
        assert(texts(chain@) == seq![text@] + texts(self.chain@));
        Failure { chain }
    }
}

/// An error as the viewer shows it.
#[derive(Debug)]
pub struct ErrorDisplay {
    pub headline: String,
    pub context: Vec<String>,
}

/// What an error display says.
#[verifier::ext_equal]
pub struct Shown {
    pub headline: Seq<char>,
    pub context: Seq<Seq<char>>,
}

/// How an error is shown: its own text, and below it those of its causes.
pub open spec fn shown(causes: Seq<Seq<char>>) -> Shown {
    Shown { headline: causes[0], context: causes.skip(1) }
}

impl View for ErrorDisplay {
    type V = Shown;

    open spec fn view(&self) -> Shown {
        Shown { headline: self.headline@, context: texts(self.context@) }
    }
}

/// `"mark text"`.
pub open spec fn marked(mark: Seq<char>, text: Seq<char>) -> Seq<char> {
    mark + text
}

impl ErrorDisplay {
    /// Makes `error` ready to be shown.
    pub fn new(error: &Failure) -> (r: Self)
        requires
            error.valid(),
        ensures
            r@ == shown(error.causes()),
    {
        let headline: String = error.chain[0].clone();
        let mut context: Vec<String> = Vec::new();
        let mut i: usize = 1;
        while i < error.chain.len()
            invariant
                1 <= i <= error.chain.len(),
                texts(context@) == error.causes().subrange(1, i as int),
            decreases error.chain.len() - i,
        {
            let cause: String = error.chain[i].clone();
            let ghost before = context@;
            context.push(cause);
            i = i + 1;
            assert(texts(context@) == texts(before).push(cause@));
            assert(error.causes().subrange(1, i as int) == error.causes().subrange(1, i - 1).push(
                error.causes()[i - 1],
            ));
        }
        assert(error.causes().subrange(1, error.chain@.len() as int) == error.causes().skip(1));
        ErrorDisplay { headline, context }
    }

    /// The heading of the display.
    pub fn heading(&self) -> (r: String)
        ensures
            r@ == marked("❌ "@, self@.headline),
    {
        let mut out: String = "❌ ".to_owned();
        out.append(self.headline.as_str());
        out
    }

    /// The lines below the heading.
    pub fn bullets(&self) -> (r: Vec<String>)
        ensures
            texts(r@) == self@.context.map_values(|c: Seq<char>| marked("• "@, c)),
    {
        let mut out: Vec<String> = Vec::new();
        let mut i: usize = 0;
        let ghost want = self@.context.map_values(|c: Seq<char>| marked("• "@, c));
        while i < self.context.len()
            invariant
                i <= self.context.len(),
                want == self@.context.map_values(|c: Seq<char>| marked("• "@, c)),
                texts(out@) == want.take(i as int),
            decreases self.context.len() - i,
        {
            let mut line: String = "• ".to_owned();
            line.append(self.context[i].as_str());
            let ghost before = out@;
            out.push(line);
            assert(texts(out@) == texts(before).push(line@));
            assert(self@.context[i as int] == self.context@[i as int]@);
            i = i + 1;
            assert(want.take(i as int) == want.take(i - 1).push(want[i - 1]));
        }
        assert(want.take(want.len() as int) == want);
        out
    }
}

/// An error is shown with its own text on top and all of its causes below, the nearest one
/// first; none is left out.
pub proof fn law_error_is_shown(causes: Seq<Seq<char>>, i: int)
    requires
        causes.len() > 0,
    ensures
        shown(causes).headline == causes[0],
        shown(causes).context.len() + 1 == causes.len(),
        0 < i < causes.len() ==> shown(causes).context[i - 1] == causes[i],
{
}

} // verus!
