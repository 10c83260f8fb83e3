//! The lines that tell the operator how a pass ended.

use crate::matcher::PatternError;
use crate::pass::{PassError, PassErrorView};
use crate::registry::{DuplicateError, DuplicateView};
use crate::text::join;
use vstd::prelude::*;

verus! {

/// The decimal digit `d`, for `d` below ten.
pub open spec fn digit(d: nat) -> Seq<char> {
    if d == 0 {
        "0"@
    } else if d == 1 {
        "1"@
    } else if d == 2 {
        "2"@
    } else if d == 3 {
        "3"@
    } else if d == 4 {
        "4"@
    } else if d == 5 {
        "5"@
    } else if d == 6 {
        "6"@
    } else if d == 7 {
        "7"@
    } else if d == 8 {
        "8"@
    } else {
        "9"@
    }
}

/// The decimal numeral of `n`, without leading zeros.
pub open spec fn decimal(n: nat) -> Seq<char>
    decreases n,
{
    if n < 10 {
        digit(n)
    } else {
        decimal(n / 10) + digit(n % 10)
    }
}

/// The line for a pass that took `secs` whole seconds and
/// `subsec_millis` milliseconds beyond them: in seconds from one second
/// on, in milliseconds below.
pub open spec fn finished_line(secs: u64, subsec_millis: u32) -> Seq<char> {
    if secs >= 1 {
        "✓ Finished in "@ + decimal(secs as nat) + " seconds."@
    } else {
        "✓ Finished in "@ + decimal(subsec_millis as nat) + " ms."@
    }
}

/// The line for a failure with the message `message`.
pub open spec fn failure_line(message: Seq<char>) -> Seq<char> {
    "❌ "@ + message
}

/// The message for a method that was declared twice: the method and its
/// group, then every declaring class on a line of its own.
pub open spec fn duplicate_message(e: DuplicateView) -> Seq<char> {
    "Duplicate method name '"@ + e.method + "' found in group '"@ + e.group + "':\n"@ + join(
        e.sources.map_values(|source: Seq<char>| "- "@ + source),
        "\n"@,
    )
}

/// The message for a pattern that did not compile.
pub open spec fn pattern_message(e: PatternError) -> Seq<char> {
    match e {
        PatternError::GroupMarker => "The pattern of the group marker does not compile"@,
        PatternError::ClassDeclaration => "The pattern of the class declaration does not compile"@,
        PatternError::MethodMarker => "The pattern of the route marker does not compile"@,
    }
}

/// The message for a pass that failed.
pub open spec fn pass_message(e: PassErrorView) -> Seq<char> {
    match e {
        PassErrorView::Pattern(e) => pattern_message(e),
        PassErrorView::Duplicate(e) => duplicate_message(e),
    }
}

/// The decimal digit `d` as text.
fn digit_text(d: u64) -> (r: &'static str)
    requires
        d < 10,
    ensures
        r@ == digit(d as nat),
{
    if d == 0 {
        "0"
    } else if d == 1 {
        "1"
    } else if d == 2 {
        "2"
    } else if d == 3 {
        "3"
    } else if d == 4 {
        "4"
    } else if d == 5 {
        "5"
    } else if d == 6 {
        "6"
    } else if d == 7 {
        "7"
    } else if d == 8 {
        "8"
    } else {
        "9"
    }
}

/// Appends the decimal numeral of `n` to `out`.
fn push_decimal(out: &mut String, n: u64)
    ensures
        final(out)@ == old(out)@ + decimal(n as nat),
    decreases n,
{
    if n >= 10 {
        push_decimal(out, n / 10);
    }
    out.append(digit_text(n % 10));
    assert(out@ =~= old(out)@ + decimal(n as nat));
}

/// The line that reports the time a pass took.
pub fn finished_message(secs: u64, subsec_millis: u32) -> (r: String)
    ensures
        r@ == finished_line(secs, subsec_millis),
{
    let mut out = String::new();
    out.append("✓ Finished in ");
    if secs >= 1 {
        push_decimal(&mut out, secs);
        out.append(" seconds.");
    } else {
        push_decimal(&mut out, subsec_millis as u64);
        out.append(" ms.");
    }
    assert(out@ =~= finished_line(secs, subsec_millis));
    out
}

/// The line that reports a failure.
pub fn failure_message(message: &str) -> (r: String)
    ensures
        r@ == failure_line(message@),
{
    let mut out = String::new();
    out.append("❌ ");
    out.append(message);
    assert(out@ =~= failure_line(message@));
    out
}

impl DuplicateError {
    /// The message that names the method, its group and every class
    /// that declared it.
    pub fn message(&self) -> (r: String)
        ensures
            r@ == duplicate_message(self@),
    {
        let mut out = String::new();
        out.append("Duplicate method name '");
        out.append(self.method.as_str());
        out.append("' found in group '");
        out.append(self.group.as_str());
        out.append("':\n");
        let ghost head = out@;
        let ghost lines = self@.sources.map_values(|source: Seq<char>| "- "@ + source);
        for i in 0..self.sources.len()
            invariant
                lines == self@.sources.map_values(|source: Seq<char>| "- "@ + source),
                out@ == head + join(lines.take(i as int), "\n"@),
        {
            let ghost prev = join(lines.take(i as int), "\n"@);
            if i > 0 {
                out.append("\n");
            }
            out.append("- ");
            out.append(self.sources[i].as_str());
            proof {
                let now = lines.take(i + 1);
                assert(now.drop_last() =~= lines.take(i as int));
                assert(now.last() == "- "@ + self.sources@[i as int]@);
                if i == 0 {
                    assert(prev =~= Seq::<char>::empty());
                    assert(out@ =~= head + now[0]);
                } else {
                    assert(out@ =~= head + (prev + "\n"@ + now.last()));
                }
            }
        }
        proof {
            assert(lines.take(self.sources.len() as int) =~= lines);
            assert(out@ =~= duplicate_message(self@));
        }
        out
    }
}

impl PatternError {
    /// The message that names the pattern.
    pub fn message(&self) -> (r: String)
        ensures
            r@ == pattern_message(*self),
    {
        match self {
            PatternError::GroupMarker => "The pattern of the group marker does not compile".to_owned(),
            PatternError::ClassDeclaration => "The pattern of the class declaration does not compile".to_owned(),
            PatternError::MethodMarker => "The pattern of the route marker does not compile".to_owned(),
        }
    }
}

impl PassError {
    /// The message that tells the operator why the pass failed.
    pub fn message(&self) -> (r: String)
        ensures
            r@ == pass_message(self@),
    {
        match self {
            PassError::Pattern(e) => e.message(),
            PassError::Duplicate(e) => e.message(),
        }
    }
}

} // verus!
