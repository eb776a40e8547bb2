//! Validation of a level's result against its example output.
use vstd::prelude::*;
use crate::lines::{join_lines, joined};

verus! {

/// How a validation run ends.
#[derive(Debug, Clone, Copy, PartialEq, Eq, Structural)]
pub enum Verdict {
    /// The result equals the example output.
    Matches,
    /// Comparison was skipped by configuration; the result counts as matching.
    Forced,
    /// The result differs from the example output.
    Mismatch,
}

impl Verdict {
    /// Whether this verdict goes on to batch generation.
    pub fn generates(&self) -> (r: bool)
        ensures
            r == !(*self is Mismatch),
    {
        match self {
            Verdict::Mismatch => false,
            _ => true,
        }
    }
}

/// Options of a validation run.
pub struct ValidationConfig {
    /// Treat every result as matching and go on to batch generation.
    pub force_write: bool,
}

impl Default for ValidationConfig {
    fn default() -> (r: Self)
        ensures
            r.force_write == false,
    {
        ValidationConfig { force_write: false }
    }
}

/// The verdict on `output` against the example output `expected`.
pub open spec fn verdict_of(
    output: Seq<Seq<char>>,
    expected: Seq<Seq<char>>,
    force_write: bool,
) -> Verdict {
    if force_write {
        Verdict::Forced
    } else if output == expected {
        Verdict::Matches
    } else {
        Verdict::Mismatch
    }
}

/// Compares a level's result with its example output, line by line.
pub fn compare_output(
    output: &Vec<String>,
    expected: &Vec<String>,
    config: &ValidationConfig,
) -> (r: Verdict)
    ensures
        r == verdict_of(output.deep_view(), expected.deep_view(), config.force_write),
{
    if config.force_write {
        return Verdict::Forced;
    }
    if output.len() != expected.len() {
        assert(output.deep_view().len() != expected.deep_view().len());
        return Verdict::Mismatch;
    }
    let mut i: usize = 0;
    while i < output.len()
        invariant
            i <= output.len(),
            output.len() == expected.len(),
            !config.force_write,
            forall|j: int| 0 <= j < i ==> output.deep_view()[j] == expected.deep_view()[j],
        decreases output.len() - i,
    {
        if !(output[i] == expected[i]) {
            assert(output.deep_view()[i as int] != expected.deep_view()[i as int]);
            return Verdict::Mismatch;
        }
        i += 1;
    }
    assert(output.deep_view() =~= expected.deep_view());
    Verdict::Matches
}

/// What a validation run shows: a success line, the forced result, or the
/// result and the example output one after the other.
pub open spec fn report_of(
    verdict: Verdict,
    output: Seq<Seq<char>>,
    expected: Seq<Seq<char>>,
) -> Seq<char> {
    match verdict {
        Verdict::Matches => "Solution matches expected output!"@,
        Verdict::Forced => "-------- Forced Output --------\n"@ + joined(output) + "\n"@,
        Verdict::Mismatch => "----------- Output -----------\n"@ + joined(output)
            + "\n\n---------- Expected ----------\n"@ + joined(expected),
    }
}

/// The text that a validation run shows for `verdict`.
pub fn validation_report(verdict: Verdict, output: &Vec<String>, expected: &Vec<String>) -> (r:
    String)
    ensures
        r@ == report_of(verdict, output.deep_view(), expected.deep_view()),
{
    match verdict {
        Verdict::Matches => String::from_str("Solution matches expected output!"),
        Verdict::Forced => {
            let mut r = String::from_str("-------- Forced Output --------\n");
            r.append(join_lines(output).as_str());
            r.append("\n");
            r
        },
        Verdict::Mismatch => {
            let mut r = String::from_str("----------- Output -----------\n");
            r.append(join_lines(output).as_str());
            r.append("\n\n---------- Expected ----------\n");
            r.append(join_lines(expected).as_str());
            r
        },
    }
}

/// A validation run takes the same branch whenever it compares the same result
/// with the same example output under the same options; unforced, it goes on to
/// generation exactly when the two are equal line for line.
pub proof fn lemma_validation_deterministic(
    output: Seq<Seq<char>>,
    expected: Seq<Seq<char>>,
    other_output: Seq<Seq<char>>,
    other_expected: Seq<Seq<char>>,
    force_write: bool,
)
    requires
        output == other_output,
        expected == other_expected,
    ensures
        verdict_of(output, expected, force_write) == verdict_of(
            other_output,
            other_expected,
            force_write,
        ),
        !force_write ==> (!(verdict_of(output, expected, force_write) is Mismatch) <==> output
            == expected),
{
}

} // verus!
