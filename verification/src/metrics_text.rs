//! Prometheus text exposition of single metrics.
use vstd::prelude::*;
use crate::text::{decimal, push_decimal, push_str};

verus! {

/// The text of one metric: its HELP and TYPE lines, then its sample.
pub open spec fn metric_text(name: Seq<char>, help: Seq<char>, kind: Seq<char>, value: u64) -> Seq<char> {
    "# HELP "@ + name + " "@ + help + "\n"@ + "# TYPE "@ + name + " "@ + kind + "\n"@ + name + " "@ + decimal(
        value as nat,
    ) + "\n"@
}

/// Appends the text of one metric.
pub fn push_metric(s: &mut String, name: &str, help: &str, kind: &str, value: u64)
    ensures
        final(s)@ == old(s)@ + metric_text(name@, help@, kind@, value),
{
    push_str(s, "# HELP ");
    push_str(s, name);
    push_str(s, " ");
    push_str(s, help);
    push_str(s, "\n");
    push_str(s, "# TYPE ");
    push_str(s, name);
    push_str(s, " ");
    push_str(s, kind);
    push_str(s, "\n");
    push_str(s, name);
    push_str(s, " ");
    push_decimal(s, value);
    push_str(s, "\n");
    assert(final(s)@ =~= old(s)@ + metric_text(name@, help@, kind@, value));
}

} // verus!
