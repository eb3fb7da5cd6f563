//! Laws of the scanning state machine, stated and proved over the model in
//! [`crate::model`].  Together with the contract of
//! [`crate::arguments::Parser::parse`], which pins its result to
//! [`crate::model::spec_parse`], they carry over to the executable parser.

use vstd::prelude::*;

use crate::model::{
    positional_step, scan, spec_parse, token_step, ParsedModel, ParserModel, ScanState,
};

verus! {

/// A scan that binds every token positionally: each one fills the next
/// declared parameter slot or is dropped, and nothing else changes.
pub open spec fn positional_scan(
    reg: ParserModel,
    tokens: Seq<Seq<char>>,
    st: ScanState,
) -> ScanState
    decreases tokens.len(),
{
    if tokens.len() == 0 {
        st
    } else {
        positional_scan(reg, tokens.drop_first(), positional_step(reg, st, tokens[0]))
    }
}

/// The bare token `--`, met while no value is pending, sets the
/// end-of-options state and is consumed without being recorded anywhere.
pub proof fn lemma_end_of_options_marker(reg: ParserModel, st: ScanState, t: Seq<char>)
    requires
        st.pending is None,
        !st.end_of_options,
        t.len() == 2,
        t[0] == '-',
        t[1] == '-',
    ensures
        token_step(reg, st, t) == Ok::<ScanState, Seq<char>>(
            ScanState { end_of_options: true, ..st },
        ),
{
}

/// Once the end-of-options state is set, every remaining token — whatever
/// characters it begins with — is treated as a positional, to the end of the
/// input: the rest of the scan is exactly [`positional_scan`], and in
/// particular it can no longer fail.
pub proof fn lemma_after_end_of_options_all_positional(
    reg: ParserModel,
    tokens: Seq<Seq<char>>,
    st: ScanState,
)
    requires
        st.pending is None,
        st.end_of_options,
    ensures
        scan(reg, tokens, st) == Ok::<ScanState, Seq<char>>(positional_scan(reg, tokens, st)),
    decreases tokens.len(),
{
    if tokens.len() > 0 {
        lemma_after_end_of_options_all_positional(
            reg,
            tokens.drop_first(),
            positional_step(reg, st, tokens[0]),
        );
    }
}

/// Parsing is a pure function of the registry and the argument vector: the
/// parser holds no hidden state, so two parses of the same arguments against
/// the same registry yield the same outcome — and therefore, through the
/// accessor contracts, identical accessor outputs.
pub proof fn lemma_parse_deterministic(
    reg: ParserModel,
    args: Seq<Seq<char>>,
    r1: Result<ParsedModel, Seq<char>>,
    r2: Result<ParsedModel, Seq<char>>,
)
    requires
        r1 == spec_parse(reg, args),
        r2 == spec_parse(reg, args),
    ensures
        r1 == r2,
{
}

} // verus!
