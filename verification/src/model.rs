//! The mathematical model of the parser.
//!
//! Registered options and parameters, the scanning state machine that walks
//! the argument vector one token at a time, and the validation pass that
//! enforces required options and parameters are all described here as pure
//! functions over sequences of characters.  The executable code in
//! [`crate::arguments`] is verified against these definitions.

use vstd::prelude::*;

verus! {

/// One recognized option: a single-character short name, a long name used
/// for `--name` forms, a description for help output, and whether the
/// option consumes a value.
#[verifier::ext_equal]
pub struct OptionModel {
    pub short: char,
    pub long: Seq<char>,
    pub description: Seq<char>,
    pub has_argument: bool,
}

/// One positional parameter slot: tokens that are not options are bound to
/// parameters in declaration order.
#[verifier::ext_equal]
pub struct ParameterModel {
    pub name: Seq<char>,
    pub description: Seq<char>,
}

/// The registry a parser holds: required options, optional options,
/// positional parameters in declaration order, and the program name used in
/// the usage line.
#[verifier::ext_equal]
pub struct ParserModel {
    pub required_options: Seq<OptionModel>,
    pub options: Seq<OptionModel>,
    pub parameters: Seq<ParameterModel>,
    pub program_name: Seq<char>,
}

/// The outcome of a successful parse: flags that were present without a
/// value, a map from short name to the supplied value for value-taking
/// options, and a map from parameter name to the supplied positional token.
#[verifier::ext_equal]
pub struct ParsedModel {
    pub flags: Seq<char>,
    pub valued: Map<char, Seq<char>>,
    pub positionals: Map<Seq<char>, Seq<char>>,
}

/// The state carried from one token to the next while scanning: the result
/// accumulated so far, the short name of a value-taking option whose value
/// must come from the next token (if any), whether the `--` end-of-options
/// marker has been seen, and the index of the next unfilled parameter.
#[verifier::ext_equal]
pub struct ScanState {
    pub parsed: ParsedModel,
    pub pending: Option<char>,
    pub end_of_options: bool,
    pub next_positional: int,
}

/// The state scanning starts from: nothing accumulated.
pub open spec fn init_state() -> ScanState {
    ScanState {
        parsed: ParsedModel {
            flags: Seq::empty(),
            valued: Map::empty(),
            positionals: Map::empty(),
        },
        pending: None,
        end_of_options: false,
        next_positional: 0,
    }
}

/// The first option in `opts` whose short name is `c`, if any.
pub open spec fn find_short(opts: Seq<OptionModel>, c: char) -> Option<OptionModel>
    decreases opts.len(),
{
    if opts.len() == 0 {
        None
    } else if opts[0].short == c {
        Some(opts[0])
    } else {
        find_short(opts.drop_first(), c)
    }
}

/// The first option in `opts` whose long name is `name`, if any.
pub open spec fn find_long(opts: Seq<OptionModel>, name: Seq<char>) -> Option<OptionModel>
    decreases opts.len(),
{
    if opts.len() == 0 {
        None
    } else if opts[0].long == name {
        Some(opts[0])
    } else {
        find_long(opts.drop_first(), name)
    }
}

/// Lookup by short name: the required list is searched before the optional
/// list, and within each list the first match wins.
pub open spec fn lookup_short(reg: ParserModel, c: char) -> Option<OptionModel> {
    match find_short(reg.required_options, c) {
        Some(o) => Some(o),
        None => find_short(reg.options, c),
    }
}

/// Lookup by long name, with the same precedence as [`lookup_short`].
pub open spec fn lookup_long(reg: ParserModel, name: Seq<char>) -> Option<OptionModel> {
    match find_long(reg.required_options, name) {
        Some(o) => Some(o),
        None => find_long(reg.options, name),
    }
}

/// The index of the first occurrence of `c` in `s`, if any.
pub open spec fn first_index_of(s: Seq<char>, c: char) -> Option<int>
    decreases s.len(),
{
    if s.len() == 0 {
        None
    } else if s[0] == c {
        Some(0int)
    } else {
        match first_index_of(s.drop_first(), c) {
            Some(i) => Some(i + 1),
            None => None,
        }
    }
}

/// The error for an unknown short option character.
pub open spec fn msg_unknown_short(c: char) -> Seq<char> {
    "Unkown or duplicated option "@ + seq![c] + "!"@
}

/// The error for an unknown long option given in the `--name=value` form.
pub open spec fn msg_unknown_long_valued(name: Seq<char>) -> Seq<char> {
    "Unkown option '--"@ + name + "'!"@
}

/// The error for an unknown long option given without a value.
pub open spec fn msg_unknown_long(name: Seq<char>) -> Seq<char> {
    "Unkown option "@ + name + "!"@
}

/// The error for a `--name=value` form naming an option that takes no value.
pub open spec fn msg_no_arguments(name: Seq<char>) -> Seq<char> {
    "Option '--"@ + name + "' should have no arguments!"@
}

/// The error for a required option that was never supplied.
pub open spec fn msg_required_option(long: Seq<char>) -> Seq<char> {
    "Option '--"@ + long + "' is required!"@
}

/// The error for a declared parameter that was never supplied.
pub open spec fn msg_required_parameter(name: Seq<char>) -> Seq<char> {
    "Parameter <"@ + name + "> is required!"@
}

/// One step of the short-option scan over token `t`, at character position
/// `i` (position 0 holds the leading `-`).  An unknown character aborts the
/// scan; a value-taking flag consumes the rest of the token as its value,
/// or, when it is the last character, asks for the value from the next
/// token; any other flag is recorded and the scan moves on.
pub open spec fn shorts_step(
    reg: ParserModel,
    p: ParsedModel,
    t: Seq<char>,
    i: int,
) -> Result<(ParsedModel, Option<char>), Seq<char>>
    decreases t.len() - i,
{
    if i >= t.len() {
        Ok((p, None))
    } else {
        let c = t[i];
        match lookup_short(reg, c) {
            None => Err(msg_unknown_short(c)),
            Some(o) => {
                if o.has_argument {
                    if i < t.len() - 1 {
                        Ok((
                            ParsedModel { valued: p.valued.insert(c, t.subrange(i + 1, t.len() as int)), ..p },
                            None,
                        ))
                    } else {
                        Ok((p, Some(c)))
                    }
                } else {
                    shorts_step(reg, ParsedModel { flags: p.flags.push(c), ..p }, t, i + 1)
                }
            },
        }
    }
}

/// The long-option path for `rest`, the token with its leading `--`
/// stripped.  With an `=` the name is looked up and the value bound at
/// once; without one the name is looked up and a value-taking option asks
/// for its value from the next token.
pub open spec fn long_step(
    reg: ParserModel,
    p: ParsedModel,
    rest: Seq<char>,
) -> Result<(ParsedModel, Option<char>), Seq<char>> {
    match first_index_of(rest, '=') {
        Some(eq) => {
            let name = rest.subrange(0, eq);
            let value = rest.subrange(eq + 1, rest.len() as int);
            match lookup_long(reg, name) {
                None => Err(msg_unknown_long_valued(name)),
                Some(o) => {
                    if !o.has_argument {
                        Err(msg_no_arguments(name))
                    } else {
                        Ok((ParsedModel { valued: p.valued.insert(o.short, value), ..p }, None))
                    }
                },
            }
        },
        None => {
            match lookup_long(reg, rest) {
                None => Err(msg_unknown_long(rest)),
                Some(o) => {
                    if o.has_argument {
                        Ok((p, Some(o.short)))
                    } else {
                        Ok((ParsedModel { flags: p.flags.push(o.short), ..p }, None))
                    }
                },
            }
        },
    }
}

/// The positional path: the token fills the next declared parameter slot,
/// or is silently dropped once every slot is filled.
pub open spec fn positional_step(reg: ParserModel, st: ScanState, t: Seq<char>) -> ScanState {
    if st.next_positional < reg.parameters.len() {
        ScanState {
            parsed: ParsedModel {
                positionals: st.parsed.positionals.insert(
                    reg.parameters[st.next_positional].name,
                    t,
                ),
                ..st.parsed
            },
            next_positional: st.next_positional + 1,
            ..st
        }
    } else {
        st
    }
}

/// How one token advances the scan.  A pending value is bound first; then
/// `--` alone marks the end of options, `--name` takes the long path,
/// `-x...` takes the short path, and everything else (including every token
/// after the end-of-options marker) is positional.
pub open spec fn token_step(
    reg: ParserModel,
    st: ScanState,
    t: Seq<char>,
) -> Result<ScanState, Seq<char>> {
    match st.pending {
        Some(c) => Ok(
            ScanState {
                parsed: ParsedModel { valued: st.parsed.valued.insert(c, t), ..st.parsed },
                pending: None,
                ..st
            },
        ),
        None => {
            if !st.end_of_options && t.len() >= 2 && t[0] == '-' && t[1] == '-' {
                if t.len() == 2 {
                    Ok(ScanState { end_of_options: true, ..st })
                } else {
                    match long_step(reg, st.parsed, t.subrange(2, t.len() as int)) {
                        Ok(r) => Ok(ScanState { parsed: r.0, pending: r.1, ..st }),
                        Err(m) => Err(m),
                    }
                }
            } else if !st.end_of_options && t.len() >= 2 && t[0] == '-' {
                match shorts_step(reg, st.parsed, t, 1) {
                    Ok(r) => Ok(ScanState { parsed: r.0, pending: r.1, ..st }),
                    Err(m) => Err(m),
                }
            } else {
                Ok(positional_step(reg, st, t))
            }
        },
    }
}

/// The scan of a whole token sequence, one [`token_step`] per token; the
/// first error aborts it.
pub open spec fn scan(
    reg: ParserModel,
    tokens: Seq<Seq<char>>,
    st: ScanState,
) -> Result<ScanState, Seq<char>>
    decreases tokens.len(),
{
    if tokens.len() == 0 {
        Ok(st)
    } else {
        match token_step(reg, st, tokens[0]) {
            Ok(st2) => scan(reg, tokens.drop_first(), st2),
            Err(m) => Err(m),
        }
    }
}

/// Whether option `c` was supplied, as a bare flag or with a value.
pub open spec fn spec_present(p: ParsedModel, c: char) -> bool {
    p.flags.contains(c) || p.valued.contains_key(c)
}

/// The first required option in `reqs` that was not supplied, if any.
pub open spec fn missing_required(reqs: Seq<OptionModel>, p: ParsedModel) -> Option<OptionModel>
    decreases reqs.len(),
{
    if reqs.len() == 0 {
        None
    } else if !spec_present(p, reqs[0].short) {
        Some(reqs[0])
    } else {
        missing_required(reqs.drop_first(), p)
    }
}

/// The first declared parameter in `params` that was not supplied, if any.
pub open spec fn missing_parameter(
    params: Seq<ParameterModel>,
    p: ParsedModel,
) -> Option<ParameterModel>
    decreases params.len(),
{
    if params.len() == 0 {
        None
    } else if !p.positionals.contains_key(params[0].name) {
        Some(params[0])
    } else {
        missing_parameter(params.drop_first(), p)
    }
}

/// The tokens a parse actually scans: everything after the program name at
/// index 0.
pub open spec fn spec_tokens(args: Seq<Seq<char>>) -> Seq<Seq<char>> {
    if args.len() == 0 {
        Seq::empty()
    } else {
        args.skip(1)
    }
}

/// What a parse of `args` against registry `reg` returns: the scan runs
/// over the tokens after the program name, then the first missing required
/// option and the first missing parameter (in that order) turn a completed
/// scan into an error.  A value still pending when the input ends is left
/// unbound.
pub open spec fn spec_parse(
    reg: ParserModel,
    args: Seq<Seq<char>>,
) -> Result<ParsedModel, Seq<char>> {
    match scan(reg, spec_tokens(args), init_state()) {
        Err(m) => Err(m),
        Ok(st) => match missing_required(reg.required_options, st.parsed) {
            Some(o) => Err(msg_required_option(o.long)),
            None => match missing_parameter(reg.parameters, st.parsed) {
                Some(pm) => Err(msg_required_parameter(pm.name)),
                None => Ok(st.parsed),
            },
        },
    }
}

/// The map an association list stands for: later entries overwrite earlier
/// ones, as repeated insertion would.
pub open spec fn pairs_to_map<K, V>(s: Seq<(K, V)>) -> Map<K, V>
    decreases s.len(),
{
    if s.len() == 0 {
        Map::empty()
    } else {
        pairs_to_map(s.drop_last()).insert(s.last().0, s.last().1)
    }
}

/// A key whose last occurrence in the list is at index `i` maps to the
/// value stored there.
pub proof fn lemma_pairs_to_map_found<K, V>(s: Seq<(K, V)>, k: K, i: int)
    requires
        0 <= i < s.len(),
        s[i].0 == k,
        forall|j: int| i < j < s.len() ==> s[j].0 != k,
    ensures
        pairs_to_map(s).contains_key(k),
        pairs_to_map(s)[k] == s[i].1,
    decreases s.len(),
{
    if i < s.len() - 1 {
        lemma_pairs_to_map_found(s.drop_last(), k, i);
    }
}

/// A key that occurs nowhere in the list is not in the map.
pub proof fn lemma_pairs_to_map_absent<K, V>(s: Seq<(K, V)>, k: K)
    requires
        forall|j: int| 0 <= j < s.len() ==> s[j].0 != k,
    ensures
        !pairs_to_map(s).contains_key(k),
    decreases s.len(),
{
    if s.len() > 0 {
        lemma_pairs_to_map_absent(s.drop_last(), k);
    }
}

/// Appending a pair to the list inserts it into the map.
pub proof fn lemma_pairs_to_map_push<K, V>(s: Seq<(K, V)>, k: K, v: V)
    ensures
        pairs_to_map(s.push((k, v))) == pairs_to_map(s).insert(k, v),
{
    assert(s.push((k, v)).drop_last() =~= s);
}

/// [`find_short`] returns the entry at `i` when no earlier entry has the
/// same short name.
pub proof fn lemma_find_short_at(opts: Seq<OptionModel>, c: char, i: int)
    requires
        0 <= i < opts.len(),
        opts[i].short == c,
        forall|j: int| 0 <= j < i ==> opts[j].short != c,
    ensures
        find_short(opts, c) == Some(opts[i]),
    decreases i,
{
    if i > 0 {
        lemma_find_short_at(opts.drop_first(), c, i - 1);
    }
}

/// [`find_short`] returns nothing when no entry has the short name.
pub proof fn lemma_find_short_none(opts: Seq<OptionModel>, c: char)
    requires
        forall|j: int| 0 <= j < opts.len() ==> opts[j].short != c,
    ensures
        find_short(opts, c) is None,
    decreases opts.len(),
{
    if opts.len() > 0 {
        lemma_find_short_none(opts.drop_first(), c);
    }
}

/// [`find_long`] returns the entry at `i` when no earlier entry has the
/// same long name.
pub proof fn lemma_find_long_at(opts: Seq<OptionModel>, name: Seq<char>, i: int)
    requires
        0 <= i < opts.len(),
        opts[i].long == name,
        forall|j: int| 0 <= j < i ==> opts[j].long != name,
    ensures
        find_long(opts, name) == Some(opts[i]),
    decreases i,
{
    if i > 0 {
        lemma_find_long_at(opts.drop_first(), name, i - 1);
    }
}

/// [`find_long`] returns nothing when no entry has the long name.
pub proof fn lemma_find_long_none(opts: Seq<OptionModel>, name: Seq<char>)
    requires
        forall|j: int| 0 <= j < opts.len() ==> opts[j].long != name,
    ensures
        find_long(opts, name) is None,
    decreases opts.len(),
{
    if opts.len() > 0 {
        lemma_find_long_none(opts.drop_first(), name);
    }
}

/// [`first_index_of`] returns `i` when `s[i]` is the first occurrence.
pub proof fn lemma_first_index_of_at(s: Seq<char>, c: char, i: int)
    requires
        0 <= i < s.len(),
        s[i] == c,
        forall|j: int| 0 <= j < i ==> s[j] != c,
    ensures
        first_index_of(s, c) == Some(i),
    decreases i,
{
    if i > 0 {
        lemma_first_index_of_at(s.drop_first(), c, i - 1);
    }
}

/// [`first_index_of`] returns nothing when `c` does not occur in `s`.
pub proof fn lemma_first_index_of_none(s: Seq<char>, c: char)
    requires
        forall|j: int| 0 <= j < s.len() ==> s[j] != c,
    ensures
        first_index_of(s, c) is None,
    decreases s.len(),
{
    if s.len() > 0 {
        lemma_first_index_of_none(s.drop_first(), c);
    }
}

/// One unfolding of [`scan`] on a suffix of the token sequence.
pub proof fn lemma_scan_skip(reg: ParserModel, toks: Seq<Seq<char>>, st: ScanState, i: int)
    requires
        0 <= i < toks.len(),
    ensures
        scan(reg, toks.skip(i), st) == (match token_step(reg, st, toks[i]) {
            Ok(st2) => scan(reg, toks.skip(i + 1), st2),
            Err(m) => Err::<ScanState, Seq<char>>(m),
        }),
{
    assert(toks.skip(i)[0] == toks[i]);
    assert(toks.skip(i).drop_first() =~= toks.skip(i + 1));
}

/// One unfolding of [`missing_required`] on a suffix of the required list.
pub proof fn lemma_missing_required_skip(reqs: Seq<OptionModel>, p: ParsedModel, i: int)
    requires
        0 <= i < reqs.len(),
    ensures
        missing_required(reqs.skip(i), p) == (if !spec_present(p, reqs[i].short) {
            Some(reqs[i])
        } else {
            missing_required(reqs.skip(i + 1), p)
        }),
{
    assert(reqs.skip(i)[0] == reqs[i]);
    assert(reqs.skip(i).drop_first() =~= reqs.skip(i + 1));
}

/// One unfolding of [`missing_parameter`] on a suffix of the parameter list.
pub proof fn lemma_missing_parameter_skip(params: Seq<ParameterModel>, p: ParsedModel, i: int)
    requires
        0 <= i < params.len(),
    ensures
        missing_parameter(params.skip(i), p) == (if !p.positionals.contains_key(params[i].name) {
            Some(params[i])
        } else {
            missing_parameter(params.skip(i + 1), p)
        }),
{
    assert(params.skip(i)[0] == params[i]);
    assert(params.skip(i).drop_first() =~= params.skip(i + 1));
}

} // verus!
