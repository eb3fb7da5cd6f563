//! The parser itself: a [`Parser`] accumulates registered options and
//! parameters, and its [`Parser::parse`] walks an argument vector and either
//! produces a [`ParsedArgs`] or fails with a descriptive message.  Every
//! function is specified against the model in [`crate::model`].

use vstd::prelude::*;

use crate::model::{
    find_long, find_short, init_state, lemma_find_long_at, lemma_find_long_none,
    lemma_find_short_at, lemma_find_short_none, lemma_missing_parameter_skip,
    lemma_missing_required_skip, lemma_pairs_to_map_absent, lemma_pairs_to_map_found,
    lemma_pairs_to_map_push, lemma_scan_skip, long_step, lookup_long, lookup_short,
    missing_parameter, missing_required, pairs_to_map, scan, shorts_step, spec_parse,
    spec_present, spec_tokens, OptionModel, ParameterModel, ParsedModel, ParserModel, ScanState,
};
use crate::help::{
    bundle_upto, count_bundled, lemma_empty_bundle, optional_valued_upto, options_help_upto,
    param_help_upto,
    parameter_list_upto, required_bundle_upto, required_valued_upto, spec_help_text,
    spec_option_help_line, spec_optional_options, spec_parameter_list, spec_required_options,
    spec_usage_line,
};
use crate::text::{find_char, join3, join_char, str_eq, string_push};

verus! {

/// One registered option.
struct OptionSpec {
    short: char,
    long: String,
    description: String,
    has_argument: bool,
}

impl View for OptionSpec {
    type V = OptionModel;

    closed spec fn view(&self) -> OptionModel {
        OptionModel {
            short: self.short,
            long: self.long@,
            description: self.description@,
            has_argument: self.has_argument,
        }
    }
}

/// One registered positional parameter.
struct Parameter {
    name: String,
    description: String,
}

impl View for Parameter {
    type V = ParameterModel;

    closed spec fn view(&self) -> ParameterModel {
        ParameterModel { name: self.name@, description: self.description@ }
    }
}

/// A registry of recognized options and positional parameters.  Build it
/// with [`Parser::option`] and [`Parser::parameter`], then hand argument
/// vectors to [`Parser::parse`]; parsing never changes the registry, so one
/// registry serves any number of parses.
pub struct Parser {
    required_options: Vec<OptionSpec>,
    options: Vec<OptionSpec>,
    parameters: Vec<Parameter>,
    program_name: String,
}

impl View for Parser {
    type V = ParserModel;

    closed spec fn view(&self) -> ParserModel {
        ParserModel {
            required_options: self.required_options@.map_values(|o: OptionSpec| o@),
            options: self.options@.map_values(|o: OptionSpec| o@),
            parameters: self.parameters@.map_values(|p: Parameter| p@),
            program_name: self.program_name@,
        }
    }
}

/// The result of one successful parse, read through [`ParsedArgs::has_option`],
/// [`ParsedArgs::get_option`] and [`ParsedArgs::get_parameter`].
pub struct ParsedArgs {
    options: Vec<char>,
    options_with_args: Vec<(char, String)>,
    parameters: Vec<(String, String)>,
}

impl View for ParsedArgs {
    type V = ParsedModel;

    closed spec fn view(&self) -> ParsedModel {
        ParsedModel {
            flags: self.options@,
            valued: pairs_to_map(
                self.options_with_args@.map_values(|p: (char, String)| (p.0, p.1@)),
            ),
            positionals: pairs_to_map(
                self.parameters@.map_values(|p: (String, String)| (p.0@, p.1@)),
            ),
        }
    }
}

impl ParsedArgs {
    /// Whether the option was supplied, as a bare flag or with a value.
    pub fn has_option(&self, short_name: char) -> (r: bool)
        ensures
            r == spec_present(self@, short_name),
    {
        if self.contains_flag(short_name) {
            true
        } else {
            self.get_option(short_name).is_some()
        }
    }

    /// The value supplied for a value-taking option, or nothing when the
    /// option was absent or present as a bare flag.
    pub fn get_option(&self, short_name: char) -> (r: Option<&String>)
        ensures
            match r {
                Some(v) => self@.valued.contains_key(short_name) && v@ == self@.valued[short_name],
                None => !self@.valued.contains_key(short_name),
            },
    {
        let ghost m = self.options_with_args@.map_values(|p: (char, String)| (p.0, p.1@));
        let n = self.options_with_args.len();
        let mut i: usize = n;
        while i > 0
            invariant
                i <= n,
                n == self.options_with_args.len(),
                m == self.options_with_args@.map_values(|p: (char, String)| (p.0, p.1@)),
                forall|j: int| i <= j < n ==> m[j].0 != short_name,
            decreases i,
        {
            i = i - 1;
            if self.options_with_args[i].0 == short_name {
                proof {
                    lemma_pairs_to_map_found(m, short_name, i as int);
                }
                return Some(&self.options_with_args[i].1);
            }
        }
        proof {
            lemma_pairs_to_map_absent(m, short_name);
        }
        None
    }

    /// The value bound to a positional parameter, or nothing when the
    /// parameter was not declared or not supplied.
    pub fn get_parameter(&self, name: &str) -> (r: Option<&String>)
        ensures
            match r {
                Some(v) => self@.positionals.contains_key(name@) && v@ == self@.positionals[name@],
                None => !self@.positionals.contains_key(name@),
            },
    {
        let ghost m = self.parameters@.map_values(|p: (String, String)| (p.0@, p.1@));
        let n = self.parameters.len();
        let mut i: usize = n;
        while i > 0
            invariant
                i <= n,
                n == self.parameters.len(),
                m == self.parameters@.map_values(|p: (String, String)| (p.0@, p.1@)),
                forall|j: int| i <= j < n ==> m[j].0 != name@,
            decreases i,
        {
            i = i - 1;
            if str_eq(self.parameters[i].0.as_str(), name) {
                proof {
                    lemma_pairs_to_map_found(m, name@, i as int);
                }
                return Some(&self.parameters[i].1);
            }
        }
        proof {
            lemma_pairs_to_map_absent(m, name@);
        }
        None
    }

    /// Records a bare flag.
    fn push_flag(&mut self, c: char)
        ensures
            final(self)@ == (ParsedModel { flags: old(self)@.flags.push(c), ..old(self)@ }),
    {
        self.options.push(c);
        proof {
            assert(final(self)@ =~= (ParsedModel { flags: old(self)@.flags.push(c), ..old(self)@ }));
        }
    }

    /// Binds a value to a value-taking option; a later binding for the same
    /// option overwrites an earlier one.
    fn insert_valued(&mut self, c: char, value: String)
        ensures
            final(self)@ == (ParsedModel {
                valued: old(self)@.valued.insert(c, value@),
                ..old(self)@
            }),
    {
        let ghost vold = self.options_with_args@.map_values(|p: (char, String)| (p.0, p.1@));
        let ghost vv = value@;
        self.options_with_args.push((c, value));
        proof {
            assert(self.options_with_args@.map_values(|p: (char, String)| (p.0, p.1@)) =~= vold.push(
                (c, vv),
            ));
            lemma_pairs_to_map_push(vold, c, vv);
            assert(final(self)@ =~= (ParsedModel {
                valued: old(self)@.valued.insert(c, vv),
                ..old(self)@
            }));
        }
    }

    /// Binds a positional token to a parameter name.
    fn insert_positional(&mut self, name: String, value: String)
        ensures
            final(self)@ == (ParsedModel {
                positionals: old(self)@.positionals.insert(name@, value@),
                ..old(self)@
            }),
    {
        let ghost vold = self.parameters@.map_values(|p: (String, String)| (p.0@, p.1@));
        let ghost nv = name@;
        let ghost vv = value@;
        self.parameters.push((name, value));
        proof {
            assert(self.parameters@.map_values(|p: (String, String)| (p.0@, p.1@)) =~= vold.push(
                (nv, vv),
            ));
            lemma_pairs_to_map_push(vold, nv, vv);
            assert(final(self)@ =~= (ParsedModel {
                positionals: old(self)@.positionals.insert(nv, vv),
                ..old(self)@
            }));
        }
    }

    /// Whether the option was supplied as a bare flag.
    fn contains_flag(&self, short_name: char) -> (r: bool)
        ensures
            r == self@.flags.contains(short_name),
    {
        let n = self.options.len();
        let mut i: usize = 0;
        while i < n
            invariant
                i <= n,
                n == self.options.len(),
                forall|j: int| 0 <= j < i ==> self.options@[j] != short_name,
            decreases n - i,
        {
            if self.options[i] == short_name {
                assert(self@.flags[i as int] == short_name);
                return true;
            }
            i = i + 1;
        }
        false
    }
}

impl Parser {
    /// A fresh registry with no options and no parameters.
    pub fn new(program_name: &str) -> (r: Parser)
        ensures
            r@ == (ParserModel {
                required_options: Seq::empty(),
                options: Seq::empty(),
                parameters: Seq::empty(),
                program_name: program_name@,
            }),
    {
        let r = Parser {
            required_options: Vec::new(),
            options: Vec::new(),
            parameters: Vec::new(),
            program_name: String::from_str(program_name),
        };
        proof {
            assert(r@.required_options =~= Seq::<OptionModel>::empty());
            assert(r@.options =~= Seq::<OptionModel>::empty());
            assert(r@.parameters =~= Seq::<ParameterModel>::empty());
        }
        r
    }

    /// Registers an option, appending it to the required or the optional
    /// list.  No uniqueness check is made: of two options registered with
    /// the same name, lookup prefers the required list, and the earlier
    /// registration within a list.
    pub fn option(
        &mut self,
        short: char,
        long: &str,
        description: &str,
        required: bool,
        has_argument: bool,
    )
        ensures
            ({
                let o = OptionModel {
                    short: short,
                    long: long@,
                    description: description@,
                    has_argument: has_argument,
                };
                if required {
                    final(self)@ == (ParserModel {
                        required_options: old(self)@.required_options.push(o),
                        ..old(self)@
                    })
                } else {
                    final(self)@ == (ParserModel { options: old(self)@.options.push(o), ..old(self)@ })
                }
            }),
    {
        let option = OptionSpec {
            short,
            long: String::from_str(long),
            description: String::from_str(description),
            has_argument,
        };
        if required {
            self.required_options.push(option);
            proof {
                assert(self.required_options@.map_values(|o: OptionSpec| o@) =~= old(
                    self,
                ).required_options@.map_values(|o: OptionSpec| o@).push(
                    self.required_options@.last()@,
                ));
            }
        } else {
            self.options.push(option);
            proof {
                assert(self.options@.map_values(|o: OptionSpec| o@) =~= old(
                    self,
                ).options@.map_values(|o: OptionSpec| o@).push(self.options@.last()@));
            }
        }
    }

    /// Registers a positional parameter; declaration order is binding order,
    /// and every declared parameter must be supplied for a parse to succeed.
    pub fn parameter(&mut self, name: &str, description: &str)
        ensures
            final(self)@ == (ParserModel {
                parameters: old(self)@.parameters.push(
                    ParameterModel { name: name@, description: description@ },
                ),
                ..old(self)@
            }),
    {
        self.parameters.push(
            Parameter { name: String::from_str(name), description: String::from_str(description) },
        );
        proof {
            assert(self.parameters@.map_values(|p: Parameter| p@) =~= old(
                self,
            ).parameters@.map_values(|p: Parameter| p@).push(self.parameters@.last()@));
        }
    }

    /// The registered option with this short name, required list first.
    fn get_option(&self, short_name: char) -> (r: Option<&OptionSpec>)
        ensures
            match r {
                Some(o) => lookup_short(self@, short_name) == Some(o@),
                None => lookup_short(self@, short_name) is None,
            },
    {
        let ghost req = self@.required_options;
        let ghost opt = self@.options;
        let mut i: usize = 0;
        let n = self.required_options.len();
        while i < n
            invariant
                i <= n,
                n == self.required_options.len(),
                req == self@.required_options,
                forall|j: int| 0 <= j < i ==> req[j].short != short_name,
            decreases n - i,
        {
            if self.required_options[i].short == short_name {
                proof {
                    lemma_find_short_at(req, short_name, i as int);
                }
                return Some(&self.required_options[i]);
            }
            i = i + 1;
        }
        proof {
            lemma_find_short_none(req, short_name);
        }
        let mut i: usize = 0;
        let n = self.options.len();
        while i < n
            invariant
                i <= n,
                n == self.options.len(),
                opt == self@.options,
                find_short(self@.required_options, short_name) is None,
                forall|j: int| 0 <= j < i ==> opt[j].short != short_name,
            decreases n - i,
        {
            if self.options[i].short == short_name {
                proof {
                    lemma_find_short_at(opt, short_name, i as int);
                }
                return Some(&self.options[i]);
            }
            i = i + 1;
        }
        proof {
            lemma_find_short_none(opt, short_name);
        }
        None
    }

    /// The registered option with this long name, required list first.
    fn get_long_option(&self, long_name: &str) -> (r: Option<&OptionSpec>)
        ensures
            match r {
                Some(o) => lookup_long(self@, long_name@) == Some(o@),
                None => lookup_long(self@, long_name@) is None,
            },
    {
        let ghost req = self@.required_options;
        let ghost opt = self@.options;
        let mut i: usize = 0;
        let n = self.required_options.len();
        while i < n
            invariant
                i <= n,
                n == self.required_options.len(),
                req == self@.required_options,
                forall|j: int| 0 <= j < i ==> req[j].long != long_name@,
            decreases n - i,
        {
            if str_eq(self.required_options[i].long.as_str(), long_name) {
                proof {
                    lemma_find_long_at(req, long_name@, i as int);
                }
                return Some(&self.required_options[i]);
            }
            i = i + 1;
        }
        proof {
            lemma_find_long_none(req, long_name@);
        }
        let mut i: usize = 0;
        let n = self.options.len();
        while i < n
            invariant
                i <= n,
                n == self.options.len(),
                opt == self@.options,
                find_long(self@.required_options, long_name@) is None,
                forall|j: int| 0 <= j < i ==> opt[j].long != long_name@,
            decreases n - i,
        {
            if str_eq(self.options[i].long.as_str(), long_name) {
                proof {
                    lemma_find_long_at(opt, long_name@, i as int);
                }
                return Some(&self.options[i]);
            }
            i = i + 1;
        }
        proof {
            lemma_find_long_none(opt, long_name@);
        }
        None
    }

    /// Scans a combined short-option token such as `-abc` or `-fvalue`,
    /// character by character after the leading dash.
    fn parse_short_options(
        &self,
        argument: &str,
        args: &mut ParsedArgs,
        pending: &mut Option<char>,
    ) -> (r: Result<(), String>)
        requires
            argument@.len() >= 2,
            argument@[0] == '-',
            *old(pending) is None,
        ensures
            match r {
                Ok(_) => (shorts_step(self@, old(args)@, argument@, 1) matches Ok(pp)
                    && final(args)@ == pp.0 && *final(pending) == pp.1),
                Err(m) => (shorts_step(self@, old(args)@, argument@, 1) matches Err(e) && m@
                    == e),
            },
    {
        let alen = argument.unicode_len();
        let mut i: usize = 1;
        while i < alen
            invariant
                1 <= i <= alen,
                alen == argument@.len(),
                *pending == *old(pending),
                *old(pending) is None,
                shorts_step(self@, old(args)@, argument@, 1) == shorts_step(
                    self@,
                    args@,
                    argument@,
                    i as int,
                ),
            decreases alen - i,
        {
            let c = argument.get_char(i);
            let opt = self.get_option(c);
            match opt {
                Some(o) => {
                    if o.has_argument {
                        if i < alen - 1 {
                            let value = argument.substring_char(i + 1, alen);
                            args.insert_valued(c, String::from_str(value));
                            return Ok(());
                        } else {
                            *pending = Some(c);
                            return Ok(());
                        }
                    } else {
                        args.push_flag(c);
                    }
                },
                None => {
                    return Err(join_char("Unkown or duplicated option ", c, "!"));
                },
            }
            i = i + 1;
        }
        Ok(())
    }

    /// Handles a long-option token such as `--name` or `--name=value`;
    /// `argument` still carries its leading `--`.
    fn parse_long_option(
        &self,
        argument: &str,
        args: &mut ParsedArgs,
        pending: &mut Option<char>,
    ) -> (r: Result<(), String>)
        requires
            argument@.len() > 2,
            argument@[0] == '-',
            argument@[1] == '-',
            *old(pending) is None,
        ensures
            match r {
                Ok(_) => (long_step(self@, old(args)@, argument@.subrange(2, argument@.len() as int))
                    matches Ok(pp) && final(args)@ == pp.0 && *final(pending) == pp.1),
                Err(m) => (long_step(self@, old(args)@, argument@.subrange(2, argument@.len() as int))
                    matches Err(e) && m@ == e),
            },
    {
        let alen = argument.unicode_len();
        let rest = argument.substring_char(2, alen);
        let rest_len = rest.unicode_len();
        match find_char(rest, '=') {
            Some(eq) => {
                let name = rest.substring_char(0, eq);
                let value = rest.substring_char(eq + 1, rest_len);
                match self.get_long_option(name) {
                    Some(opt) => {
                        if !opt.has_argument {
                            return Err(join3("Option '--", name, "' should have no arguments!"));
                        }
                        let short = opt.short;
                        args.insert_valued(short, String::from_str(value));
                        Ok(())
                    },
                    None => Err(join3("Unkown option '--", name, "'!")),
                }
            },
            None => {
                match self.get_long_option(rest) {
                    Some(opt) => {
                        if opt.has_argument {
                            *pending = Some(opt.short);
                        } else {
                            let short = opt.short;
                            args.push_flag(short);
                        }
                        Ok(())
                    },
                    None => Err(join3("Unkown option ", rest, "!")),
                }
            },
        }
    }

    /// Parses an argument vector against the registry.  The token at index 0
    /// is the program invocation name and is skipped; the remaining tokens
    /// are scanned left to right exactly as [`crate::model::scan`] describes,
    /// and a completed scan is then checked for missing required options and
    /// missing parameters.  The result, success or error, is precisely
    /// [`crate::model::spec_parse`] of the registry and the argument vector.
    pub fn parse(&self, args: Vec<String>) -> (r: Result<ParsedArgs, String>)
        ensures
            ({
                let s = spec_parse(self@, args.deep_view());
                match r {
                    Ok(p) => s matches Ok(m) && p@ == m,
                    Err(e) => s matches Err(m) && e@ == m,
                }
            }),
    {
        let mut parsed = ParsedArgs {
            options: Vec::new(),
            options_with_args: Vec::new(),
            parameters: Vec::new(),
        };
        proof {
            assert(parsed.options_with_args@.map_values(|p: (char, String)| (p.0, p.1@)) =~= Seq::<
                (char, Seq<char>),
            >::empty());
            assert(parsed.parameters@.map_values(|p: (String, String)| (p.0@, p.1@)) =~= Seq::<
                (Seq<char>, Seq<char>),
            >::empty());
            assert(parsed@ =~= init_state().parsed);
        }
        let mut pending: Option<char> = None;
        let mut end_of_options = false;
        let mut parameter_index: usize = 0;
        let n = args.len();
        let mut idx: usize = 1;
        let ghost toks = spec_tokens(args.deep_view());
        proof {
            assert(toks.skip(0) =~= toks);
        }
        while idx < n
            invariant
                1 <= idx,
                idx - 1 <= toks.len(),
                n == args.len(),
                toks == spec_tokens(args.deep_view()),
                toks.len() == (if n == 0 { 0int } else { n - 1 }),
                parameter_index <= self.parameters.len(),
                scan(self@, toks, init_state()) == scan(
                    self@,
                    toks.skip(idx - 1),
                    (ScanState {
                        parsed: parsed@,
                        pending: pending,
                        end_of_options: end_of_options,
                        next_positional: parameter_index as int,
                    }),
                ),
            decreases n - idx,
        {
            let ghost st_before = ScanState {
                parsed: parsed@,
                pending: pending,
                end_of_options: end_of_options,
                next_positional: parameter_index as int,
            };
            proof {
                lemma_scan_skip(self@, toks, st_before, idx - 1);
                assert(toks[idx - 1] == args.deep_view()[idx as int]);
            }
            let argument: &String = &args[idx];
            proof {
                assert(argument@ == args.deep_view()[idx as int]);
            }
            match pending {
                Some(c) => {
                    parsed.insert_valued(c, argument.clone());
                    pending = None;
                },
                None => {
                    let alen = argument.as_str().unicode_len();
                    let is_dash = alen >= 1 && argument.as_str().get_char(0) == '-';
                    let is_double_dash = is_dash && alen >= 2 && argument.as_str().get_char(1)
                        == '-';
                    if !end_of_options && is_double_dash {
                        if alen == 2 {
                            end_of_options = true;
                        } else {
                            match self.parse_long_option(
                                argument.as_str(),
                                &mut parsed,
                                &mut pending,
                            ) {
                                Err(msg) => {
                                    return Err(msg);
                                },
                                Ok(_) => {},
                            }
                        }
                    } else if !end_of_options && is_dash && alen >= 2 {
                        match self.parse_short_options(argument.as_str(), &mut parsed, &mut pending) {
                            Err(msg) => {
                                return Err(msg);
                            },
                            Ok(_) => {},
                        }
                    } else if parameter_index < self.parameters.len() {
                        let pname = self.parameters[parameter_index].name.clone();
                        parsed.insert_positional(pname, argument.clone());
                        parameter_index = parameter_index + 1;
                    }
                },
            }
            idx = idx + 1;
        }
        let ghost st_final = ScanState {
            parsed: parsed@,
            pending: pending,
            end_of_options: end_of_options,
            next_positional: parameter_index as int,
        };
        proof {
            assert(toks.skip(idx - 1) =~= Seq::<Seq<char>>::empty());
            assert(scan(self@, toks, init_state()) == Ok::<ScanState, Seq<char>>(st_final));
        }
        let nreq = self.required_options.len();
        proof {
            assert(self@.required_options.skip(0) =~= self@.required_options);
        }
        let mut i: usize = 0;
        while i < nreq
            invariant
                i <= nreq,
                nreq == self.required_options.len(),
                scan(self@, spec_tokens(args.deep_view()), init_state()) == Ok::<
                    ScanState,
                    Seq<char>,
                >(st_final),
                st_final.parsed == parsed@,
                missing_required(self@.required_options, parsed@) == missing_required(
                    self@.required_options.skip(i as int),
                    parsed@,
                ),
            decreases nreq - i,
        {
            let req_short = self.required_options[i].short;
            proof {
                lemma_missing_required_skip(self@.required_options, parsed@, i as int);
            }
            if !parsed.has_option(req_short) {
                return Err(
                    join3("Option '--", self.required_options[i].long.as_str(), "' is required!"),
                );
            }
            i = i + 1;
        }
        let nparams = self.parameters.len();
        proof {
            assert(self@.required_options.skip(nreq as int) =~= Seq::<OptionModel>::empty());
            assert(self@.parameters.skip(0) =~= self@.parameters);
        }
        let mut i: usize = 0;
        while i < nparams
            invariant
                i <= nparams,
                nparams == self.parameters.len(),
                scan(self@, spec_tokens(args.deep_view()), init_state()) == Ok::<
                    ScanState,
                    Seq<char>,
                >(st_final),
                st_final.parsed == parsed@,
                missing_required(self@.required_options, parsed@) is None,
                missing_parameter(self@.parameters, parsed@) == missing_parameter(
                    self@.parameters.skip(i as int),
                    parsed@,
                ),
            decreases nparams - i,
        {
            proof {
                lemma_missing_parameter_skip(self@.parameters, parsed@, i as int);
            }
            if parsed.get_parameter(self.parameters[i].name.as_str()).is_none() {
                return Err(join3("Parameter <", self.parameters[i].name.as_str(), "> is required!"));
            }
            i = i + 1;
        }
        proof {
            assert(self@.parameters.skip(nparams as int) =~= Seq::<ParameterModel>::empty());
        }
        Ok(parsed)
    }

    /// The `<first> <second> ...` parameter list of the usage line.
    fn get_parameter_list(&self) -> (r: String)
        ensures
            r@ == spec_parameter_list(self@.parameters),
    {
        let mut args_list = String::new();
        let n = self.parameters.len();
        let mut i: usize = 0;
        while i < n
            invariant
                i <= n,
                n == self.parameters.len(),
                args_list@ == parameter_list_upto(self@.parameters, i as int),
            decreases n - i,
        {
            if i == 0 {
                args_list.append("<");
            } else {
                args_list.append(" <");
            }
            args_list.append(self.parameters[i].name.as_str());
            args_list.append(">");
            proof {
                assert(args_list@ =~= parameter_list_upto(self@.parameters, i as int + 1));
            }
            i = i + 1;
        }
        args_list
    }

    /// The optional-options part of the usage line: a bundle of the no-value
    /// flags, then one `[-x <arg>]` item per value-taking option.
    fn get_optional_options(&self) -> (r: String)
        ensures
            r@ == spec_optional_options(self@.options),
    {
        let n = self.options.len();
        let mut options_list = String::new();
        let mut options_without_args: usize = 0;
        let mut i: usize = 0;
        while i < n
            invariant
                i <= n,
                n == self.options.len(),
                options_without_args <= i,
                options_without_args as int == count_bundled(self@.options, i as int),
                options_list@ == bundle_upto(self@.options, i as int),
            decreases n - i,
        {
            if !self.options[i].has_argument {
                if options_without_args == 0 {
                    options_list.append("[-");
                }
                options_without_args = options_without_args + 1;
                string_push(&mut options_list, self.options[i].short);
                proof {
                    if count_bundled(self@.options, i as int) == 0 {
                        lemma_empty_bundle(self@.options, i as int);
                    }
                    assert(options_list@ =~= bundle_upto(self@.options, i as int + 1));
                }
            }
            i = i + 1;
        }
        if options_without_args > 0 {
            options_list.append("]");
        }
        let ghost lead = count_bundled(self@.options, n as int) > 0;
        let ghost bundle_part = options_list@;
        proof {
            assert(options_list@ =~= bundle_part + optional_valued_upto(self@.options, 0, lead));
        }
        let has_lead = options_without_args > 0;
        let mut i: usize = 0;
        while i < n
            invariant
                i <= n,
                n == self.options.len(),
                has_lead == lead,
                lead == (count_bundled(self@.options, n as int) > 0),
                options_list@ == bundle_part + optional_valued_upto(self@.options, i as int, lead),
            decreases n - i,
        {
            if self.options[i].has_argument {
                if has_lead {
                    options_list.append(" [-");
                } else {
                    options_list.append("[-");
                }
                string_push(&mut options_list, self.options[i].short);
                options_list.append(" <arg>]");
                proof {
                    assert(options_list@ =~= bundle_part + optional_valued_upto(
                        self@.options,
                        i as int + 1,
                        lead,
                    ));
                }
            }
            i = i + 1;
        }
        proof {
            if count_bundled(self@.options, n as int) == 0 {
                lemma_empty_bundle(self@.options, n as int);
            }
            assert(options_list@ =~= spec_optional_options(self@.options));
        }
        options_list
    }

    /// The required-options part of the usage line: a bundle of the no-value
    /// flags, then one `-x <arg>` item per value-taking option.
    fn get_required_options(&self) -> (r: String)
        ensures
            r@ == spec_required_options(self@.required_options),
    {
        let n = self.required_options.len();
        let mut options_list = String::new();
        let mut options_without_args: usize = 0;
        let mut i: usize = 0;
        while i < n
            invariant
                i <= n,
                n == self.required_options.len(),
                options_without_args <= i,
                options_without_args as int == count_bundled(self@.required_options, i as int),
                options_list@ == required_bundle_upto(self@.required_options, i as int),
            decreases n - i,
        {
            if !self.required_options[i].has_argument {
                if options_without_args == 0 {
                    options_list.append("-");
                }
                options_without_args = options_without_args + 1;
                string_push(&mut options_list, self.required_options[i].short);
                proof {
                    if count_bundled(self@.required_options, i as int) == 0 {
                        lemma_empty_bundle(self@.required_options, i as int);
                    }
                    assert(options_list@ =~= required_bundle_upto(
                        self@.required_options,
                        i as int + 1,
                    ));
                }
            }
            i = i + 1;
        }
        let ghost lead = count_bundled(self@.required_options, n as int) > 0;
        let ghost bundle_part = options_list@;
        proof {
            assert(options_list@ =~= bundle_part + required_valued_upto(
                self@.required_options,
                0,
                lead,
            ));
        }
        let has_lead = options_without_args > 0;
        let mut i: usize = 0;
        while i < n
            invariant
                i <= n,
                n == self.required_options.len(),
                has_lead == lead,
                options_list@ == bundle_part + required_valued_upto(
                    self@.required_options,
                    i as int,
                    lead,
                ),
            decreases n - i,
        {
            if self.required_options[i].has_argument {
                if has_lead {
                    options_list.append(" -");
                } else {
                    options_list.append("-");
                }
                string_push(&mut options_list, self.required_options[i].short);
                options_list.append(" <arg>");
                proof {
                    assert(options_list@ =~= bundle_part + required_valued_upto(
                        self@.required_options,
                        i as int + 1,
                        lead,
                    ));
                }
            }
            i = i + 1;
        }
        proof {
            if count_bundled(self@.required_options, n as int) == 0 {
                lemma_empty_bundle(self@.required_options, n as int);
            }
            assert(options_list@ =~= spec_required_options(self@.required_options));
        }
        options_list
    }

    /// One description line for an option.
    fn option_help_line(opt: &OptionSpec) -> (r: String)
        ensures
            r@ == spec_option_help_line(opt@),
    {
        let mut s = String::from_str("\t-");
        string_push(&mut s, opt.short);
        s.append(", --");
        s.append(opt.long.as_str());
        if opt.has_argument {
            s.append("=<arg>\t\t");
        } else {
            s.append("\t\t");
        }
        s.append(opt.description.as_str());
        s.append("\n");
        proof {
            assert(s@ =~= spec_option_help_line(opt@));
        }
        s
    }

    /// The usage summary and the per-parameter and per-option description
    /// lines, as one string; printing it is left to the caller.
    pub fn help_text(&self) -> (r: String)
        ensures
            r@ == spec_help_text(self@),
    {
        let mut option_list = self.get_optional_options();
        if !option_list.as_str().is_empty() {
            option_list.append(" ");
        }
        let required_list = self.get_required_options();
        option_list.append(required_list.as_str());
        let parameter_list = self.get_parameter_list();
        let mut out = String::from_str("usage: ");
        out.append(self.program_name.as_str());
        out.append(" ");
        out.append(option_list.as_str());
        out.append(" [--] ");
        out.append(parameter_list.as_str());
        out.append("\n");
        proof {
            assert(out@ =~= spec_usage_line(self@));
        }
        let n = self.parameters.len();
        let mut i: usize = 0;
        while i < n
            invariant
                i <= n,
                n == self.parameters.len(),
                out@ == spec_usage_line(self@) + param_help_upto(self@.parameters, i as int),
            decreases n - i,
        {
            out.append("\t<");
            out.append(self.parameters[i].name.as_str());
            out.append(">\t\t");
            out.append(self.parameters[i].description.as_str());
            out.append("\n");
            proof {
                assert(out@ =~= spec_usage_line(self@) + param_help_upto(
                    self@.parameters,
                    i as int + 1,
                ));
            }
            i = i + 1;
        }
        let ghost head = out@;
        proof {
            assert(out@ =~= head + options_help_upto(self@.required_options, 0));
        }
        let n = self.required_options.len();
        let mut i: usize = 0;
        while i < n
            invariant
                i <= n,
                n == self.required_options.len(),
                out@ == head + options_help_upto(self@.required_options, i as int),
            decreases n - i,
        {
            let line = Parser::option_help_line(&self.required_options[i]);
            out.append(line.as_str());
            proof {
                assert(out@ =~= head + options_help_upto(self@.required_options, i as int + 1));
            }
            i = i + 1;
        }
        let ghost head2 = out@;
        proof {
            assert(out@ =~= head2 + options_help_upto(self@.options, 0));
        }
        let n = self.options.len();
        let mut i: usize = 0;
        while i < n
            invariant
                i <= n,
                n == self.options.len(),
                out@ == head2 + options_help_upto(self@.options, i as int),
            decreases n - i,
        {
            let line = Parser::option_help_line(&self.options[i]);
            out.append(line.as_str());
            proof {
                assert(out@ =~= head2 + options_help_upto(self@.options, i as int + 1));
            }
            i = i + 1;
        }
        proof {
            assert(out@ =~= spec_help_text(self@));
        }
        out
    }
}

} // verus!
