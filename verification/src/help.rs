//! The model of the usage and help text: pure functions from a registry to
//! the character sequence the formatting functions in [`crate::arguments`]
//! produce.  The usage summary shows optional options first (bundled
//! no-value flags, then value-taking ones), then required options, then the
//! `[--]` marker and the parameter slots; one description line follows for
//! each parameter and each option, required options first.

use vstd::prelude::*;

use crate::model::{OptionModel, ParameterModel, ParserModel};

verus! {

/// One `<name>` item of the usage line's parameter list; every item after
/// the first is preceded by a space.
pub open spec fn param_item(p: ParameterModel, first: bool) -> Seq<char> {
    if first {
        "<"@ + p.name + ">"@
    } else {
        " <"@ + p.name + ">"@
    }
}

/// The parameter list built from the first `i` parameters.
pub open spec fn parameter_list_upto(params: Seq<ParameterModel>, i: int) -> Seq<char>
    decreases i,
{
    if i <= 0 {
        Seq::empty()
    } else {
        parameter_list_upto(params, i - 1) + param_item(params[i - 1], i - 1 == 0)
    }
}

/// The usage line's parameter list: `<first> <second> ...`.
pub open spec fn spec_parameter_list(params: Seq<ParameterModel>) -> Seq<char> {
    parameter_list_upto(params, params.len() as int)
}

/// How many of the first `i` options take no value.
pub open spec fn count_bundled(opts: Seq<OptionModel>, i: int) -> int
    decreases i,
{
    if i <= 0 {
        0
    } else {
        count_bundled(opts, i - 1) + (if opts[i - 1].has_argument {
            0int
        } else {
            1int
        })
    }
}

/// The growing bundle of optional no-value flags among the first `i`
/// options: empty until the first one, then `[-` followed by their short
/// names (the closing `]` is appended separately).
pub open spec fn bundle_upto(opts: Seq<OptionModel>, i: int) -> Seq<char>
    decreases i,
{
    if i <= 0 {
        Seq::empty()
    } else {
        let prev = bundle_upto(opts, i - 1);
        if opts[i - 1].has_argument {
            prev
        } else if count_bundled(opts, i - 1) == 0 {
            "[-"@ + seq![opts[i - 1].short]
        } else {
            prev + seq![opts[i - 1].short]
        }
    }
}

/// One `[-x <arg>]` item for an optional value-taking option; a leading
/// space separates it from an earlier bundle when one exists.
pub open spec fn optional_valued_item(o: OptionModel, lead: bool) -> Seq<char> {
    if lead {
        " [-"@ + seq![o.short] + " <arg>]"@
    } else {
        "[-"@ + seq![o.short] + " <arg>]"@
    }
}

/// The `[-x <arg>]` items for the value-taking options among the first `i`.
pub open spec fn optional_valued_upto(opts: Seq<OptionModel>, i: int, lead: bool) -> Seq<char>
    decreases i,
{
    if i <= 0 {
        Seq::empty()
    } else {
        optional_valued_upto(opts, i - 1, lead) + (if opts[i - 1].has_argument {
            optional_valued_item(opts[i - 1], lead)
        } else {
            Seq::empty()
        })
    }
}

/// The optional-options part of the usage line.
pub open spec fn spec_optional_options(opts: Seq<OptionModel>) -> Seq<char> {
    let n = opts.len() as int;
    let lead = count_bundled(opts, n) > 0;
    let bundle = if lead {
        bundle_upto(opts, n) + "]"@
    } else {
        Seq::empty()
    };
    bundle + optional_valued_upto(opts, n, lead)
}

/// The growing bundle of required no-value flags among the first `i`
/// options: empty until the first one, then `-` followed by their short
/// names.
pub open spec fn required_bundle_upto(opts: Seq<OptionModel>, i: int) -> Seq<char>
    decreases i,
{
    if i <= 0 {
        Seq::empty()
    } else {
        let prev = required_bundle_upto(opts, i - 1);
        if opts[i - 1].has_argument {
            prev
        } else if count_bundled(opts, i - 1) == 0 {
            "-"@ + seq![opts[i - 1].short]
        } else {
            prev + seq![opts[i - 1].short]
        }
    }
}

/// One `-x <arg>` item for a required value-taking option.
pub open spec fn required_valued_item(o: OptionModel, lead: bool) -> Seq<char> {
    if lead {
        " -"@ + seq![o.short] + " <arg>"@
    } else {
        "-"@ + seq![o.short] + " <arg>"@
    }
}

/// The `-x <arg>` items for the value-taking options among the first `i`.
pub open spec fn required_valued_upto(opts: Seq<OptionModel>, i: int, lead: bool) -> Seq<char>
    decreases i,
{
    if i <= 0 {
        Seq::empty()
    } else {
        required_valued_upto(opts, i - 1, lead) + (if opts[i - 1].has_argument {
            required_valued_item(opts[i - 1], lead)
        } else {
            Seq::empty()
        })
    }
}

/// The required-options part of the usage line.
pub open spec fn spec_required_options(opts: Seq<OptionModel>) -> Seq<char> {
    let n = opts.len() as int;
    let lead = count_bundled(opts, n) > 0;
    required_bundle_upto(opts, n) + required_valued_upto(opts, n, lead)
}

/// The whole usage line, ending in a newline.
pub open spec fn spec_usage_line(reg: ParserModel) -> Seq<char> {
    let optional = spec_optional_options(reg.options);
    let separated = if optional.len() > 0 {
        optional + " "@
    } else {
        optional
    };
    "usage: "@ + reg.program_name + " "@ + separated + spec_required_options(reg.required_options)
        + " [--] "@ + spec_parameter_list(reg.parameters) + "\n"@
}

/// One description line for a parameter.
pub open spec fn param_help_line(p: ParameterModel) -> Seq<char> {
    "\t<"@ + p.name + ">\t\t"@ + p.description + "\n"@
}

/// The description lines of the first `i` parameters.
pub open spec fn param_help_upto(params: Seq<ParameterModel>, i: int) -> Seq<char>
    decreases i,
{
    if i <= 0 {
        Seq::empty()
    } else {
        param_help_upto(params, i - 1) + param_help_line(params[i - 1])
    }
}

/// One description line for an option: its short and long names, `=<arg>`
/// when it takes a value, and its description.
pub open spec fn spec_option_help_line(o: OptionModel) -> Seq<char> {
    if o.has_argument {
        "\t-"@ + seq![o.short] + ", --"@ + o.long + "=<arg>\t\t"@ + o.description + "\n"@
    } else {
        "\t-"@ + seq![o.short] + ", --"@ + o.long + "\t\t"@ + o.description + "\n"@
    }
}

/// The description lines of the first `i` options.
pub open spec fn options_help_upto(opts: Seq<OptionModel>, i: int) -> Seq<char>
    decreases i,
{
    if i <= 0 {
        Seq::empty()
    } else {
        options_help_upto(opts, i - 1) + spec_option_help_line(opts[i - 1])
    }
}

/// No prefix holds a negative number of no-value options.
pub proof fn lemma_count_bundled_nonneg(opts: Seq<OptionModel>, i: int)
    ensures
        count_bundled(opts, i) >= 0,
    decreases i,
{
    if i > 0 {
        lemma_count_bundled_nonneg(opts, i - 1);
    }
}

/// While no no-value option has been seen, both bundles are still empty.
pub proof fn lemma_empty_bundle(opts: Seq<OptionModel>, i: int)
    requires
        count_bundled(opts, i) == 0,
    ensures
        bundle_upto(opts, i) == Seq::<char>::empty(),
        required_bundle_upto(opts, i) == Seq::<char>::empty(),
    decreases i,
{
    if i > 0 {
        lemma_count_bundled_nonneg(opts, i - 1);
        lemma_empty_bundle(opts, i - 1);
    }
}

/// The whole help text: the usage line, then one description line per
/// parameter, per required option and per optional option, in registration
/// order within each group.
pub open spec fn spec_help_text(reg: ParserModel) -> Seq<char> {
    spec_usage_line(reg) + param_help_upto(reg.parameters, reg.parameters.len() as int)
        + options_help_upto(reg.required_options, reg.required_options.len() as int)
        + options_help_upto(reg.options, reg.options.len() as int)
}

} // verus!
