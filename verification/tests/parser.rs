use argparse::arguments::Parser;

fn strings(tokens: &[&str]) -> Vec<String> {
    let mut v = Vec::new();
    for t in tokens {
        v.push(String::from(*t));
    }
    v
}

#[test]
fn should_parse_options() {
    let mut parser = Parser::new("test");
    parser.option('a', "a", "a", false, false);
    parser.option('b', "b", "b", false, false);
    parser.option('c', "c", "c", false, false);
    parser.option('d', "d", "d", false, false);
    parser.option('e', "e", "e", false, false);
    parser.option('f', "f", "f", false, true);
    parser.option('g', "g", "g", false, true);
    let args = parser.parse(vec![
        String::from("test"),
        String::from("-abc"),
        String::from("-d"),
        String::from("-e"),
        String::from("-f"),
        String::from("arg"),
        String::from("-garg"),
    ]);

    match args {
        Ok(args) => {
            assert!(args.has_option('a'));
            assert!(args.has_option('b'));
            assert!(args.has_option('c'));
            assert!(args.has_option('d'));
            assert!(args.has_option('e'));
            let f = args.get_option('f').unwrap();
            let g = args.get_option('g').unwrap();
            assert_eq!("arg", f, "wrong argument for option -f");
            assert_eq!("arg", g, "wrong argument for oprion -g");
        }
        Err(msg) => assert!(false, "{msg}"),
    }
}

#[test]
fn should_parse_parameters() {
    let mut parser = Parser::new("test");
    parser.parameter("first", "first parameter");
    parser.parameter("second", "second parameter");
    parser.parameter("third", "second parameter");
    let args = parser.parse(vec![
        String::from("test"),
        String::from("foo"),
        String::from("bar"),
        String::from("fooBar"),
    ]);

    match args {
        Ok(args) => {
            let f = args.get_parameter("first").unwrap();
            let s = args.get_parameter("second").unwrap();
            let t = args.get_parameter("third").unwrap();
            assert_eq!("foo", f);
            assert_eq!("bar", s);
            assert_eq!("fooBar", t);
        }
        Err(msg) => assert!(false, "{msg}"),
    }
}

#[test]
fn parse_should_fail_if_missing_required_option() {
    let mut parser = Parser::new("test");
    parser.option('r', "required", "required option", true, false);

    let args = parser.parse(vec![
        String::from("test"),
        String::from("foo"),
        String::from("bar"),
        String::from("fooBar"),
    ]);

    match args {
        Ok(_) => {
            assert!(false, "should have failed parsing");
        }
        Err(msg) => assert_eq!("Option '--required' is required!", msg),
    }
}

#[test]
fn parse_should_fail_if_missing_parameter() {
    let mut parser = Parser::new("test");
    parser.parameter("first", "first parameter");
    parser.parameter("second", "second parameter");
    parser.parameter("third", "second parameter");
    let args = parser.parse(vec![
        String::from("test"),
        String::from("foo"),
        String::from("bar"),
    ]);

    match args {
        Ok(_) => {
            assert!(false, "should have failed parsing");
        }
        Err(msg) => assert_eq!("Parameter <third> is required!", msg),
    }
}

#[test]
fn long_option_equals_form_binds_value() {
    let mut parser = Parser::new("prog");
    parser.option('v', "verbose", "verbosity level", false, true);
    let args = parser.parse(strings(&["prog", "--verbose=3"])).unwrap();
    assert_eq!("3", args.get_option('v').unwrap());
    assert!(args.has_option('v'));
}

#[test]
fn long_option_value_from_next_token() {
    let mut parser = Parser::new("prog");
    parser.option('f', "file", "input file", false, true);
    let args = parser.parse(strings(&["prog", "--file", "notes.txt"])).unwrap();
    assert_eq!("notes.txt", args.get_option('f').unwrap());
}

#[test]
fn long_option_without_dash_prefix_in_value() {
    let mut parser = Parser::new("prog");
    parser.option('v', "verbose", "verbosity", false, true);
    let args = parser.parse(strings(&["prog", "--verbose=a=b"])).unwrap();
    assert_eq!("a=b", args.get_option('v').unwrap(), "split on the first equals sign only");
}

#[test]
fn long_flag_without_value_is_recorded() {
    let mut parser = Parser::new("prog");
    parser.option('q', "quiet", "no output", false, false);
    let args = parser.parse(strings(&["prog", "--quiet"])).unwrap();
    assert!(args.has_option('q'));
    assert!(args.get_option('q').is_none());
}

#[test]
fn end_of_options_marker_makes_dash_tokens_positional() {
    let mut parser = Parser::new("prog");
    parser.option('a', "all", "list all", false, false);
    parser.parameter("first", "first parameter");
    parser.parameter("second", "second parameter");
    let args = parser
        .parse(strings(&["prog", "--", "-a", "--all"]))
        .unwrap();
    assert!(!args.has_option('a'));
    assert_eq!("-a", args.get_parameter("first").unwrap());
    assert_eq!("--all", args.get_parameter("second").unwrap());
}

#[test]
fn parsing_twice_yields_identical_results() {
    let mut parser = Parser::new("prog");
    parser.option('a', "all", "list all", false, false);
    parser.option('f', "file", "input file", false, true);
    parser.parameter("first", "first parameter");
    let tokens = ["prog", "-a", "-f", "notes.txt", "foo"];
    let one = parser.parse(strings(&tokens)).unwrap();
    let two = parser.parse(strings(&tokens)).unwrap();
    assert_eq!(one.has_option('a'), two.has_option('a'));
    assert_eq!(one.has_option('f'), two.has_option('f'));
    assert_eq!(one.has_option('z'), two.has_option('z'));
    assert_eq!(one.get_option('f'), two.get_option('f'));
    assert_eq!(one.get_option('a'), two.get_option('a'));
    assert_eq!(one.get_parameter("first"), two.get_parameter("first"));
    assert_eq!(one.get_parameter("second"), two.get_parameter("second"));
}

#[test]
fn unknown_short_option_fails() {
    let parser = Parser::new("prog");
    let result = parser.parse(strings(&["prog", "-z"]));
    match result {
        Ok(_) => assert!(false, "should have failed parsing"),
        Err(msg) => assert_eq!("Unkown or duplicated option z!", msg),
    }
}

#[test]
fn unknown_long_option_fails() {
    let parser = Parser::new("prog");
    let result = parser.parse(strings(&["prog", "--zoo"]));
    match result {
        Ok(_) => assert!(false, "should have failed parsing"),
        Err(msg) => assert_eq!("Unkown option zoo!", msg),
    }
}

#[test]
fn unknown_long_option_with_value_fails() {
    let parser = Parser::new("prog");
    let result = parser.parse(strings(&["prog", "--zoo=3"]));
    match result {
        Ok(_) => assert!(false, "should have failed parsing"),
        Err(msg) => assert_eq!("Unkown option '--zoo'!", msg),
    }
}

#[test]
fn long_option_taking_no_value_rejects_equals_form() {
    let mut parser = Parser::new("prog");
    parser.option('q', "quiet", "no output", false, false);
    let result = parser.parse(strings(&["prog", "--quiet=1"]));
    match result {
        Ok(_) => assert!(false, "should have failed parsing"),
        Err(msg) => assert_eq!("Option '--quiet' should have no arguments!", msg),
    }
}

#[test]
fn unknown_character_in_combined_flags_fails() {
    let mut parser = Parser::new("prog");
    parser.option('a', "all", "list all", false, false);
    let result = parser.parse(strings(&["prog", "-ax"]));
    match result {
        Ok(_) => assert!(false, "should have failed parsing"),
        Err(msg) => assert_eq!("Unkown or duplicated option x!", msg),
    }
}

#[test]
fn required_option_present_passes_validation() {
    let mut parser = Parser::new("prog");
    parser.option('r', "required", "required option", true, false);
    let args = parser.parse(strings(&["prog", "-r"])).unwrap();
    assert!(args.has_option('r'));
}

#[test]
fn required_option_satisfied_by_long_value_form() {
    let mut parser = Parser::new("prog");
    parser.option('o', "out", "output file", true, true);
    let args = parser.parse(strings(&["prog", "--out=a.txt"])).unwrap();
    assert!(args.has_option('o'));
    assert_eq!("a.txt", args.get_option('o').unwrap());
}

#[test]
fn trailing_value_taking_flag_is_left_unbound() {
    let mut parser = Parser::new("prog");
    parser.option('f', "file", "input file", false, true);
    let args = parser.parse(strings(&["prog", "-f"])).unwrap();
    assert!(!args.has_option('f'));
    assert!(args.get_option('f').is_none());
}

#[test]
fn extra_positional_tokens_are_dropped() {
    let mut parser = Parser::new("prog");
    parser.parameter("first", "first parameter");
    let args = parser.parse(strings(&["prog", "foo", "bar"])).unwrap();
    assert_eq!("foo", args.get_parameter("first").unwrap());
    assert!(args.get_parameter("bar").is_none());
}

#[test]
fn single_dash_token_is_positional() {
    let mut parser = Parser::new("prog");
    parser.parameter("first", "first parameter");
    let args = parser.parse(strings(&["prog", "-"])).unwrap();
    assert_eq!("-", args.get_parameter("first").unwrap());
}

#[test]
fn combined_flags_with_attached_value() {
    let mut parser = Parser::new("prog");
    parser.option('a', "all", "list all", false, false);
    parser.option('f', "file", "input file", false, true);
    let args = parser.parse(strings(&["prog", "-afxyz"])).unwrap();
    assert!(args.has_option('a'));
    assert_eq!("xyz", args.get_option('f').unwrap());
}

#[test]
fn later_binding_overwrites_earlier_one() {
    let mut parser = Parser::new("prog");
    parser.option('f', "file", "input file", false, true);
    let args = parser.parse(strings(&["prog", "-f", "one", "-f", "two"])).unwrap();
    assert_eq!("two", args.get_option('f').unwrap());
}

#[test]
fn program_name_alone_parses_to_empty_result() {
    let parser = Parser::new("prog");
    let args = parser.parse(strings(&["prog"])).unwrap();
    assert!(!args.has_option('a'));
    assert!(args.get_parameter("first").is_none());
}

#[test]
fn undeclared_parameter_is_absent() {
    let mut parser = Parser::new("prog");
    parser.parameter("first", "first parameter");
    let args = parser.parse(strings(&["prog", "foo"])).unwrap();
    assert!(args.get_parameter("second").is_none());
}

#[test]
fn help_text_lists_usage_and_descriptions() {
    let mut parser = Parser::new("prog");
    parser.option('a', "all", "list all", false, false);
    parser.option('f', "file", "input file", false, true);
    parser.option('r', "req", "required flag", true, false);
    parser.option('o', "out", "output", true, true);
    parser.parameter("src", "the source");
    parser.parameter("dst", "the destination");
    let expected = "usage: prog [-a] [-f <arg>] -r -o <arg> [--] <src> <dst>\n\
                    \t<src>\t\tthe source\n\
                    \t<dst>\t\tthe destination\n\
                    \t-r, --req\t\trequired flag\n\
                    \t-o, --out=<arg>\t\toutput\n\
                    \t-a, --all\t\tlist all\n\
                    \t-f, --file=<arg>\t\tinput file\n";
    assert_eq!(expected, parser.help_text());
}

#[test]
fn help_text_of_empty_registry_is_bare_usage_line() {
    let parser = Parser::new("prog");
    assert_eq!("usage: prog  [--] \n", parser.help_text());
}
