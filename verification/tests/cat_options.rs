use rtw::cat::{CatBuilder, CmdOption};

#[test]
fn test_build() {
    let c = CatBuilder::new().build();
    assert_eq!(CmdOption::default(), c.option());

    let c = CatBuilder::new().with_show_all().build();
    assert_eq!(
        CmdOption {
            show_ends: true,
            show_tabs: true,
            show_nonprinting: true,
            ..Default::default()
        },
        c.option()
    );

    let c = CatBuilder::new().with_number_nonblank().build();
    assert_eq!(
        CmdOption {
            number_noblank: true,
            ..Default::default()
        },
        c.option()
    );

    let c = CatBuilder::new().with_e().build();
    assert_eq!(
        CmdOption {
            show_ends: true,
            show_nonprinting: true,
            ..Default::default()
        },
        c.option()
    );

    let c = CatBuilder::new().with_show_ends().build();
    assert_eq!(
        CmdOption {
            show_ends: true,
            ..Default::default()
        },
        c.option()
    );

    let c = CatBuilder::new().with_number().build();
    assert_eq!(
        CmdOption {
            number: true,
            ..Default::default()
        },
        c.option()
    );

    let c = CatBuilder::new().with_squeeze_blank().build();
    assert_eq!(
        CmdOption {
            squeeze_blank: true,
            ..Default::default()
        },
        c.option()
    );

    let c = CatBuilder::new().with_t().build();
    assert_eq!(
        CmdOption {
            show_tabs: true,
            show_nonprinting: true,
            ..Default::default()
        },
        c.option()
    );

    let c = CatBuilder::new().with_show_tabs().build();
    assert_eq!(
        CmdOption {
            show_tabs: true,
            ..Default::default()
        },
        c.option()
    );

    let c = CatBuilder::new().with_show_nonprinting().build();
    assert_eq!(
        CmdOption {
            show_nonprinting: true,
            ..Default::default()
        },
        c.option()
    );

    let c = CatBuilder::new().with_display_help().build();
    assert_eq!(
        CmdOption {
            display_help: true,
            ..Default::default()
        },
        c.option()
    );

    let c = CatBuilder::new().with_display_version().build();
    assert_eq!(
        CmdOption {
            display_version: true,
            ..Default::default()
        },
        c.option()
    );
}

#[test]
fn test_parse() {
    {
        // "-A" | "--show-all"
        let expects = CmdOption {
            show_ends: true,
            show_tabs: true,
            show_nonprinting: true,
            ..Default::default()
        };

        let mut c = CatBuilder::new().build();
        let files = c.parse(&["-A".to_string()]);
        assert_eq!(expects, c.option());
        assert_eq!(files, Ok(Vec::new()));

        let mut c = CatBuilder::new().build();
        let files = c.parse(&["--show-all".to_string()]);
        assert_eq!(expects, c.option());
        assert_eq!(files, Ok(Vec::new()));
    }

    {
        // "-b" | "--number-nonblank"
        let expects = CmdOption {
            number_noblank: true,
            ..Default::default()
        };

        let mut c = CatBuilder::new().build();
        let files = c.parse(&["-b".to_string()]);
        assert_eq!(expects, c.option());
        assert_eq!(files, Ok(Vec::new()));

        let mut c = CatBuilder::new().build();
        let files = c.parse(&["--number-nonblank".to_string()]);
        assert_eq!(expects, c.option());
        assert_eq!(files, Ok(Vec::new()));
    }

    {
        // "-e"
        let expects = CmdOption {
            show_ends: true,
            show_nonprinting: true,
            ..Default::default()
        };
        let mut c = CatBuilder::new().build();
        let files = c.parse(&["-e".to_string()]);
        assert_eq!(expects, c.option());
        assert_eq!(files, Ok(Vec::new()));
    }

    {
        // "-E" | "--show-ends"
        let expects = CmdOption {
            show_ends: true,
            ..Default::default()
        };

        let mut c = CatBuilder::new().build();
        let files = c.parse(&["-E".to_string()]);
        assert_eq!(expects, c.option());
        assert_eq!(files, Ok(Vec::new()));

        let mut c = CatBuilder::new().build();
        let files = c.parse(&["--show-ends".to_string()]);
        assert_eq!(expects, c.option());
        assert_eq!(files, Ok(Vec::new()));
    }

    {
        // "-n" | "--number"
        let expects = CmdOption {
            number: true,
            ..Default::default()
        };

        let mut c = CatBuilder::new().build();
        let files = c.parse(&["-n".to_string()]);
        assert_eq!(expects, c.option());
        assert_eq!(files, Ok(Vec::new()));

        let mut c = CatBuilder::new().build();
        let files = c.parse(&["--number".to_string()]);
        assert_eq!(expects, c.option());
        assert_eq!(files, Ok(Vec::new()));
    }

    {
        // "-s" | "--squeeze-blank"
        let expects = CmdOption {
            squeeze_blank: true,
            ..Default::default()
        };

        let mut c = CatBuilder::new().build();
        let files = c.parse(&["-s".to_string()]);
        assert_eq!(expects, c.option());
        assert_eq!(files, Ok(Vec::new()));

        let mut c = CatBuilder::new().build();
        let files = c.parse(&["--squeeze-blank".to_string()]);
        assert_eq!(expects, c.option());
        assert_eq!(files, Ok(Vec::new()));
    }

    {
        // "-t"
        let expects = CmdOption {
            show_tabs: true,
            show_nonprinting: true,
            ..Default::default()
        };
        let mut c = CatBuilder::new().build();
        let files = c.parse(&["-t".to_string()]);
        assert_eq!(expects, c.option());
        assert_eq!(files, Ok(Vec::new()));
    }

    {
        // "-T" | "--show-tabs"
        let expects = CmdOption {
            show_tabs: true,
            ..Default::default()
        };

        let mut c = CatBuilder::new().build();
        let files = c.parse(&["-T".to_string()]);
        assert_eq!(expects, c.option());
        assert_eq!(files, Ok(Vec::new()));

        let mut c = CatBuilder::new().build();
        let files = c.parse(&["--show-tabs".to_string()]);
        assert_eq!(expects, c.option());
        assert_eq!(files, Ok(Vec::new()));
    }

    {
        // "-u"
        let expects = CmdOption::default();
        let mut c = CatBuilder::new().build();
        let files = c.parse(&["-u".to_string()]);
        assert_eq!(expects, c.option());
        assert_eq!(files, Ok(Vec::new()));
    }

    {
        // "-v" | "--show-nonprinting"
        let expects = CmdOption {
            show_nonprinting: true,
            ..Default::default()
        };

        let mut c = CatBuilder::new().build();
        let files = c.parse(&["-v".to_string()]);
        assert_eq!(expects, c.option());
        assert_eq!(files, Ok(Vec::new()));

        let mut c = CatBuilder::new().build();
        let files = c.parse(&["--show-nonprinting".to_string()]);
        assert_eq!(expects, c.option());
        assert_eq!(files, Ok(Vec::new()));
    }

    {
        // "--help"
        let expects = CmdOption {
            display_help: true,
            ..Default::default()
        };
        let mut c = CatBuilder::new().build();
        let files = c.parse(&["--help".to_string()]);
        assert_eq!(expects, c.option());
        assert_eq!(files, Ok(Vec::new()));
    }

    {
        // "--version"
        let expects = CmdOption {
            display_version: true,
            ..Default::default()
        };
        let mut c = CatBuilder::new().build();
        let files = c.parse(&["--version".to_string()]);
        assert_eq!(expects, c.option());
        assert_eq!(files, Ok(Vec::new()));
    }
}

fn tokens(list: &[&str]) -> Vec<String> {
    list.iter().map(|s| s.to_string()).collect()
}

#[test]
fn whichever_is_asked_first_wins() {
    let c = CatBuilder::new()
        .with_display_help()
        .with_display_version()
        .build();
    assert!(c.option().display_help);
    assert!(!c.option().display_version);

    let c = CatBuilder::new()
        .with_display_version()
        .with_display_help()
        .build();
    assert!(c.option().display_version);
    assert!(!c.option().display_help);

    let mut c = CatBuilder::new().build();
    assert_eq!(c.parse(&tokens(&["--help", "--version"])), Ok(Vec::new()));
    assert!(c.option().display_help && !c.option().display_version);

    let mut c = CatBuilder::new().build();
    assert_eq!(c.parse(&tokens(&["--version", "--help"])), Ok(Vec::new()));
    assert!(c.option().display_version && !c.option().display_help);
}

#[test]
fn builder_can_be_used_again() {
    let mut builder = CatBuilder::new();
    builder.with_number();
    let first = builder.build();
    builder.with_show_ends();
    let second = builder.build();
    assert!(first.option().number && !first.option().show_ends);
    assert!(second.option().number && second.option().show_ends);
    assert_eq!(first.line_number(), 1);
    assert_eq!(first.blank_count(), 0);
}

#[test]
fn a_repeated_flag_changes_nothing() {
    for flag in [
        "-A", "--show-all", "-b", "--number-nonblank", "-e", "-E", "--show-ends", "-n",
        "--number", "-s", "--squeeze-blank", "-t", "-T", "--show-tabs", "-u", "-v",
        "--show-nonprinting", "--help", "--version",
    ] {
        let mut once = CatBuilder::new().build();
        let mut twice = CatBuilder::new().build();
        assert_eq!(once.parse(&tokens(&[flag])), Ok(Vec::new()));
        assert_eq!(twice.parse(&tokens(&[flag, flag])), Ok(Vec::new()));
        assert_eq!(once.option(), twice.option(), "{}", flag);
    }
}

#[test]
fn flags_add_up() {
    let mut c = CatBuilder::new().build();
    assert_eq!(c.parse(&tokens(&["-n", "-E", "-s"])), Ok(Vec::new()));
    assert_eq!(
        CmdOption {
            number: true,
            show_ends: true,
            squeeze_blank: true,
            ..Default::default()
        },
        c.option()
    );
}

#[test]
fn operands_come_back_in_their_order() {
    let mut c = CatBuilder::new().build();
    let files = c.parse(&tokens(&["b.txt", "-n", "-", "a.txt", "-E", "b.txt", ""]));
    assert_eq!(files, Ok(tokens(&["b.txt", "-", "a.txt", "b.txt", ""])));
    assert!(c.option().number && c.option().show_ends);
}

#[test]
fn no_tokens_give_no_operands() {
    let mut c = CatBuilder::new().build();
    assert_eq!(c.parse(&[]), Ok(Vec::new()));
    assert_eq!(CmdOption::default(), c.option());
}

#[test]
fn a_single_char_option_is_called_invalid() {
    let mut c = CatBuilder::new().build();
    assert_eq!(
        c.parse(&tokens(&["-z"])),
        Err("cat: invalid option -- 'z'\nTry 'cat --help' for more information.".to_string())
    );
    let mut c = CatBuilder::new().build();
    assert_eq!(
        c.parse(&tokens(&["-xyz"])),
        Err("cat: invalid option -- 'xyz'\nTry 'cat --help' for more information.".to_string())
    );
    let mut c = CatBuilder::new().build();
    assert_eq!(
        c.parse(&tokens(&["-\u{e9}"])),
        Err("cat: invalid option -- '\u{e9}'\nTry 'cat --help' for more information.".to_string())
    );
}

#[test]
fn a_multi_char_option_is_called_unrecognized() {
    let mut c = CatBuilder::new().build();
    assert_eq!(
        c.parse(&tokens(&["--bogus"])),
        Err("cat: unrecognized option '--bogus'\nTry 'cat --help' for more information."
            .to_string())
    );
    let mut c = CatBuilder::new().build();
    assert_eq!(
        c.parse(&tokens(&["--"])),
        Err("cat: unrecognized option '--'\nTry 'cat --help' for more information.".to_string())
    );
}

#[test]
fn the_two_complaints_differ() {
    let mut c = CatBuilder::new().build();
    let single = c.parse(&tokens(&["-z"])).unwrap_err();
    let multi = c.parse(&tokens(&["--bogus"])).unwrap_err();
    assert_ne!(single, multi);
    assert!(single.starts_with("cat: invalid option -- '"));
    assert!(multi.starts_with("cat: unrecognized option '"));
}

#[test]
fn parse_stops_at_the_first_rejected_token() {
    let mut c = CatBuilder::new().build();
    let res = c.parse(&tokens(&["-n", "file", "-z", "-E", "--bogus"]));
    assert_eq!(
        res,
        Err("cat: invalid option -- 'z'\nTry 'cat --help' for more information.".to_string())
    );
    // What stood before the rejected token is taken, what stands behind it is not.
    assert_eq!(
        CmdOption {
            number: true,
            ..Default::default()
        },
        c.option()
    );
}

#[test]
fn flags_are_told_apart_by_case_and_length() {
    for token in ["-a", "-N", "-S", "-V", "-U", "-nn", "--Number", "--numbers", "--show", "-help"] {
        let mut c = CatBuilder::new().build();
        assert!(c.parse(&tokens(&[token])).is_err(), "{}", token);
        assert_eq!(CmdOption::default(), c.option());
    }
}

#[test]
fn parse_option_takes_one_flag() {
    let mut c = CatBuilder::new().build();
    assert_eq!(c.parse_option("-t"), Ok(()));
    assert_eq!(
        CmdOption {
            show_tabs: true,
            show_nonprinting: true,
            ..Default::default()
        },
        c.option()
    );
    assert_eq!(
        c.parse_option("file"),
        Err("cat: unrecognized option 'file'\nTry 'cat --help' for more information."
            .to_string())
    );
    assert_eq!(
        c.parse_option("-"),
        Err("cat: unrecognized option '-'\nTry 'cat --help' for more information.".to_string())
    );
}

#[test]
fn parsing_leaves_the_counters() {
    let mut c = CatBuilder::new().with_number().build();
    assert_eq!(c.apply(b"x"), Some(b"     1\tx".to_vec()));
    assert_eq!(c.parse(&tokens(&["-E"])), Ok(Vec::new()));
    assert_eq!(c.line_number(), 2);
    assert_eq!(c.apply(b"y"), Some(b"     2\ty$".to_vec()));
}

#[test]
fn help_ends_the_run_whatever_the_operands() {
    let mut c = CatBuilder::new().build();
    let files = c.parse(&tokens(&["a.txt", "--help", "b.txt", "-n"]));
    assert_eq!(files, Ok(tokens(&["a.txt", "b.txt"])));
    assert_eq!(c.notice(), Some("help contents is here.".to_string()));
    assert_eq!(c.run(b"text\n"), Ok(b"help contents is here.\n".to_vec()));
}
