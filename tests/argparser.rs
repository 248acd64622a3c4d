use ps::argparser::{arg_type, parse_pid, ArgType, PidSelection, PsParser, SelectionNode, ThreadFlag};

fn parser_of(tokens: &[&str]) -> PsParser {
    PsParser {
        args: tokens.iter().map(|t| String::from(*t)).collect(),
        curargix: 0,
        thread_flags: vec![],
        ..Default::default()
    }
}

fn pid_nodes(ids: &[i32]) -> Vec<SelectionNode> {
    ids.iter().map(|i| SelectionNode::PID(PidSelection { pid: vec![*i] })).collect()
}

#[test]
fn parser_gnu_pid() {
    let parser0 = PsParser {
        args: vec![String::from("me"), String::from("--pid=33")],
        curargix: 0,
        thread_flags: vec![],
        ..Default::default()
    };
    let parser1 = PsParser {
        args: vec![String::from("me"), String::from("--pid=33,44,55")],
        curargix: 0,
        thread_flags: vec![],
        ..Default::default()
    };
    let parser2 = PsParser {
        args: vec![String::from("me"), String::from("--pid:33,44,55")],
        curargix: 0,
        thread_flags: vec![],
        ..Default::default()
    };
    let parser3 = PsParser {
        args: vec![String::from("me"), String::from("--pid"), String::from("33,44,55")],
        curargix: 0,
        thread_flags: vec![],
        ..Default::default()
    };
    let b0 = vec![SelectionNode::PID(PidSelection { pid: vec![33] })];
    let b1 = vec![
        SelectionNode::PID(PidSelection { pid: vec![33] }),
        SelectionNode::PID(PidSelection { pid: vec![44] }),
        SelectionNode::PID(PidSelection { pid: vec![55] }),
    ];
    assert_eq!(parser0.parse().unwrap(), b0);
    assert_eq!(parser1.parse().unwrap(), b1);
    assert_eq!(parser2.parse().unwrap(), b1);
    assert_eq!(parser3.parse().unwrap(), b1);
}

#[test]
fn classify_letters_digits_and_signs() {
    assert_eq!(arg_type(&String::from("aux")), ArgType::BSD);
    assert_eq!(arg_type(&String::from("Z")), ArgType::BSD);
    assert_eq!(arg_type(&String::from("123")), ArgType::PID);
    assert_eq!(arg_type(&String::from("9x")), ArgType::PID);
    assert_eq!(arg_type(&String::from("+42")), ArgType::SESS);
    assert_eq!(arg_type(&String::from("-ef")), ArgType::SYSV);
    assert_eq!(arg_type(&String::from("-12")), ArgType::PGRP);
    assert_eq!(arg_type(&String::from("--pid=3")), ArgType::GNU);
    assert_eq!(arg_type(&String::from("--Help")), ArgType::GNU);
}

#[test]
fn classify_malformed_tokens() {
    assert_eq!(arg_type(&String::from("")), ArgType::FAIL);
    assert_eq!(arg_type(&String::from("-")), ArgType::FAIL);
    assert_eq!(arg_type(&String::from("--")), ArgType::FAIL);
    assert_eq!(arg_type(&String::from("---")), ArgType::FAIL);
    assert_eq!(arg_type(&String::from("--3")), ArgType::FAIL);
    assert_eq!(arg_type(&String::from("- ")), ArgType::FAIL);
    assert_eq!(arg_type(&String::from("=x")), ArgType::FAIL);
    assert_eq!(arg_type(&String::from("é")), ArgType::FAIL);
}

#[test]
fn classify_twice_gives_the_same() {
    for t in ["ps", "1", "+1", "-a", "-1", "--pid", "--", ""] {
        let s = String::from(t);
        assert_eq!(arg_type(&s), arg_type(&s));
    }
}

#[test]
fn single_pid_gives_one_criterion() {
    assert_eq!(parser_of(&["me", "--pid=33"]).parse().unwrap(), pid_nodes(&[33]));
}

#[test]
fn three_forms_of_pid_list_agree() {
    let want = pid_nodes(&[33, 44, 55]);
    assert_eq!(parser_of(&["me", "--pid=33,44,55"]).parse().unwrap(), want);
    assert_eq!(parser_of(&["me", "--pid:33,44,55"]).parse().unwrap(), want);
    assert_eq!(parser_of(&["me", "--pid", "33,44,55"]).parse().unwrap(), want);
}

#[test]
fn two_pid_options_keep_encounter_order() {
    assert_eq!(
        parser_of(&["me", "--pid=33", "--pid=123"]).parse().unwrap(),
        pid_nodes(&[33, 123])
    );
}

#[test]
fn pid_list_accepts_spaces_tabs_signs_and_duplicates() {
    assert_eq!(
        parser_of(&["me", "--pid=7 -8\t+9,7"]).parse().unwrap(),
        pid_nodes(&[7, -8, 9, 7])
    );
    assert_eq!(
        parser_of(&["me", "--pid=2147483647,-2147483648"]).parse().unwrap(),
        pid_nodes(&[2147483647, -2147483648])
    );
}

#[test]
fn value_in_next_token_when_delimiter_is_last() {
    assert_eq!(parser_of(&["me", "--pid=", "5,6"]).parse().unwrap(), pid_nodes(&[5, 6]));
    assert_eq!(parser_of(&["me", "--pid:", "5"]).parse().unwrap(), pid_nodes(&[5]));
}

#[test]
fn other_syntaxes_are_passed_over() {
    assert_eq!(
        parser_of(&["me", "aux", "--pid=1", "-ef", "12", "+3", "-4"]).parse().unwrap(),
        pid_nodes(&[1])
    );
    assert_eq!(parser_of(&["me"]).parse().unwrap(), pid_nodes(&[]));
    assert_eq!(parser_of(&[]).parse().unwrap(), pid_nodes(&[]));
}

#[test]
fn unknown_long_option_is_an_error() {
    assert_eq!(
        parser_of(&["me", "--sort=pid"]).parse(),
        Err(String::from("unknown gnu long option"))
    );
    assert_eq!(
        parser_of(&["me", "--pidx=3"]).parse(),
        Err(String::from("unknown gnu long option"))
    );
}

#[test]
fn missing_pid_value_is_an_error() {
    assert_eq!(
        parser_of(&["me", "--pid"]).parse(),
        Err(String::from("pid specification is invalid."))
    );
    assert_eq!(
        parser_of(&["me", "--pid="]).parse(),
        Err(String::from("pid specification is invalid."))
    );
}

#[test]
fn malformed_pid_list_is_an_error() {
    for v in ["--pid=33,,44", "--pid=,33", "--pid=33,", "--pid=x", "--pid=2147483648", "--pid=3 ,4"] {
        assert_eq!(
            parser_of(&["me", v]).parse(),
            Err(String::from("error parse_pid")),
            "{}",
            v
        );
    }
}

#[test]
fn error_stops_the_whole_parse() {
    assert_eq!(
        parser_of(&["me", "--pid=1", "--pid=bad"]).parse(),
        Err(String::from("error parse_pid"))
    );
}

#[test]
fn parse_pid_makes_one_criterion_per_item() {
    let vals = vec![String::from("3"), String::from("-1"), String::from("3")];
    assert_eq!(parse_pid(&vals), Some(pid_nodes(&[3, -1, 3])));
    let bad = vec![String::from("3"), String::from("")];
    assert_eq!(parse_pid(&bad), None);
}

#[test]
fn grab_gnu_arg_reads_value() {
    let mut p = parser_of(&["me", "--pid=12", "x"]);
    p.curargix = 1;
    assert_eq!(p.grab_gnu_arg(), Some(String::from("12")));
    assert_eq!(p.curargix, 1);
    let mut q = parser_of(&["me", "--pid", "x"]);
    q.curargix = 1;
    assert_eq!(q.grab_gnu_arg(), Some(String::from("x")));
    assert_eq!(q.curargix, 2);
}

#[test]
fn parse_list_rejects_bad_shape_before_items() {
    let mut p = parser_of(&["me"]);
    assert_eq!(p.parse_list(&String::from(",1"), parse_pid), None);
    assert_eq!(p.parse_list(&String::from("1\t2"), parse_pid), Some(pid_nodes(&[1, 2])));
}

#[test]
fn thread_default_is_one_line_per_process() {
    let mut p = parser_of(&["me"]);
    assert_eq!(p.arg_parse(), Ok(vec![]));
    assert_eq!(p.thread_flags, vec![ThreadFlag::SHOW_PROC]);
    let mut q = parser_of(&["me"]);
    q.thread_flags = vec![ThreadFlag::SHOW_TASK];
    assert_eq!(q.thread_option_check(), Err(String::from("thread option: not imp")));
    assert_eq!(q.arg_parse(), Err(String::from("thread option: not imp")));
}

#[test]
fn dimensions_follow_width_settings() {
    let mut p = parser_of(&["me"]);
    p.choose_dimensions().unwrap();
    assert_eq!(p.screen_cols, 131072);
    let mut q = parser_of(&["me"]);
    q.w_count = 0;
    q.screen_cols = 80;
    q.choose_dimensions().unwrap();
    assert_eq!(q.screen_cols, 132);
    let mut r = parser_of(&["me"]);
    r.w_count = 1;
    r.screen_cols = 80;
    r.choose_dimensions().unwrap();
    assert_eq!(r.screen_cols, 80);
    let mut t = parser_of(&["me"]);
    t.w_count = 0;
    t.screen_cols = 200;
    t.choose_dimensions().unwrap();
    assert_eq!(t.screen_cols, 200);
}

#[test]
fn from_starts_a_fresh_parse() {
    let p = PsParser::from(vec![String::from("me"), String::from("--pid=4")]);
    assert_eq!(p.curargix, 0);
    assert_eq!(p.w_count, 211);
    assert_eq!(p.parse().unwrap(), pid_nodes(&[4]));
}

#[test]
fn trailing_separator_is_a_malformed_list() {
    let mut p = parser_of(&["me"]);
    let accept_all = |_: &Vec<String>| Some(Vec::new());
    assert_eq!(p.parse_list(&String::from("33,"), accept_all), None);
    assert_eq!(p.parse_list(&String::from("33 "), accept_all), None);
    assert_eq!(p.parse_list(&String::from("33\t"), accept_all), None);
    assert_eq!(p.parse_list(&String::from("33"), accept_all), Some(vec![]));
}

#[test]
fn failed_parse_leaves_thread_flags_and_width() {
    let mut p = parser_of(&["me", "--pid=1,"]);
    assert_eq!(p.arg_parse(), Err(String::from("error parse_pid")));
    assert!(p.thread_flags.is_empty());
    assert_eq!(p.screen_cols, 0);
}

#[test]
fn successful_scan_ends_past_the_last_token() {
    let mut p = parser_of(&["me", "--pid", "4", "aux"]);
    assert_eq!(p.parse_all_options(), Ok(pid_nodes(&[4])));
    assert!(p.curargix >= p.args.len());
}
