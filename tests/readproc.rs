use ps::argparser::{PidSelection, PsParser, SelectionNode};
use ps::ps::Ps;
use ps::readproc::{
    fill_proc, i2u32, i2u64, proc_entry, proc_was_listed, stat2proc, table_accept, want_this_proc,
    ProcState, PROCT, PROC_FILLSTAT,
};

const BASH: &str = "1504081 (bash) S 3423 1504081 1504081 34984 1504155 4194304 2107 9649 0 0 4 0 4 5 20 0 1 0 76785102 13455360 1554 18446744073709551615 94220315791360 94220316514053 140735920746448 0 0 0 65536 3670020 1266777851 1 0 0 17 3 0 0 0 0 0 94220316744944 94220316792324 94220326436864 140735920752777 140735920752791 140735920752791 140735920754666 0\n";

fn with_state(code: &str) -> String {
    BASH.replacen(") S ", &format!(") {} ", code), 1)
}

#[test]
fn test_stat2proc_1() {
    let stat = String::from(BASH);
    let mut p = PROCT {
        ..Default::default()
    };
    stat2proc(&stat, &mut p).unwrap();
    assert_eq!(p.cmd, "bash");
    assert_eq!(p.session, 1504081);
}

#[test]
fn stat2proc_2() {
    let stat = String::from("1406 ((sd-pam)) S 1405 1405 1405 0 -1 1077936448 48 0 0 0 0 0 0 0 20 0 1 0 910 173793280 845 18446744073709551615 1 1 0 0 0 0 0 4096 0 0 0 0 17 3 0 0 0 0 0 0 0 0 0 0 0 0 0\n");
    let mut p = PROCT {
        ..Default::default()
    };
    stat2proc(&stat, &mut p).unwrap();
    assert_eq!(p.cmd, "(sd-pam)");
    assert_eq!(p.session, 1405);
}

#[test]
fn stat2proc_3() {
    let stat = String::from("3421 (tmux: client) S 3410 3421 3421 34816 3421 4194304 259 13 8 0 0 0 0 0 20 0 1 0 3806 11034624 837 18446744073709551615 94632459423744 94632459845269 140723971592480 0 0 0 0 528386 134433281 1 0 0 17 5 0 0 0 0 0 94632459996432 94632460044040 94632480497664 140723971594440 140723971594445 140723971594445 140723971596266 0\n");
    let mut p = PROCT {
        ..Default::default()
    };
    stat2proc(&stat, &mut p).unwrap();
    assert_eq!(p.cmd, "tmux: client");
    assert_eq!(p.session, 3421);
}

#[test]
fn want_this_proc_single_pid() {
    let p1 = PROCT {
        tgid: 3,
        ..Default::default()
    };
    let p2 = PROCT {
        tgid: 4,
        ..Default::default()
    };
    let selection_list = vec![SelectionNode::PID(PidSelection { pid: vec![3] })];
    let psparser = PsParser {
        selection_list: selection_list,
        ..Default::default()
    };
    assert_eq!(want_this_proc(&p1, &psparser), true);
    assert_eq!(want_this_proc(&p2, &psparser), false);
}

#[test]
fn bash_record_decodes_every_field() {
    let mut p = PROCT {
        tgid: 1504081,
        tid: 1504081,
        euid: 1000,
        egid: 100,
        ..Default::default()
    };
    stat2proc(&String::from(BASH), &mut p).unwrap();
    assert_eq!(p.state, ProcState::SLEEPING);
    assert_eq!((p.ppid, p.pgrp, p.session, p.tty, p.tpgid), (3423, 1504081, 1504081, 34984, 1504155));
    assert_eq!(p.flags, 4194304);
    assert_eq!((p.min_flt, p.cmin_flt, p.maj_flt, p.cmaj_flt), (2107, 9649, 0, 0));
    assert_eq!((p.utime, p.stime, p.cutime, p.cstime), (4, 0, 4, 5));
    assert_eq!((p.priority, p.nice, p.nlwp, p.alarm), (20, 0, 1, 0));
    assert_eq!(p.start_time, 76785102);
    assert_eq!((p.vsize, p.rss, p.rss_rlim), (13455360, 1554, u64::MAX));
    assert_eq!((p.start_code, p.end_code), (94220315791360, 94220316514053));
    assert_eq!((p.start_stack, p.kstk_esp, p.kstk_eip), (140735920746448, 0, 0));
    assert_eq!(p.wchan, 1);
    assert_eq!((p.exit_signal, p.processor, p.rtprio, p.sched), (17, 3, 0, 0));
    assert_eq!((p.tgid, p.tid, p.euid, p.egid), (1504081, 1504081, 1000, 100));
}

#[test]
fn negative_fields_decode() {
    let stat = String::from("1406 ((sd-pam)) S 1405 1405 1405 0 -1 1077936448 48 0 0 0 0 0 0 0 20 0 1 0 910 173793280 845 18446744073709551615 1 1 0 0 0 0 0 4096 0 0 0 0 17 3 0 0 0 0 0 0 0 0 0 0 0 0 0\n");
    let mut p = PROCT::default();
    stat2proc(&stat, &mut p).unwrap();
    assert_eq!(p.tpgid, -1);
    assert_eq!(p.ppid, 1405);
}

#[test]
fn state_codes_map_to_states() {
    let cases = [
        ("R", ProcState::RUNNING),
        ("S", ProcState::SLEEPING),
        ("D", ProcState::WAITING),
        ("Z", ProcState::ZOMBIE),
        ("T", ProcState::STOPPED),
        ("t", ProcState::TSTOP),
        ("W", ProcState::PAGING),
        ("X", ProcState::DEAD),
        ("x", ProcState::DEAD2),
        ("K", ProcState::WAKEKILL),
        ("P", ProcState::PARKED),
        ("I", ProcState::UNKNOWN),
        ("SS", ProcState::UNKNOWN),
    ];
    for (code, state) in cases {
        let mut p = PROCT::default();
        stat2proc(&with_state(code), &mut p).unwrap();
        assert_eq!(p.state, state, "{}", code);
    }
}

#[test]
fn record_without_trailing_newline_decodes() {
    let stat = String::from(BASH.trim_end_matches('\n'));
    let mut p = PROCT::default();
    assert_eq!(stat2proc(&stat, &mut p), Ok(()));
    assert_eq!(p.cmd, "bash");
}

#[test]
fn malformed_records_are_errors_and_leave_snapshot() {
    let bad = [
        String::from("12 bash S 1"),
        String::from("12 (bash S 1"),
        String::from("12 )bash( S 1"),
        String::from("12 (bash)"),
        String::from("12 (bash)S 3423"),
        BASH.replacen(" 3423 ", " x ", 1),
        BASH.replacen(" 3423 ", " 3423  ", 1),
        BASH.replacen(" 0\n", "\n", 1),
        BASH.replacen(" 0\n", " 0 0\n", 1),
        BASH.replacen(" 18446744073709551615 ", " 18446744073709551616 ", 1),
        with_state(""),
    ];
    for s in bad.iter() {
        let mut p = PROCT {
            tgid: 9,
            cmd: String::from("keep"),
            ..Default::default()
        };
        assert_eq!(
            stat2proc(s, &mut p),
            Err(String::from("Parse error while reading stat")),
            "{}",
            s
        );
        assert_eq!(p, PROCT { tgid: 9, cmd: String::from("keep"), ..Default::default() });
    }
}

#[test]
fn decoding_twice_gives_the_same() {
    let stat = String::from(BASH);
    let mut a = PROCT::default();
    let mut b = PROCT::default();
    stat2proc(&stat, &mut a).unwrap();
    stat2proc(&stat, &mut b).unwrap();
    assert_eq!(a, b);
}

#[test]
fn absolute_values() {
    assert_eq!(i2u64(-5), 5);
    assert_eq!(i2u64(7), 7);
    assert_eq!(i2u64(0), 0);
    assert_eq!(i2u64(i64::MAX), i64::MAX as u64);
    assert_eq!(i2u32(-2147483647), 2147483647);
    assert_eq!(i2u32(3), 3);
}

#[test]
fn entry_names_that_are_pids() {
    let p = proc_entry(&String::from("42")).unwrap();
    assert_eq!((p.tgid, p.tid), (42, 42));
    assert_eq!(p.cmd, "");
    assert!(proc_entry(&String::from("self")).is_none());
    assert!(proc_entry(&String::from("-3")).is_none());
    assert!(proc_entry(&String::from("")).is_none());
    assert!(proc_entry(&String::from("99999999999")).is_none());
}

#[test]
fn fill_proc_sets_owner_and_record() {
    let mut p = proc_entry(&String::from("1504081")).unwrap();
    assert_eq!(fill_proc(&mut p, PROC_FILLSTAT, 1000, 100, &String::from(BASH)), Some(()));
    assert_eq!((p.euid, p.egid, p.session), (1000, 100, 1504081));
    assert_eq!(p.cmd, "bash");
    let mut q = proc_entry(&String::from("5")).unwrap();
    assert_eq!(fill_proc(&mut q, PROC_FILLSTAT, 1, 2, &String::from("junk")), None);
    let mut r = proc_entry(&String::from("5")).unwrap();
    assert_eq!(fill_proc(&mut r, 0, 1, 2, &String::from("junk")), Some(()));
    assert_eq!((r.euid, r.egid, r.cmd.as_str()), (1, 2, ""));
}

#[test]
fn empty_list_or_override_wants_everything() {
    let p = PROCT {
        tgid: 8,
        ..Default::default()
    };
    let empty = PsParser::default();
    assert!(want_this_proc(&p, &empty));
    assert!(table_accept());
    let all = PsParser {
        all_process: true,
        selection_list: vec![SelectionNode::PID(PidSelection { pid: vec![1] })],
        ..Default::default()
    };
    assert!(want_this_proc(&p, &all));
    let listed = PsParser {
        selection_list: vec![SelectionNode::PID(PidSelection { pid: vec![1] })],
        ..Default::default()
    };
    assert!(!want_this_proc(&p, &listed));
}

#[test]
fn any_criterion_and_any_value_matches() {
    let parser = PsParser {
        selection_list: vec![
            SelectionNode::PID(PidSelection { pid: vec![1, 2] }),
            SelectionNode::PID(PidSelection { pid: vec![7, 8] }),
        ],
        ..Default::default()
    };
    for (id, want) in [(1, true), (2, true), (8, true), (3, false)] {
        let p = PROCT {
            tgid: id,
            ..Default::default()
        };
        assert_eq!(proc_was_listed(&p, &parser), want);
        assert_eq!(want_this_proc(&p, &parser), want);
    }
}

#[test]
fn parsed_selection_drives_the_evaluator() {
    let mut ps = Ps::new(vec![String::from("me"), String::from("--pid=3")]);
    ps.arg_check_conflicts();
    ps.init_output();
    ps.lists_and_needs();
    assert_eq!(ps.parse_selection(), Ok(()));
    let three = PROCT {
        tgid: 3,
        ..Default::default()
    };
    let four = PROCT {
        tgid: 4,
        ..Default::default()
    };
    assert!(want_this_proc(&three, &ps.parser));
    assert!(!want_this_proc(&four, &ps.parser));
    let mut bad = Ps::new(vec![String::from("me"), String::from("--nope")]);
    assert_eq!(bad.parse_selection(), Err(String::from("unknown gnu long option")));
}

#[test]
fn simple_select_does_not_widen_a_list() {
    let parser = PsParser {
        simple_select: true,
        selection_list: vec![SelectionNode::PID(PidSelection { pid: vec![3] })],
        ..Default::default()
    };
    let three = PROCT {
        tgid: 3,
        ..Default::default()
    };
    let four = PROCT {
        tgid: 4,
        ..Default::default()
    };
    assert!(want_this_proc(&three, &parser));
    assert!(!want_this_proc(&four, &parser));
}

#[test]
fn decoding_again_changes_nothing() {
    let stat = String::from(BASH);
    let before = PROCT { tgid: 7, ..Default::default() };
    let mut q = PROCT { tgid: 7, ..Default::default() };
    assert_eq!(stat2proc(&stat, &mut q), Ok(()));
    assert_eq!(stat2proc(&stat, &mut q), Ok(()));
    let mut r = PROCT { tgid: 7, ..Default::default() };
    stat2proc(&stat, &mut r).unwrap();
    assert_eq!(q, r);
    assert_ne!(q, before);
}
