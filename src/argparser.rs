//! The argument pipeline: classification of command-line tokens, decoding of
//! GNU long options into selection criteria, and the normalisation that
//! follows the token scan.

use vstd::prelude::*;

use crate::helper::{chars_of, strpbrk};
use crate::number::{i32_text, scan_i32};

verus! {

/// The syntax a command-line token is written in.
#[derive(Debug, Clone, Copy, PartialEq, Eq, Structural)]
pub enum ArgType {
    GNU,
    SYSV,
    BSD,
    PGRP,
    SESS,
    PID,
    FAIL,
}

pub open spec fn is_letter(c: char) -> bool {
    ('a' <= c && c <= 'z') || ('A' <= c && c <= 'Z')
}

pub open spec fn is_dec_digit(c: char) -> bool {
    '0' <= c && c <= '9'
}

/// The classification of a token by its leading characters.
pub open spec fn arg_type_of(s: Seq<char>) -> ArgType {
    if s.len() == 0 {
        ArgType::FAIL
    } else if is_letter(s[0]) {
        ArgType::BSD
    } else if is_dec_digit(s[0]) {
        ArgType::PID
    } else if s[0] == '+' {
        ArgType::SESS
    } else if s[0] != '-' || s.len() < 2 {
        ArgType::FAIL
    } else if is_letter(s[1]) {
        ArgType::SYSV
    } else if is_dec_digit(s[1]) {
        ArgType::PGRP
    } else if s[1] == '-' && s.len() >= 3 && is_letter(s[2]) {
        ArgType::GNU
    } else {
        ArgType::FAIL
    }
}

fn char_is_letter(c: char) -> (r: bool)
    ensures
        r == is_letter(c),
{
    ('a' <= c && c <= 'z') || ('A' <= c && c <= 'Z')
}

fn char_is_digit(c: char) -> (r: bool)
    ensures
        r == is_dec_digit(c),
{
    '0' <= c && c <= '9'
}

/// Classifies one command-line token.
pub fn arg_type(arg: &String) -> (r: ArgType)
    ensures
        r == arg_type_of(arg@),
        arg@.len() > 0 && is_letter(arg@[0]) ==> r == ArgType::BSD,
        arg@.len() > 0 && is_dec_digit(arg@[0]) ==> r == ArgType::PID,
        arg@.len() > 0 && arg@[0] == '+' ==> r == ArgType::SESS,
        arg@ == seq!['-'] || arg@ == seq!['-', '-'] || arg@ == seq!['-', '-', '-'] ==> r
            == ArgType::FAIL,
        arg@.len() >= 3 && arg@[0] == '-' && arg@[1] == '-' && is_dec_digit(arg@[2]) ==> r
            == ArgType::FAIL,
{
    let s = arg.as_str();
    let n = s.unicode_len();
    if n == 0 {
        return ArgType::FAIL;
    }
    let c0 = s.get_char(0);
    if char_is_letter(c0) {
        ArgType::BSD
    } else if char_is_digit(c0) {
        ArgType::PID
    } else if c0 == '+' {
        ArgType::SESS
    } else if c0 != '-' || n < 2 {
        ArgType::FAIL
    } else {
        let c1 = s.get_char(1);
        if char_is_letter(c1) {
            ArgType::SYSV
        } else if char_is_digit(c1) {
            ArgType::PGRP
        } else if c1 == '-' && n >= 3 && char_is_letter(s.get_char(2)) {
            ArgType::GNU
        } else {
            ArgType::FAIL
        }
    }
}

/// Thread-display flags that the parse may set.
#[allow(non_camel_case_types)]
#[derive(Debug, Clone, Copy, PartialEq, Eq, Structural)]
pub enum ThreadFlag {
    B_H,
    B_m,
    U_m,
    U_T,
    U_L,
    SHOW_PROC,
    SHOW_TASK,
    SHOW_BOTH,
    LOOSE_TASKS,
    NO_SORT,
    NO_FOREST,
    MUST_USE,
}

/// Width of the output when no wider one is asked for.
pub const MIN_SCREEN_COLS: u32 = 132;

/// Width of the output in multiple-width mode.
pub const WIDE_SCREEN_COLS: u32 = 131072;

/// The state of one parse of a command line: the tokens, the index of the
/// token being read, and what the parse has found so far.
#[derive(Debug)]
pub struct PsParser {
    pub args: Vec<String>,
    pub curargix: usize,
    pub thread_flags: Vec<ThreadFlag>,
    pub select_bits: u32,
    pub simple_select: bool,
    pub screen_cols: u32,
    pub w_count: u32,
    pub all_process: bool,
    pub selection_list: Vec<SelectionNode>,
}

impl Default for PsParser {
    fn default() -> (r: Self)
        ensures
            r.args@.len() == 0,
            r.curargix == 0,
            r.thread_flags@.len() == 0,
            r.select_bits == 0,
            !r.simple_select,
            r.screen_cols == 0,
            r.w_count == 211,
            !r.all_process,
            r.selection_list@.len() == 0,
    {
        PsParser {
            args: Vec::new(),
            curargix: 0,
            thread_flags: Vec::new(),
            select_bits: 0,
            simple_select: false,
            screen_cols: 0,
            w_count: 211,
            all_process: false,
            selection_list: Vec::new(),
        }
    }
}

/// `b` is `a` with at most its token index changed.
pub open spec fn same_but_cursor(a: PsParser, b: PsParser) -> bool {
    &&& b.args == a.args
    &&& b.thread_flags == a.thread_flags
    &&& b.select_bits == a.select_bits
    &&& b.simple_select == a.simple_select
    &&& b.screen_cols == a.screen_cols
    &&& b.w_count == a.w_count
    &&& b.all_process == a.all_process
    &&& b.selection_list == a.selection_list
}

/// The tokens of a command line as character sequences.
pub open spec fn args_view(args: Seq<String>) -> Seq<Seq<char>> {
    args.map_values(|s: String| s@)
}

pub open spec fn is_gnu_delim(c: char) -> bool {
    c == '=' || c == ':'
}

/// Index of the first `=` or `:` in `a`, or its length when there is none.
pub open spec fn delim_index(a: Seq<char>) -> int
    decreases a.len(),
{
    if a.len() == 0 || is_gnu_delim(a[0]) {
        0
    } else {
        1 + delim_index(a.drop_first())
    }
}

proof fn lemma_delim_index(a: Seq<char>, p: int)
    requires
        0 <= p <= a.len(),
        p < a.len() ==> is_gnu_delim(a[p]),
        forall|j: int| 0 <= j < p ==> !is_gnu_delim(#[trigger] a[j]),
    ensures
        delim_index(a) == p,
    decreases p,
{
    if p > 0 {
        assert(!is_gnu_delim(a[0]));
        let t = a.drop_first();
        assert forall|j: int| 0 <= j < p - 1 implies !is_gnu_delim(#[trigger] t[j]) by {
            assert(t[j] == a[j + 1]);
        }
        lemma_delim_index(t, p - 1);
    }
}

/// The value of the long option at token `i` and the index of the last
/// token it takes: the rest of the token after the delimiter, or the next
/// token when the delimiter is the last character or absent.
pub open spec fn gnu_value(args: Seq<Seq<char>>, i: int) -> (Option<Seq<char>>, int) {
    let a = args[i];
    let d = delim_index(a);
    if d + 1 >= a.len() {
        (
            if i + 1 < args.len() {
                Some(args[i + 1])
            } else {
                None
            },
            i + 1,
        )
    } else {
        (Some(a.subrange(d + 1, a.len() as int)), i)
    }
}

pub open spec fn unknown_option_msg() -> Seq<char> {
    "unknown gnu long option"@
}

pub open spec fn missing_pid_msg() -> Seq<char> {
    "pid specification is invalid."@
}

pub open spec fn bad_pid_msg() -> Seq<char> {
    "error parse_pid"@
}

/// The name of the long option at the front of `a` (after `--`).
pub open spec fn gnu_name(a: Seq<char>) -> Seq<char> {
    a.subrange(2, delim_index(a))
}

/// The outcome of decoding the long option at token `i`: the ids it lists
/// and the index of the last token it takes, or the error message.
pub open spec fn gnu_step(args: Seq<Seq<char>>, i: int) -> Result<(Seq<i32>, int), Seq<char>> {
    if gnu_name(args[i]) != seq!['p', 'i', 'd'] {
        Err(unknown_option_msg())
    } else {
        match gnu_value(args, i).0 {
            None => Err(missing_pid_msg()),
            Some(v) => match pid_list_value(v) {
                None => Err(bad_pid_msg()),
                Some(ps) => Ok((ps, gnu_value(args, i).1)),
            },
        }
    }
}

/// The outcome of the token scan from token `i` on: the ids that the long
/// options there list, in order, or the first error met. Tokens in the
/// other syntaxes are passed over.
pub open spec fn options_outcome(args: Seq<Seq<char>>, i: int) -> Result<Seq<i32>, Seq<char>>
    decreases args.len() - i,
{
    if i < 0 || i >= args.len() {
        Ok(seq![])
    } else if arg_type_of(args[i]) != ArgType::GNU {
        options_outcome(args, i + 1)
    } else {
        match gnu_step(args, i) {
            Err(e) => Err(e),
            Ok((ps, last)) => match options_outcome(args, last + 1) {
                Ok(rest) => Ok(ps + rest),
                Err(e) => Err(e),
            },
        }
    }
}

pub open spec fn thread_option_msg() -> Seq<char> {
    "thread option: not imp"@
}

/// The output width that the width settings give.
pub open spec fn chosen_cols(w_count: u32, screen_cols: u32) -> u32 {
    if w_count > 1 {
        WIDE_SCREEN_COLS
    } else if w_count != 1 && screen_cols < MIN_SCREEN_COLS {
        MIN_SCREEN_COLS
    } else {
        screen_cols
    }
}

/// The outcome of the whole pipeline on a parser in state `p`: the ids
/// that the selection criteria list, or the error that stops it.
pub open spec fn pipeline_outcome(p: PsParser) -> Result<Seq<i32>, Seq<char>> {
    match options_outcome(args_view(p.args@), 1) {
        Err(e) => Err(e),
        Ok(ps) => if p.thread_flags@.len() == 0 {
            Ok(ps)
        } else {
            Err(thread_option_msg())
        },
    }
}

/// A token that starts with `--`.
pub open spec fn starts_long(a: Seq<char>) -> bool {
    a.len() >= 2 && a[0] == '-' && a[1] == '-'
}

/// Index of the first `=` or `:` in `arg`, or its length.
fn find_delim(arg: &String) -> (r: usize)
    ensures
        r == delim_index(arg@),
        r <= arg@.len(),
        r < arg@.len() ==> is_gnu_delim(arg@[r as int]),
        forall|j: int| 0 <= j < r ==> !is_gnu_delim(#[trigger] arg@[j]),
{
    proof {
        reveal_strlit("=:");
        assert(forall|c: char| "=:"@.contains(c) <==> is_gnu_delim(c)) by {
            assert forall|c: char| is_gnu_delim(c) implies "=:"@.contains(c) by {
                if c == '=' {
                    assert("=:"@[0] == c);
                } else {
                    assert("=:"@[1] == c);
                }
            }
        }
    }
    match strpbrk(arg, "=:") {
        Some(ix) => {
            proof {
                lemma_delim_index(arg@, ix as int);
            }
            ix
        },
        None => {
            let n = arg.as_str().unicode_len();
            proof {
                lemma_delim_index(arg@, n as int);
            }
            n
        },
    }
}

impl PsParser {
    /// A parser over the tokens of a command line (the first is the
    /// program's name).
    pub fn from(args: Vec<String>) -> (r: PsParser)
        ensures
            r.args == args,
            r.curargix == 0,
            r.thread_flags@.len() == 0,
            r.select_bits == 0,
            !r.simple_select,
            r.screen_cols == 0,
            r.w_count == 211,
            !r.all_process,
            r.selection_list@.len() == 0,
    {
        PsParser { curargix: 0, args: args, thread_flags: Vec::new(), ..Default::default() }
    }

    /// The value of the long option at the current token. When the value
    /// stands in the next token, the index moves on to that token.
    pub fn grab_gnu_arg(&mut self) -> (r: Option<String>)
        requires
            old(self).curargix < old(self).args@.len(),
        ensures
            same_but_cursor(*old(self), *final(self)),
            ({
                let (v, last) = gnu_value(args_view(old(self).args@), old(self).curargix as int);
                &&& final(self).curargix == last
                &&& match v {
                    Some(t) => r is Some && r->0@ == t,
                    None => r is None,
                }
            }),
    {
        let ghost av = args_view(self.args@);
        let ghost i = self.curargix as int;
        let d = find_delim(&self.args[self.curargix]);
        let n = self.args[self.curargix].as_str().unicode_len();
        let len = self.args.len();
        assert(av[i] == self.args@[i]@);
        if n - d <= 1 {
            self.curargix = self.curargix + 1;
            if self.args.len() <= self.curargix {
                None
            } else {
                assert(av[i + 1] == self.args@[i + 1]@);
                Some(self.args[self.curargix].clone())
            }
        } else {
            Some(self.args[self.curargix].as_str().substring_char(d + 1, n).to_owned())
        }
    }

    /// Checks the shape of a list value and hands its pieces to `f`:
    /// `None` when a separator opens or closes the list or follows another
    /// one, else what `f` returns on the pieces between separators.
    pub fn parse_list<F: Fn(&Vec<String>) -> Option<Vec<SelectionNode>>>(
        &mut self,
        argval: &String,
        f: F,
    ) -> (r: Option<Vec<SelectionNode>>)
        requires
            forall|v: &Vec<String>| f.requires((v,)),
        ensures
            *final(self) == *old(self),
            !list_shape_ok(argval@) ==> r is None,
            list_shape_ok(argval@) ==> exists|v: Vec<String>|
                strings_view(v@) == split_items(argval@) && f.ensures((&v,), r),
    {
        if !list_shape_check(argval) {
            return None;
        }
        let vals = split_list(argval);
        f(&vals)
    }

    /// Decodes the long option at the current token into by-PID criteria.
    /// The index ends on the last token that the option takes.
    pub fn parse_gnu_option(&mut self) -> (r: Result<Vec<SelectionNode>, String>)
        requires
            old(self).curargix < old(self).args@.len(),
            starts_long(old(self).args@[old(self).curargix as int]@),
        ensures
            same_but_cursor(*old(self), *final(self)),
            ({
                let args = args_view(old(self).args@);
                let i = old(self).curargix as int;
                &&& final(self).curargix == if gnu_name(args[i]) == seq!['p', 'i', 'd'] {
                    gnu_value(args, i).1
                } else {
                    i
                }
                &&& match gnu_step(args, i) {
                    Ok((ps, _)) => r is Ok && pid_nodes(r->Ok_0@, ps),
                    Err(e) => r is Err && r->Err_0@ == e,
                }
            }),
    {
        let ghost args = args_view(self.args@);
        let ghost i = self.curargix as int;
        assert(args[i] == self.args@[i]@);
        let d = find_delim(&self.args[self.curargix]);
        let cs = chars_of(self.args[self.curargix].as_str());
        proof {
            assert(!is_gnu_delim(args[i][0]) && !is_gnu_delim(args[i][1]));
            assert(d >= 2);
        }
        let is_pid = d == 5 && cs[2] == 'p' && cs[3] == 'i' && cs[4] == 'd';
        assert(is_pid <==> gnu_name(args[i]) == seq!['p', 'i', 'd']) by {
            if gnu_name(args[i]) == seq!['p', 'i', 'd'] {
                assert(gnu_name(args[i]).len() == 3);
                assert(gnu_name(args[i])[0] == cs@[2]);
                assert(gnu_name(args[i])[1] == cs@[3]);
                assert(gnu_name(args[i])[2] == cs@[4]);
            }
            if is_pid {
                assert(gnu_name(args[i]) =~= seq!['p', 'i', 'd']);
            }
        }
        if !is_pid {
            return Err(String::from_str("unknown gnu long option"));
        }
        let value = match self.grab_gnu_arg() {
            Some(v) => v,
            None => {
                return Err(String::from_str("pid specification is invalid."));
            },
        };
        match self.parse_list(&value, parse_pid) {
            Some(list) => Ok(list),
            None => {
                proof {
                    if list_shape_ok(value@) {
                        let v = choose|v: Vec<String>|
                            strings_view(v@) == split_items(value@) && call_ensures(
                                parse_pid,
                                (&v,),
                                None,
                            );
                        assert(pids_of_items(strings_view(v@)) is None);
                    }
                }
                Err(String::from_str("error parse_pid"))
            },
        }
    }

    /// Scans every token after the program's name and collects the
    /// criteria of the long options, in the order met. Tokens in the other
    /// syntaxes are passed over; the first error ends the scan.
    pub fn parse_all_options(&mut self) -> (r: Result<Vec<SelectionNode>, String>)
        ensures
            same_but_cursor(*old(self), *final(self)),
            match options_outcome(args_view(old(self).args@), 1) {
                Ok(ps) => r is Ok && pid_nodes(r->Ok_0@, ps),
                Err(e) => r is Err && r->Err_0@ == e,
            },
            r is Ok ==> final(self).curargix >= final(self).args@.len(),
    {
        let ghost args = args_view(self.args@);
        let ghost mut acc: Seq<i32> = seq![];
        let mut selection_list: Vec<SelectionNode> = Vec::new();
        self.curargix = 1;
        while self.curargix < self.args.len()
            invariant
                same_but_cursor(*old(self), *self),
                args == args_view(self.args@),
                1 <= self.curargix,
                pid_nodes(selection_list@, acc),
                match options_outcome(args, self.curargix as int) {
                    Ok(rest) => options_outcome(args, 1) == Ok::<Seq<i32>, Seq<char>>(acc + rest),
                    Err(e) => options_outcome(args, 1) == Err::<Seq<i32>, Seq<char>>(e),
                },
            decreases self.args@.len() - self.curargix,
        {
            let ghost i = self.curargix as int;
            assert(args[i] == self.args@[i]@);
            if arg_type(&self.args[self.curargix]) == ArgType::GNU {
                match self.parse_gnu_option() {
                    Ok(mut list) => {
                        let ghost ps = node_seq_pids(list@);
                        let ghost before = selection_list@;
                        let ghost added = list@;
                        proof {
                            let (qs, last) = gnu_step(args, i)->Ok_0;
                            assert(ps =~= qs);
                        }
                        selection_list.append(&mut list);
                        proof {
                            assert forall|k: int| 0 <= k < selection_list@.len() implies #[trigger] selection_list@[k] is PID
                                && node_pids(selection_list@[k]) == seq![(acc + ps)[k]] by {
                                if k < before.len() {
                                    assert(selection_list@[k] == before[k]);
                                } else {
                                    assert(selection_list@[k] == added[k - before.len()]);
                                }
                            }
                            match options_outcome(args, self.curargix + 1) {
                                Ok(rest) => {
                                    assert(acc + (ps + rest) =~= (acc + ps) + rest);
                                },
                                Err(e) => {},
                            }
                            acc = acc + ps;
                        }
                    },
                    Err(msg) => {
                        return Err(msg);
                    },
                }
            }
            self.curargix = self.curargix + 1;
        }
        assert(acc + seq![] =~= acc);
        Ok(selection_list)
    }

    /// Applies the thread-display default: with no flag set, one line per
    /// process. A flag already set is not supported.
    pub fn thread_option_check(&mut self) -> (r: Result<(), String>)
        ensures
            final(self).args == old(self).args,
            final(self).curargix == old(self).curargix,
            final(self).select_bits == old(self).select_bits,
            final(self).simple_select == old(self).simple_select,
            final(self).screen_cols == old(self).screen_cols,
            final(self).w_count == old(self).w_count,
            final(self).all_process == old(self).all_process,
            final(self).selection_list == old(self).selection_list,
            old(self).thread_flags@.len() == 0 ==> r is Ok && final(self).thread_flags@ == seq![
                ThreadFlag::SHOW_PROC,
            ],
            old(self).thread_flags@.len() != 0 ==> r is Err && r->Err_0@ == thread_option_msg()
                && final(self).thread_flags == old(self).thread_flags,
    {
        if self.thread_flags.len() == 0 {
            self.thread_flags.push(ThreadFlag::SHOW_PROC);
            assert(self.thread_flags@ =~= seq![ThreadFlag::SHOW_PROC]);
            return Ok(());
        }
        Err(String::from_str("thread option: not imp"))
    }

    /// Settles the selection bits of the simple selections; there are none
    /// to settle yet.
    pub fn process_sf_options(&mut self) -> (r: Result<(), String>)
        ensures
            *final(self) == *old(self),
            r is Ok,
    {
        Ok(())
    }

    /// Derives the output width: at least the minimum width, unless exactly
    /// one width step is asked for, and the wide width in multiple-width mode.
    pub fn choose_dimensions(&mut self) -> (r: Result<(), String>)
        ensures
            r is Ok,
            final(self).screen_cols == chosen_cols(old(self).w_count, old(self).screen_cols),
            final(self).args == old(self).args,
            final(self).curargix == old(self).curargix,
            final(self).thread_flags == old(self).thread_flags,
            final(self).select_bits == old(self).select_bits,
            final(self).simple_select == old(self).simple_select,
            final(self).w_count == old(self).w_count,
            final(self).all_process == old(self).all_process,
            final(self).selection_list == old(self).selection_list,
    {
        if self.w_count != 1 && self.screen_cols < MIN_SCREEN_COLS {
            self.screen_cols = MIN_SCREEN_COLS;
        }
        if self.w_count > 1 {
            self.screen_cols = WIDE_SCREEN_COLS;
        }
        Ok(())
    }

    /// Runs the whole pipeline: the token scan, then the thread-display
    /// default and the output width. Returns the selection criteria, or the
    /// first error.
    pub fn arg_parse(&mut self) -> (r: Result<Vec<SelectionNode>, String>)
        ensures
            final(self).args == old(self).args,
            final(self).select_bits == old(self).select_bits,
            final(self).simple_select == old(self).simple_select,
            final(self).w_count == old(self).w_count,
            final(self).all_process == old(self).all_process,
            final(self).selection_list == old(self).selection_list,
            match pipeline_outcome(*old(self)) {
                Ok(ps) => {
                    &&& r is Ok
                    &&& pid_nodes(r->Ok_0@, ps)
                    &&& final(self).thread_flags@ == seq![ThreadFlag::SHOW_PROC]
                    &&& final(self).screen_cols == chosen_cols(
                        old(self).w_count,
                        old(self).screen_cols,
                    )
                },
                Err(e) => {
                    &&& r is Err
                    &&& r->Err_0@ == e
                    &&& final(self).thread_flags == old(self).thread_flags
                    &&& final(self).screen_cols == old(self).screen_cols
                },
            },
    {
        let option_nodes = match self.parse_all_options() {
            Ok(list) => list,
            Err(msg) => {
                return Err(msg);
            },
        };
        match self.thread_option_check() {
            Ok(_) => {},
            Err(msg) => {
                return Err(msg);
            },
        }
        match self.process_sf_options() {
            Ok(_) => {},
            Err(msg) => {
                return Err(msg);
            },
        }
        match self.choose_dimensions() {
            Ok(_) => {},
            Err(msg) => {
                return Err(msg);
            },
        }
        Ok(option_nodes)
    }

    /// Runs the whole pipeline on this parser and returns its outcome.
    pub fn parse(self) -> (r: Result<Vec<SelectionNode>, String>)
        ensures
            match pipeline_outcome(self) {
                Ok(ps) => r is Ok && pid_nodes(r->Ok_0@, ps),
                Err(e) => r is Err && r->Err_0@ == e,
            },
    {
        let mut parser = self;
        parser.arg_parse()
    }
}

/// One selection criterion.
#[derive(Debug, PartialEq)]
pub enum SelectionNode {
    /// Wanted when the process id is one of the listed ids.
    PID(PidSelection),
}

/// The process ids that a by-PID criterion lists, in the order given.
#[derive(Debug, PartialEq)]
pub struct PidSelection {
    pub pid: Vec<i32>,
}

/// The ids that a by-PID criterion lists.
pub open spec fn node_pids(n: SelectionNode) -> Seq<i32> {
    match n {
        SelectionNode::PID(sel) => sel.pid@,
    }
}

/// The ids of a list of by-PID criteria that list one id each.
pub open spec fn node_seq_pids(nodes: Seq<SelectionNode>) -> Seq<i32> {
    Seq::new(nodes.len(), |k: int| node_pids(nodes[k])[0])
}

/// `nodes` holds one by-PID criterion for each element of `pids`, in the
/// same order, each listing that one id.
pub open spec fn pid_nodes(nodes: Seq<SelectionNode>, pids: Seq<i32>) -> bool {
    &&& nodes.len() == pids.len()
    &&& forall|k: int|
        0 <= k < nodes.len() ==> #[trigger] nodes[k] is PID && node_pids(nodes[k]) == seq![
            pids[k],
        ]
}

pub open spec fn strings_view(v: Seq<String>) -> Seq<Seq<char>> {
    v.map_values(|s: String| s@)
}

pub open spec fn is_list_sep(c: char) -> bool {
    c == ',' || c == ' ' || c == '\t'
}

/// The pieces of `s` between separators, as a split at every separator
/// makes them (an empty piece stands between two adjacent separators).
pub open spec fn split_items(s: Seq<char>) -> Seq<Seq<char>>
    decreases s.len(),
{
    if s.len() == 0 {
        seq![Seq::empty()]
    } else {
        let prev = split_items(s.drop_last());
        if is_list_sep(s.last()) {
            prev.push(Seq::empty())
        } else {
            prev.update(prev.len() - 1, prev.last().push(s.last()))
        }
    }
}

/// No separator opens or closes the list, and no two separators are
/// adjacent: every separator stands between two items.
pub open spec fn list_shape_ok(s: Seq<char>) -> bool {
    &&& forall|i: int|
        0 <= i < s.len() && is_list_sep(#[trigger] s[i]) ==> i > 0 && !is_list_sep(s[i - 1])
    &&& (s.len() == 0 || !is_list_sep(s.last()))
}

/// The ids that the items write, when every item writes an `i32`.
pub open spec fn pids_of_items(items: Seq<Seq<char>>) -> Option<Seq<i32>> {
    if forall|k: int| 0 <= k < items.len() ==> #[trigger] i32_text(items[k]) is Some {
        Some(Seq::new(items.len(), |k: int| i32_text(items[k])->0))
    } else {
        None
    }
}

/// The ids that a `--pid` value lists, or `None` when it is malformed.
pub open spec fn pid_list_value(s: Seq<char>) -> Option<Seq<i32>> {
    if list_shape_ok(s) {
        pids_of_items(split_items(s))
    } else {
        None
    }
}

/// Splits `argval` at every comma, space and tab.
fn split_list(argval: &String) -> (r: Vec<String>)
    ensures
        strings_view(r@) == split_items(argval@),
{
    let cs = chars_of(argval.as_str());
    let mut out: Vec<String> = Vec::new();
    let mut start: usize = 0;
    let mut i: usize = 0;
    assert(strings_view(out@).push(cs@.subrange(0, 0)) =~~= split_items(cs@.subrange(0, 0)));
    while i < cs.len()
        invariant
            cs@ == argval@,
            start <= i <= cs@.len(),
            strings_view(out@).push(cs@.subrange(start as int, i as int)) == split_items(
                cs@.subrange(0, i as int),
            ),
        decreases cs.len() - i,
    {
        let c = cs[i];
        let ghost pre = cs@.subrange(0, i as int);
        let ghost before = strings_view(out@);
        let ghost piece_view = cs@.subrange(start as int, i as int);
        assert(cs@.subrange(0, i + 1).drop_last() =~= pre);
        assert(cs@.subrange(0, i + 1).last() == c);
        if c == ',' || c == ' ' || c == '\t' {
            let piece = argval.as_str().substring_char(start, i).to_owned();
            out.push(piece);
            assert(strings_view(out@) =~~= before.push(piece_view));
            start = i + 1;
            assert(strings_view(out@).push(cs@.subrange(start as int, i + 1)) =~~= before.push(
                piece_view,
            ).push(Seq::empty()));
        } else {
            assert(cs@.subrange(start as int, i + 1) =~= piece_view.push(c));
            assert(strings_view(out@).push(cs@.subrange(start as int, i + 1)) =~~= before.push(
                piece_view,
            ).update(before.len() as int, piece_view.push(c)));
        }
        i = i + 1;
    }
    let ghost before = strings_view(out@);
    let piece = argval.as_str().substring_char(start, cs.len()).to_owned();
    out.push(piece);
    assert(cs@.subrange(0, cs@.len() as int) =~= argval@);
    assert(strings_view(out@) =~~= before.push(cs@.subrange(start as int, cs@.len() as int)));
    out
}

/// Reads every piece as an `i32` and makes one by-PID criterion of each;
/// `None` when a piece is not an `i32` written in decimal.
pub fn parse_pid(vals: &Vec<String>) -> (r: Option<Vec<SelectionNode>>)
    ensures
        match pids_of_items(strings_view(vals@)) {
            Some(ps) => r is Some && pid_nodes(r->0@, ps),
            None => r is None,
        },
{
    let ghost items = strings_view(vals@);
    let mut selection_list: Vec<SelectionNode> = Vec::new();
    let mut i: usize = 0;
    while i < vals.len()
        invariant
            i <= vals@.len(),
            items == strings_view(vals@),
            selection_list@.len() == i,
            forall|k: int| 0 <= k < i ==> #[trigger] i32_text(items[k]) is Some,
            forall|k: int|
                0 <= k < i ==> #[trigger] selection_list@[k] is PID && node_pids(
                    selection_list@[k],
                ) == seq![i32_text(items[k])->0],
        decreases vals.len() - i,
    {
        let cs = chars_of(vals[i].as_str());
        assert(cs@.subrange(0, cs@.len() as int) =~= items[i as int]);
        let n = match scan_i32(&cs, 0, cs.len()) {
            Some(n) => n,
            None => {
                return None;
            },
        };
        let mut one: Vec<i32> = Vec::new();
        one.push(n);
        assert(one@ =~= seq![n]);
        selection_list.push(SelectionNode::PID(PidSelection { pid: one }));
        i = i + 1;
    }
    proof {
        let ps = Seq::new(items.len(), |k: int| i32_text(items[k])->0);
        assert(pids_of_items(items) == Some(ps));
        assert(pid_nodes(selection_list@, ps));
    }
    Some(selection_list)
}

/// Whether `argval` passes the shape check of a list: no separator first
/// or last, none right after another.
fn list_shape_check(argval: &String) -> (r: bool)
    ensures
        r == list_shape_ok(argval@),
{
    let cs = chars_of(argval.as_str());
    let mut need_item = true;
    let mut i: usize = 0;
    while i < cs.len()
        invariant
            cs@ == argval@,
            i <= cs@.len(),
            need_item == (i == 0 || is_list_sep(cs@[i - 1])),
            forall|j: int|
                0 <= j < i && is_list_sep(#[trigger] cs@[j]) ==> j > 0 && !is_list_sep(
                    cs@[j - 1],
                ),
        decreases cs.len() - i,
    {
        let c = cs[i];
        if c == ',' || c == ' ' || c == '\t' {
            if need_item {
                return false;
            }
            need_item = true;
        } else {
            need_item = false;
        }
        i = i + 1;
    }
    if cs.len() > 0 && need_item {
        return false;
    }
    true
}

/// Classification is a function of the token's text: the same text always
/// receives the same syntax.
pub proof fn lemma_arg_type_deterministic(a: Seq<char>, b: Seq<char>)
    requires
        a == b,
    ensures
        arg_type_of(a) == arg_type_of(b),
{
}

/// The token `--pid` followed by `sep` and then `v`.
pub open spec fn pid_token(sep: Seq<char>, v: Seq<char>) -> Seq<char> {
    seq!['-', '-', 'p', 'i', 'd'] + sep + v
}

/// What a `--pid` option with value `v` contributes to the outcome.
pub open spec fn pid_option_outcome(v: Seq<char>) -> Result<Seq<i32>, Seq<char>> {
    match pid_list_value(v) {
        Some(ps) => Ok(ps),
        None => Err(bad_pid_msg()),
    }
}

proof fn lemma_pid_token_at(args: Seq<Seq<char>>, i: int, sep: char, v: Seq<char>)
    requires
        0 <= i < args.len(),
        args[i] == pid_token(seq![sep], v),
        is_gnu_delim(sep),
        v.len() > 0,
    ensures
        arg_type_of(args[i]) == ArgType::GNU,
        gnu_step(args, i) == match pid_list_value(v) {
            Some(ps) => Ok::<(Seq<i32>, int), Seq<char>>((ps, i)),
            None => Err(bad_pid_msg()),
        },
{
    let a = args[i];
    assert(a[0] == '-' && a[1] == '-' && a[2] == 'p' && a[3] == 'i' && a[4] == 'd');
    assert(a[5] == sep);
    lemma_delim_index(a, 5);
    assert(gnu_name(a) =~= seq!['p', 'i', 'd']);
    assert(a.subrange(6, a.len() as int) =~= v);
}

/// The three ways of writing a `--pid` option agree: `--pid=V`, `--pid:V`,
/// and `--pid` followed by a token `V` give the same criteria, or the same
/// error, for every non-empty value `V`.
pub proof fn lemma_pid_forms_agree(prog: Seq<char>, v: Seq<char>)
    requires
        v.len() > 0,
    ensures
        options_outcome(seq![prog, pid_token(seq!['='], v)], 1) == pid_option_outcome(v),
        options_outcome(seq![prog, pid_token(seq![':'], v)], 1) == pid_option_outcome(v),
        options_outcome(seq![prog, seq!['-', '-', 'p', 'i', 'd'], v], 1) == pid_option_outcome(v),
{
    let a1 = seq![prog, pid_token(seq!['='], v)];
    lemma_pid_token_at(a1, 1, '=', v);
    assert(options_outcome(a1, 2) == Ok::<Seq<i32>, Seq<char>>(seq![]));
    let a2 = seq![prog, pid_token(seq![':'], v)];
    lemma_pid_token_at(a2, 1, ':', v);
    assert(options_outcome(a2, 2) == Ok::<Seq<i32>, Seq<char>>(seq![]));
    let a3 = seq![prog, seq!['-', '-', 'p', 'i', 'd'], v];
    let t = a3[1];
    lemma_delim_index(t, 5);
    assert(gnu_name(t) =~= seq!['p', 'i', 'd']);
    assert(arg_type_of(t) == ArgType::GNU);
    assert(options_outcome(a3, 3) == Ok::<Seq<i32>, Seq<char>>(seq![]));
    match pid_list_value(v) {
        Some(ps) => {
            assert(ps + seq![] =~= ps);
        },
        None => {},
    }
}

/// Two `--pid=` options give the criteria of the first, then those of the
/// second, in the order met; an error in either stops the scan.
pub proof fn lemma_pid_options_in_order(prog: Seq<char>, a: Seq<char>, b: Seq<char>)
    requires
        a.len() > 0,
        b.len() > 0,
    ensures
        options_outcome(seq![prog, pid_token(seq!['='], a), pid_token(seq!['='], b)], 1) == match (
            pid_list_value(a),
            pid_list_value(b),
        ) {
            (Some(pa), Some(pb)) => Ok(pa + pb),
            _ => Err(bad_pid_msg()),
        },
{
    let args = seq![prog, pid_token(seq!['='], a), pid_token(seq!['='], b)];
    lemma_pid_token_at(args, 1, '=', a);
    lemma_pid_token_at(args, 2, '=', b);
    assert(options_outcome(args, 3) == Ok::<Seq<i32>, Seq<char>>(seq![]));
    match pid_list_value(b) {
        Some(pb) => {
            assert(pb + seq![] =~= pb);
            assert(options_outcome(args, 2) == Ok::<Seq<i32>, Seq<char>>(pb));
        },
        None => {
            assert(options_outcome(args, 2) == Err::<Seq<i32>, Seq<char>>(bad_pid_msg()));
        },
    }
}

} // verus!
