//! Process snapshots: the decoder of a process's status record, and the
//! evaluator that decides whether a snapshot is wanted.

use vstd::prelude::*;

use crate::argparser::{node_pids, PsParser, SelectionNode};
use crate::helper::{chars_of, strpbrk, strpbrk_all};
use crate::number::{i32_text, i64_text, scan_i32, scan_i64, scan_u64, u64_text};

verus! {

pub const PROC_FILLMEM: u64 = 0x1;

pub const PROC_FILLCOM: u64 = 0x2;

pub const PROC_FILLENV: u64 = 0x4;

pub const PROC_FILLUSER: u64 = 0x8;

pub const PROC_FILLGRP: u64 = 0x10;

pub const PROC_FILLSTATUS: u64 = 0x20;

pub const PROC_FILLSTAT: u64 = 0x40;

pub const PROC_FILLARG: u64 = 0x100;

pub const PROC_FILLCGROUP: u64 = 0x200;

pub const PROC_PID: u64 = 0x1000;

pub const PROC_UID: u64 = 0x4000;

pub const PROC_FILLNS: u64 = 0x8000;

pub const PROC_FILLSYSTEMD: u64 = 0x80000;

pub const PROC_FILL_LXC: u64 = 0x80000;

/// Number of fields that follow the command name in a status record.
pub const STAT_FIELDS: usize = 50;

/// Scheduling state of a process.
#[derive(Debug, Clone, Copy, PartialEq, Eq, Structural)]
pub enum ProcState {
    RUNNING,
    SLEEPING,
    WAITING,
    ZOMBIE,
    STOPPED,
    TSTOP,
    PAGING,
    DEAD,
    DEAD2,
    WAKEKILL,
    WAKING,
    PARKED,
    UNKNOWN,
}

impl Default for ProcState {
    fn default() -> (r: Self)
        ensures
            r == ProcState::UNKNOWN,
    {
        ProcState::UNKNOWN
    }
}

/// The state that a state field of a status record names; any text other
/// than a known single-character code is `UNKNOWN`.
pub open spec fn state_of_code(f: Seq<char>) -> ProcState {
    if f.len() != 1 {
        ProcState::UNKNOWN
    } else if f[0] == 'R' {
        ProcState::RUNNING
    } else if f[0] == 'S' {
        ProcState::SLEEPING
    } else if f[0] == 'D' {
        ProcState::WAITING
    } else if f[0] == 'Z' {
        ProcState::ZOMBIE
    } else if f[0] == 'T' {
        ProcState::STOPPED
    } else if f[0] == 't' {
        ProcState::TSTOP
    } else if f[0] == 'W' {
        ProcState::PAGING
    } else if f[0] == 'X' {
        ProcState::DEAD
    } else if f[0] == 'x' {
        ProcState::DEAD2
    } else if f[0] == 'K' {
        ProcState::WAKEKILL
    } else if f[0] == 'P' {
        ProcState::PARKED
    } else {
        ProcState::UNKNOWN
    }
}

/// The kind of value a field of a status record holds.
#[derive(Clone, Copy, PartialEq, Eq, Structural)]
pub enum FieldKind {
    Text,
    I32,
    U64,
    I64,
}

/// The kind of the `k`-th field after the command name.
pub open spec fn field_kind(k: int) -> FieldKind {
    if k == 0 {
        FieldKind::Text
    } else if 1 <= k <= 5 || k == 17 || k == 35 || k == 36 {
        FieldKind::I32
    } else if 6 <= k <= 14 || k == 19 || k == 20 || 22 <= k <= 27 || k == 32 || k == 37 || k
        == 38 {
        FieldKind::U64
    } else {
        FieldKind::I64
    }
}

/// Whether `f` is a value of kind `kind`.
pub open spec fn field_ok(kind: FieldKind, f: Seq<char>) -> bool {
    match kind {
        FieldKind::Text => f.len() > 0,
        FieldKind::I32 => i32_text(f) is Some,
        FieldKind::U64 => u64_text(f) is Some,
        FieldKind::I64 => i64_text(f) is Some,
    }
}

/// Index of the first `c` in `s`, or its length when there is none.
pub open spec fn first_index_of(s: Seq<char>, c: char) -> int
    decreases s.len(),
{
    if s.len() == 0 || s[0] == c {
        0
    } else {
        1 + first_index_of(s.drop_first(), c)
    }
}

/// Index of the last `c` in `s`, or -1 when there is none.
pub open spec fn last_index_of(s: Seq<char>, c: char) -> int
    decreases s.len(),
{
    if s.len() == 0 {
        -1
    } else if s.last() == c {
        s.len() - 1
    } else {
        last_index_of(s.drop_last(), c)
    }
}

/// The pieces of `s` between single spaces.
pub open spec fn split_spaces(s: Seq<char>) -> Seq<Seq<char>>
    decreases s.len(),
{
    if s.len() == 0 {
        seq![Seq::empty()]
    } else {
        let prev = split_spaces(s.drop_last());
        if s.last() == ' ' {
            prev.push(Seq::empty())
        } else {
            prev.update(prev.len() - 1, prev.last().push(s.last()))
        }
    }
}

/// Where the command name opens: the first `(` of the record.
pub open spec fn name_open(s: Seq<char>) -> int {
    first_index_of(s, '(')
}

/// Where the command name closes: the last `)` of the record.
pub open spec fn name_close(s: Seq<char>) -> int {
    last_index_of(s, ')')
}

/// The command name: all that stands between the first `(` and the last `)`.
pub open spec fn stat_name(s: Seq<char>) -> Seq<char> {
    s.subrange(name_open(s) + 1, name_close(s))
}

/// The record has a `(` with a later `)`, followed by a space.
pub open spec fn stat_frame_ok(s: Seq<char>) -> bool {
    &&& name_open(s) < name_close(s)
    &&& name_close(s) + 1 < s.len()
    &&& s[name_close(s) + 1] == ' '
}

/// What follows `") "`, without one final newline.
pub open spec fn stat_tail(s: Seq<char>) -> Seq<char> {
    let t = s.subrange(name_close(s) + 2, s.len() as int);
    if t.len() > 0 && t.last() == '\n' {
        t.drop_last()
    } else {
        t
    }
}

/// The space-separated fields that follow the command name.
pub open spec fn stat_fields(s: Seq<char>) -> Seq<Seq<char>> {
    split_spaces(stat_tail(s))
}

/// The record decodes: a command name in parentheses, then exactly the
/// expected number of fields, each of its kind.
pub open spec fn stat_ok(s: Seq<char>) -> bool {
    &&& stat_frame_ok(s)
    &&& fields_ok(stat_fields(s))
}

pub open spec fn f_i32(f: Seq<Seq<char>>, k: int) -> i32 {
    i32_text(f[k])->0
}

pub open spec fn f_u64(f: Seq<Seq<char>>, k: int) -> u64 {
    u64_text(f[k])->0
}

pub open spec fn f_i64(f: Seq<Seq<char>>, k: int) -> i64 {
    i64_text(f[k])->0
}

/// Every one of the fields is a value of its kind.
pub open spec fn fields_ok(f: Seq<Seq<char>>) -> bool {
    &&& f.len() == STAT_FIELDS
    &&& forall|k: int| 0 <= k < STAT_FIELDS ==> field_ok(field_kind(k), #[trigger] f[k])
}

/// A snapshot of one process.
#[allow(non_camel_case_types)]
#[derive(Debug, PartialEq)]
pub struct PROCT {
    /// Thread-group id: the canonical process id.
    pub tgid: i32,
    /// Thread id.
    pub tid: i32,
    pub pathname: String,
    /// Effective uid, from the owner of the process's registry entry.
    pub euid: u32,
    /// Effective gid, from the group of the process's registry entry.
    pub egid: u32,
    pub state: ProcState,
    pub ppid: i32,
    pub pgrp: i32,
    pub session: i32,
    pub tty: i32,
    pub tpgid: i32,
    pub flags: u64,
    pub min_flt: u64,
    pub cmin_flt: u64,
    pub maj_flt: u64,
    pub cmaj_flt: u64,
    pub utime: u64,
    pub stime: u64,
    pub cutime: u64,
    pub cstime: u64,
    pub priority: i64,
    pub nice: i64,
    pub nlwp: i32,
    pub alarm: i64,
    pub start_time: u64,
    pub vsize: u64,
    pub rss: i64,
    pub rss_rlim: u64,
    pub start_code: u64,
    pub end_code: u64,
    pub start_stack: u64,
    pub kstk_esp: u64,
    pub kstk_eip: u64,
    pub wchan: u64,
    pub exit_signal: i32,
    pub processor: i32,
    pub rtprio: u64,
    pub sched: u64,
    pub cmd: String,
}

/// `p` is the empty snapshot: zero numbers, empty text, unknown state.
pub open spec fn is_blank(p: PROCT) -> bool {
    &&& p.tgid == 0 && p.tid == 0 && p.pathname@.len() == 0 && p.euid == 0 && p.egid == 0
    &&& p.state == ProcState::UNKNOWN
    &&& p.ppid == 0 && p.pgrp == 0 && p.session == 0 && p.tty == 0 && p.tpgid == 0
    &&& p.flags == 0 && p.min_flt == 0 && p.cmin_flt == 0 && p.maj_flt == 0 && p.cmaj_flt == 0
    &&& p.utime == 0 && p.stime == 0 && p.cutime == 0 && p.cstime == 0
    &&& p.priority == 0 && p.nice == 0 && p.nlwp == 0 && p.alarm == 0 && p.start_time == 0
    &&& p.vsize == 0 && p.rss == 0 && p.rss_rlim == 0
    &&& p.start_code == 0 && p.end_code == 0 && p.start_stack == 0
    &&& p.kstk_esp == 0 && p.kstk_eip == 0 && p.wchan == 0
    &&& p.exit_signal == 0 && p.processor == 0 && p.rtprio == 0 && p.sched == 0
    &&& p.cmd@.len() == 0
}

impl Default for PROCT {
    fn default() -> (r: Self)
        ensures
            is_blank(r),
    {
        PROCT {
            tgid: 0,
            tid: 0,
            pathname: String::new(),
            euid: 0,
            egid: 0,
            state: ProcState::UNKNOWN,
            ppid: 0,
            pgrp: 0,
            session: 0,
            tty: 0,
            tpgid: 0,
            flags: 0,
            min_flt: 0,
            cmin_flt: 0,
            maj_flt: 0,
            cmaj_flt: 0,
            utime: 0,
            stime: 0,
            cutime: 0,
            cstime: 0,
            priority: 0,
            nice: 0,
            nlwp: 0,
            alarm: 0,
            start_time: 0,
            vsize: 0,
            rss: 0,
            rss_rlim: 0,
            start_code: 0,
            end_code: 0,
            start_stack: 0,
            kstk_esp: 0,
            kstk_eip: 0,
            wchan: 0,
            exit_signal: 0,
            processor: 0,
            rtprio: 0,
            sched: 0,
            cmd: String::new(),
        }
    }
}

/// The values that the fields after the command name set in a snapshot.
pub open spec fn fields_set(p: PROCT, s: Seq<Seq<char>>) -> bool {
    &&& p.state == state_of_code(s[0])
    &&& p.ppid == f_i32(s, 1)
    &&& p.pgrp == f_i32(s, 2)
    &&& p.session == f_i32(s, 3)
    &&& p.tty == f_i32(s, 4)
    &&& p.tpgid == f_i32(s, 5)
    &&& p.flags == f_u64(s, 6)
    &&& p.min_flt == f_u64(s, 7)
    &&& p.cmin_flt == f_u64(s, 8)
    &&& p.maj_flt == f_u64(s, 9)
    &&& p.cmaj_flt == f_u64(s, 10)
    &&& p.utime == f_u64(s, 11)
    &&& p.stime == f_u64(s, 12)
    &&& p.cutime == f_u64(s, 13)
    &&& p.cstime == f_u64(s, 14)
    &&& p.priority == f_i64(s, 15)
    &&& p.nice == f_i64(s, 16)
    &&& p.nlwp == f_i32(s, 17)
    &&& p.alarm == f_i64(s, 18)
    &&& p.start_time == f_u64(s, 19)
    &&& p.vsize == f_u64(s, 20)
    &&& p.rss == f_i64(s, 21)
    &&& p.rss_rlim == f_u64(s, 22)
    &&& p.start_code == f_u64(s, 23)
    &&& p.end_code == f_u64(s, 24)
    &&& p.start_stack == f_u64(s, 25)
    &&& p.kstk_esp == f_u64(s, 26)
    &&& p.kstk_eip == f_u64(s, 27)
    &&& p.wchan == f_u64(s, 32)
    &&& p.exit_signal == f_i32(s, 35)
    &&& p.processor == f_i32(s, 36)
    &&& p.rtprio == f_u64(s, 37)
    &&& p.sched == f_u64(s, 38)
}

/// The values that a status record sets in a snapshot.
pub open spec fn record_fields_set(p: PROCT, s: Seq<char>) -> bool {
    p.cmd@ == stat_name(s) && fields_set(p, stat_fields(s))
}

/// `b` is `a` with only the values that the fields set changed.
pub open spec fn only_fields_changed(a: PROCT, b: PROCT) -> bool {
    identity_kept(a, b) && b.cmd == a.cmd
}

/// `b` is `a` with only the fields that a status record sets changed.
pub open spec fn identity_kept(a: PROCT, b: PROCT) -> bool {
    &&& b.tgid == a.tgid
    &&& b.tid == a.tid
    &&& b.pathname == a.pathname
    &&& b.euid == a.euid
    &&& b.egid == a.egid
}

/// The pieces of `cs[lo..hi]` named by index ranges.
pub open spec fn ranges_view(cs: Seq<char>, r: Seq<(usize, usize)>) -> Seq<Seq<char>> {
    r.map_values(|b: (usize, usize)| cs.subrange(b.0 as int, b.1 as int))
}

/// Index ranges of the pieces of `cs[lo..hi]` between single spaces.
fn field_bounds(cs: &Vec<char>, lo: usize, hi: usize) -> (r: Vec<(usize, usize)>)
    requires
        lo <= hi <= cs@.len(),
    ensures
        forall|k: int| 0 <= k < r@.len() ==> lo <= (#[trigger] r@[k]).0 <= r@[k].1 <= hi,
        ranges_view(cs@, r@) == split_spaces(cs@.subrange(lo as int, hi as int)),
{
    let mut out: Vec<(usize, usize)> = Vec::new();
    let mut start: usize = lo;
    let mut i: usize = lo;
    assert(ranges_view(cs@, out@).push(cs@.subrange(lo as int, lo as int)) =~~= split_spaces(
        cs@.subrange(lo as int, lo as int),
    ));
    while i < hi
        invariant
            lo <= start <= i <= hi <= cs@.len(),
            forall|k: int| 0 <= k < out@.len() ==> lo <= (#[trigger] out@[k]).0 <= out@[k].1 <= i,
            ranges_view(cs@, out@).push(cs@.subrange(start as int, i as int)) == split_spaces(
                cs@.subrange(lo as int, i as int),
            ),
        decreases hi - i,
    {
        let c = cs[i];
        let ghost pre = cs@.subrange(lo as int, i as int);
        let ghost before = ranges_view(cs@, out@);
        let ghost piece = cs@.subrange(start as int, i as int);
        assert(cs@.subrange(lo as int, i + 1).drop_last() =~= pre);
        assert(cs@.subrange(lo as int, i + 1).last() == c);
        if c == ' ' {
            out.push((start, i));
            assert(ranges_view(cs@, out@) =~~= before.push(piece));
            start = i + 1;
            assert(ranges_view(cs@, out@).push(cs@.subrange(start as int, i + 1)) =~~= before.push(
                piece,
            ).push(Seq::empty()));
        } else {
            assert(cs@.subrange(start as int, i + 1) =~= piece.push(c));
            assert(ranges_view(cs@, out@).push(cs@.subrange(start as int, i + 1)) =~~= before.push(
                piece,
            ).update(before.len() as int, piece.push(c)));
        }
        i = i + 1;
    }
    let ghost before = ranges_view(cs@, out@);
    out.push((start, hi));
    assert(ranges_view(cs@, out@) =~~= before.push(cs@.subrange(start as int, hi as int)));
    out
}

/// Whether `cs[lo..hi]` is a value of kind `kind`.
fn field_valid(cs: &Vec<char>, lo: usize, hi: usize, kind: FieldKind) -> (r: bool)
    requires
        lo <= hi <= cs@.len(),
    ensures
        r == field_ok(kind, cs@.subrange(lo as int, hi as int)),
{
    match kind {
        FieldKind::Text => lo < hi,
        FieldKind::I32 => scan_i32(cs, lo, hi).is_some(),
        FieldKind::U64 => scan_u64(cs, lo, hi).is_some(),
        FieldKind::I64 => scan_i64(cs, lo, hi).is_some(),
    }
}

/// The kind of the `k`-th field after the command name.
fn kind_of_field(k: usize) -> (r: FieldKind)
    ensures
        r == field_kind(k as int),
{
    if k == 0 {
        FieldKind::Text
    } else if 1 <= k && k <= 5 || k == 17 || k == 35 || k == 36 {
        FieldKind::I32
    } else if 6 <= k && k <= 14 || k == 19 || k == 20 || 22 <= k && k <= 27 || k == 32 || k == 37
        || k == 38 {
        FieldKind::U64
    } else {
        FieldKind::I64
    }
}

/// The `k`-th piece, read as an `i32`.
fn get_i32(cs: &Vec<char>, b: &Vec<(usize, usize)>, k: usize) -> (r: i32)
    requires
        k < b@.len(),
        b@[k as int].0 <= b@[k as int].1 <= cs@.len(),
        i32_text(ranges_view(cs@, b@)[k as int]) is Some,
    ensures
        r == i32_text(ranges_view(cs@, b@)[k as int])->0,
{
    scan_i32(cs, b[k].0, b[k].1).unwrap()
}

/// The `k`-th piece, read as a `u64`.
fn get_u64(cs: &Vec<char>, b: &Vec<(usize, usize)>, k: usize) -> (r: u64)
    requires
        k < b@.len(),
        b@[k as int].0 <= b@[k as int].1 <= cs@.len(),
        u64_text(ranges_view(cs@, b@)[k as int]) is Some,
    ensures
        r == u64_text(ranges_view(cs@, b@)[k as int])->0,
{
    scan_u64(cs, b[k].0, b[k].1).unwrap()
}

/// The `k`-th piece, read as an `i64`.
fn get_i64(cs: &Vec<char>, b: &Vec<(usize, usize)>, k: usize) -> (r: i64)
    requires
        k < b@.len(),
        b@[k as int].0 <= b@[k as int].1 <= cs@.len(),
        i64_text(ranges_view(cs@, b@)[k as int]) is Some,
    ensures
        r == i64_text(ranges_view(cs@, b@)[k as int])->0,
{
    scan_i64(cs, b[k].0, b[k].1).unwrap()
}

/// The state that `cs[lo..hi]` names.
fn state_of_field(cs: &Vec<char>, lo: usize, hi: usize) -> (r: ProcState)
    requires
        lo <= hi <= cs@.len(),
    ensures
        r == state_of_code(cs@.subrange(lo as int, hi as int)),
{
    if hi - lo != 1 {
        return ProcState::UNKNOWN;
    }
    let c = cs[lo];
    assert(cs@.subrange(lo as int, hi as int)[0] == c);
    match c {
        'R' => ProcState::RUNNING,
        'S' => ProcState::SLEEPING,
        'D' => ProcState::WAITING,
        'Z' => ProcState::ZOMBIE,
        'T' => ProcState::STOPPED,
        't' => ProcState::TSTOP,
        'W' => ProcState::PAGING,
        'X' => ProcState::DEAD,
        'x' => ProcState::DEAD2,
        'K' => ProcState::WAKEKILL,
        'P' => ProcState::PARKED,
        _ => ProcState::UNKNOWN,
    }
}

proof fn lemma_first_index_of(s: Seq<char>, c: char, p: int)
    requires
        0 <= p <= s.len(),
        p < s.len() ==> s[p] == c,
        forall|j: int| 0 <= j < p ==> #[trigger] s[j] != c,
    ensures
        first_index_of(s, c) == p,
    decreases p,
{
    if p > 0 {
        let t = s.drop_first();
        assert forall|j: int| 0 <= j < p - 1 implies #[trigger] t[j] != c by {
            assert(t[j] == s[j + 1]);
        }
        lemma_first_index_of(t, c, p - 1);
    }
}

proof fn lemma_last_index_of_bound(s: Seq<char>, c: char)
    ensures
        -1 <= last_index_of(s, c) < s.len(),
    decreases s.len(),
{
    if s.len() > 0 {
        lemma_last_index_of_bound(s.drop_last(), c);
    }
}

proof fn lemma_last_index_of(s: Seq<char>, c: char, p: int)
    requires
        -1 <= p < s.len(),
        p >= 0 ==> s[p] == c,
        forall|j: int| p < j < s.len() ==> #[trigger] s[j] != c,
    ensures
        last_index_of(s, c) == p,
    decreases s.len(),
{
    if p < s.len() - 1 {
        let t = s.drop_last();
        assert(s[s.len() - 1] != c);
        assert forall|j: int| p < j < t.len() implies #[trigger] t[j] != c by {
            assert(t[j] == s[j]);
        }
        lemma_last_index_of(t, c, p);
    }
}

/// Where the command name opens and closes, when the record frames one:
/// a `(`, a later `)`, and a space after that `)`.
fn name_frame(s: &String, cs: &Vec<char>) -> (r: Option<(usize, usize)>)
    requires
        cs@ == s@,
    ensures
        r is Some <==> stat_frame_ok(s@),
        match r {
            Some((open, close)) => open == name_open(s@) && close == name_close(s@),
            None => true,
        },
{
    let n = cs.len();
    proof {
        reveal_strlit("(");
        reveal_strlit(")");
        assert(forall|c: char| "("@.contains(c) <==> c == '(') by {
            assert forall|c: char| c == '(' implies "("@.contains(c) by {
                assert("("@[0] == c);
            }
        }
        assert(forall|c: char| ")"@.contains(c) <==> c == ')') by {
            assert forall|c: char| c == ')' implies ")"@.contains(c) by {
                assert(")"@[0] == c);
            }
        }
    }
    let com_start = match strpbrk(s, "(") {
        Some(i) => i,
        None => {
            proof {
                lemma_first_index_of(s@, '(', n as int);
                lemma_last_index_of_bound(s@, ')');
            }
            return None;
        },
    };
    proof {
        lemma_first_index_of(s@, '(', com_start as int);
    }
    let ends = strpbrk_all(s, ")");
    if ends.len() == 0 {
        proof {
            lemma_last_index_of(s@, ')', -1);
        }
        return None;
    }
    let com_end = ends[ends.len() - 1];
    proof {
        assert forall|j: int| com_end < j < s@.len() implies #[trigger] s@[j] != ')' by {
            if s@[j] == ')' {
                let k = choose|k: int| 0 <= k < ends@.len() && ends@[k] == j;
                if k < ends@.len() - 1 {
                    assert(ends@[k] < ends@[ends@.len() - 1]);
                }
            }
        }
        lemma_last_index_of(s@, ')', com_end as int);
    }
    if com_start >= com_end || com_end + 1 >= n || cs[com_end + 1] != ' ' {
        return None;
    }
    Some((com_start, com_end))
}

/// Sets in `p` the values of the fields named by `b`, all of them already
/// known to be values of their kinds.
fn set_fields(p: &mut PROCT, cs: &Vec<char>, b: &Vec<(usize, usize)>)
    requires
        forall|j: int| 0 <= j < b@.len() ==> (#[trigger] b@[j]).0 <= b@[j].1 <= cs@.len(),
        fields_ok(ranges_view(cs@, b@)),
    ensures
        fields_set(*final(p), ranges_view(cs@, b@)),
        only_fields_changed(*old(p), *final(p)),
{
    let ghost fields = ranges_view(cs@, b@);
    assert(fields[0] == cs@.subrange(b@[0].0 as int, b@[0].1 as int));
    p.state = state_of_field(cs, b[0].0, b[0].1);
    p.ppid = get_i32(cs, b, 1);
    p.pgrp = get_i32(cs, b, 2);
    p.session = get_i32(cs, b, 3);
    p.tty = get_i32(cs, b, 4);
    p.tpgid = get_i32(cs, b, 5);
    p.flags = get_u64(cs, b, 6);
    p.min_flt = get_u64(cs, b, 7);
    p.cmin_flt = get_u64(cs, b, 8);
    p.maj_flt = get_u64(cs, b, 9);
    p.cmaj_flt = get_u64(cs, b, 10);
    p.utime = get_u64(cs, b, 11);
    p.stime = get_u64(cs, b, 12);
    p.cutime = get_u64(cs, b, 13);
    p.cstime = get_u64(cs, b, 14);
    p.priority = get_i64(cs, b, 15);
    p.nice = get_i64(cs, b, 16);
    p.nlwp = get_i32(cs, b, 17);
    p.alarm = get_i64(cs, b, 18);
    p.start_time = get_u64(cs, b, 19);
    p.vsize = get_u64(cs, b, 20);
    p.rss = get_i64(cs, b, 21);
    p.rss_rlim = get_u64(cs, b, 22);
    p.start_code = get_u64(cs, b, 23);
    p.end_code = get_u64(cs, b, 24);
    p.start_stack = get_u64(cs, b, 25);
    p.kstk_esp = get_u64(cs, b, 26);
    p.kstk_eip = get_u64(cs, b, 27);
    p.wchan = get_u64(cs, b, 32);
    p.exit_signal = get_i32(cs, b, 35);
    p.processor = get_i32(cs, b, 36);
    p.rtprio = get_u64(cs, b, 37);
    p.sched = get_u64(cs, b, 38);
}

/// Decodes a status record into `p`: the command name between the first
/// `(` and the last `)`, then the fields after it, by position. On an error
/// `p` is left as it was.
pub fn stat2proc(s: &String, p: &mut PROCT) -> (r: Result<(), String>)
    ensures
        decode_post(s@, *old(p), *final(p), r),
{
    let cs = chars_of(s.as_str());
    let n = cs.len();
    let (com_start, com_end) = match name_frame(s, &cs) {
        Some(f) => f,
        None => {
            return Err(String::from_str("Parse error while reading stat"));
        },
    };
    let lo = com_end + 2;
    let mut hi = n;
    if hi > lo && cs[hi - 1] == '\n' {
        hi = hi - 1;
    }
    assert(cs@.subrange(lo as int, hi as int) =~= stat_tail(s@));
    let b = field_bounds(&cs, lo, hi);
    let ghost fields = ranges_view(cs@, b@);
    assert(fields == stat_fields(s@));
    if b.len() != STAT_FIELDS {
        return Err(String::from_str("Parse error while reading stat"));
    }
    let mut k: usize = 0;
    while k < STAT_FIELDS
        invariant
            b@.len() == STAT_FIELDS,
            fields == ranges_view(cs@, b@),
            fields == stat_fields(s@),
            stat_frame_ok(s@),
            forall|j: int| 0 <= j < b@.len() ==> (#[trigger] b@[j]).0 <= b@[j].1 <= hi,
            hi <= cs@.len(),
            k <= STAT_FIELDS,
            forall|j: int| 0 <= j < k ==> field_ok(field_kind(j), #[trigger] fields[j]),
        decreases STAT_FIELDS - k,
    {
        assert(fields[k as int] == cs@.subrange(b@[k as int].0 as int, b@[k as int].1 as int));
        if !field_valid(&cs, b[k].0, b[k].1, kind_of_field(k)) {
            assert(!field_ok(field_kind(k as int), stat_fields(s@)[k as int]));
            return Err(String::from_str("Parse error while reading stat"));
        }
        k = k + 1;
    }
    let com = s.as_str().substring_char(com_start + 1, com_end).to_owned();
    set_fields(p, &cs, &b);
    p.cmd = com;
    Ok(())
}

pub open spec fn decode_error_msg() -> Seq<char> {
    "Parse error while reading stat"@
}

/// What decoding record `s` into snapshot `before` gives: the snapshot
/// `after` and the result `r`. It succeeds exactly on a well-formed record
/// and then sets the decoded values, keeping the identity; else it returns
/// the one decode error and leaves the snapshot as it was.
pub open spec fn decode_post(s: Seq<char>, before: PROCT, after: PROCT, r: Result<(), String>) -> bool {
    &&& (r is Ok <==> stat_ok(s))
    &&& r is Ok ==> record_fields_set(after, s) && identity_kept(before, after)
    &&& r is Err ==> r->Err_0@ == decode_error_msg() && after == before
}

/// The two snapshots hold the same values (text compared by its characters).
pub open spec fn same_snapshot(a: PROCT, b: PROCT) -> bool {
    &&& a.tgid == b.tgid && a.tid == b.tid && a.pathname@ == b.pathname@
    &&& a.euid == b.euid && a.egid == b.egid && a.state == b.state
    &&& a.ppid == b.ppid && a.pgrp == b.pgrp && a.session == b.session && a.tty == b.tty
    &&& a.tpgid == b.tpgid && a.flags == b.flags
    &&& a.min_flt == b.min_flt && a.cmin_flt == b.cmin_flt && a.maj_flt == b.maj_flt
    &&& a.cmaj_flt == b.cmaj_flt && a.utime == b.utime && a.stime == b.stime
    &&& a.cutime == b.cutime && a.cstime == b.cstime && a.priority == b.priority
    &&& a.nice == b.nice && a.nlwp == b.nlwp && a.alarm == b.alarm
    &&& a.start_time == b.start_time && a.vsize == b.vsize && a.rss == b.rss
    &&& a.rss_rlim == b.rss_rlim && a.start_code == b.start_code && a.end_code == b.end_code
    &&& a.start_stack == b.start_stack && a.kstk_esp == b.kstk_esp && a.kstk_eip == b.kstk_eip
    &&& a.wchan == b.wchan && a.exit_signal == b.exit_signal && a.processor == b.processor
    &&& a.rtprio == b.rtprio && a.sched == b.sched && a.cmd@ == b.cmd@
}

/// Decoding is a function of the record: two decodes of the same record
/// into equal snapshots return the same result (the same error text, when
/// they fail) and leave equal snapshots.
pub proof fn lemma_decode_deterministic(
    s: Seq<char>,
    before1: PROCT,
    after1: PROCT,
    r1: Result<(), String>,
    before2: PROCT,
    after2: PROCT,
    r2: Result<(), String>,
)
    requires
        same_snapshot(before1, before2),
        decode_post(s, before1, after1, r1),
        decode_post(s, before2, after2, r2),
    ensures
        r1 is Ok <==> r2 is Ok,
        r1 is Err ==> r1->Err_0@ == r2->Err_0@,
        same_snapshot(after1, after2),
{
}

/// Decoding again is idempotent: decoding a record a second time into the
/// snapshot that a successful decode left succeeds and changes no value.
pub proof fn lemma_decode_idempotent(
    s: Seq<char>,
    before: PROCT,
    after: PROCT,
    r: Result<(), String>,
    again: PROCT,
    r2: Result<(), String>,
)
    requires
        decode_post(s, before, after, r),
        r is Ok,
        decode_post(s, after, again, r2),
    ensures
        r2 is Ok,
        same_snapshot(after, again),
{
}

/// Absolute value of `n`.
pub fn i2u64(n: i64) -> (r: u64)
    requires
        n != i64::MIN,
    ensures
        r == if n >= 0 {
            n as int
        } else {
            -n
        },
{
    if n > 0 {
        n as u64
    } else {
        (-n) as u64
    }
}

/// Absolute value of `n`.
pub fn i2u32(n: i32) -> (r: u32)
    requires
        n != i32::MIN,
    ensures
        r == if n >= 0 {
            n as int
        } else {
            -n
        },
{
    if n > 0 {
        n as u32
    } else {
        (-n) as u32
    }
}

/// The process id that a registry entry's name writes, when it writes a
/// non-negative `i32`.
pub open spec fn entry_pid(name: Seq<char>) -> Option<i32> {
    match i32_text(name) {
        Some(n) => if n >= 0 {
            Some(n)
        } else {
            None
        },
        None => None,
    }
}

/// The snapshot that a registry entry starts: its id as process and thread
/// id, all else blank. `None` for an entry whose name is not a process id.
pub fn proc_entry(name: &String) -> (r: Option<PROCT>)
    ensures
        match entry_pid(name@) {
            Some(n) => match r {
                Some(p) => p.tgid == n && p.tid == n && is_blank(
                    PROCT { tgid: 0, tid: 0, ..p },
                ),
                None => false,
            },
            None => r is None,
        },
{
    let cs = chars_of(name.as_str());
    assert(cs@.subrange(0, cs@.len() as int) =~= name@);
    match scan_i32(&cs, 0, cs.len()) {
        Some(n) => {
            if n < 0 {
                return None;
            }
            let mut p = PROCT::default();
            p.tgid = n;
            p.tid = n;
            Some(p)
        },
        None => None,
    }
}

/// Fills a snapshot from what was read of its registry entry: the owner's
/// uid and gid, and, when `flags` asks for it, the decoded status record.
/// `None` when the record does not decode: the process is to be skipped.
pub fn fill_proc(p: &mut PROCT, flags: u64, euid: u32, egid: u32, stat: &String) -> (r: Option<()>)
    ensures
        final(p).euid == euid,
        final(p).egid == egid,
        final(p).tgid == old(p).tgid,
        final(p).tid == old(p).tid,
        flags & PROC_FILLSTAT == 0 ==> r is Some,
        flags & PROC_FILLSTAT != 0 ==> (r is Some <==> stat_ok(stat@)),
        flags & PROC_FILLSTAT != 0 && r is Some ==> record_fields_set(*final(p), stat@)
            && identity_kept((PROCT { euid: euid, egid: egid, ..*old(p) }), *final(p)),
        flags & PROC_FILLSTAT == 0 || r is None ==> *final(p) == (PROCT {
            euid: euid,
            egid: egid,
            ..*old(p)
        }),
{
    p.euid = euid;
    p.egid = egid;
    if flags & PROC_FILLSTAT != 0 {
        match stat2proc(stat, p) {
            Ok(()) => {},
            Err(_) => {
                return None;
            },
        }
    }
    Some(())
}

/// Whether some criterion of `list` lists `pid`.
pub open spec fn listed(pid: i32, list: Seq<SelectionNode>) -> bool {
    exists|i: int, j: int|
        0 <= i < list.len() && 0 <= j < node_pids(list[i]).len() && #[trigger] node_pids(
            list[i],
        )[j] == pid
}

/// The table of simple selections. It holds no attribute tests yet, so it
/// accepts every process.
pub fn table_accept() -> (r: bool)
    ensures
        r,
{
    true
}

/// Whether some criterion of the parser's selection list matches `p`: for
/// a by-PID criterion, when one of its ids is `p`'s process id.
pub fn proc_was_listed(p: &PROCT, parser: &PsParser) -> (r: bool)
    ensures
        r == listed(p.tgid, parser.selection_list@),
{
    let sn = &parser.selection_list;
    let mut i: usize = 0;
    while i < sn.len()
        invariant
            i <= sn@.len(),
            sn == parser.selection_list,
            forall|a: int, j: int|
                0 <= a < i && 0 <= j < node_pids(sn@[a]).len() ==> #[trigger] node_pids(
                    sn@[a],
                )[j] != p.tgid,
        decreases sn.len() - i,
    {
        match &sn[i] {
            SelectionNode::PID(pid_selection) => {
                let mut j: usize = 0;
                while j < pid_selection.pid.len()
                    invariant
                        j <= pid_selection.pid@.len(),
                        i < sn@.len(),
                        sn == parser.selection_list,
                        node_pids(sn@[i as int]) == pid_selection.pid@,
                        forall|m: int| 0 <= m < j ==> pid_selection.pid@[m] != p.tgid,
                    decreases pid_selection.pid.len() - j,
                {
                    if pid_selection.pid[j] == p.tgid {
                        assert(node_pids(sn@[i as int])[j as int] == p.tgid);
                        assert(listed(p.tgid, parser.selection_list@));
                        return true;
                    }
                    j = j + 1;
                }
            },
        }
        i = i + 1;
    }
    false
}

/// Whether the process of snapshot `p` is wanted: always when every process
/// is asked for, and when no list narrows the selection (the table of
/// simple selections then decides); else exactly when a criterion lists it.
pub fn want_this_proc(p: &PROCT, parser: &PsParser) -> (r: bool)
    ensures
        r == (parser.all_process || parser.selection_list@.len() == 0 || listed(
            p.tgid,
            parser.selection_list@,
        )),
{
    let mut proc_is_wanted = false;
    if parser.all_process {
        proc_is_wanted = true;
    } else if parser.selection_list.len() == 0 {
        proc_is_wanted = table_accept();
    } else if proc_was_listed(p, parser) {
        proc_is_wanted = true;
    }
    proc_is_wanted
}

} // verus!
