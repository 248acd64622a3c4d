//! The state of one run of the tool: its argument parser, from which the
//! selection list is resolved once and then read.

use vstd::prelude::*;

use crate::argparser::{chosen_cols, pid_nodes, pipeline_outcome, PsParser, ThreadFlag};

verus! {

#[derive(Debug)]
pub struct Ps {
    pub parser: PsParser,
}

impl Ps {
    /// A run over the tokens of a command line (the first is the program's
    /// name).
    pub fn new(args: Vec<String>) -> (r: Ps)
        ensures
            r.parser.args == args,
            r.parser.curargix == 0,
            r.parser.thread_flags@.len() == 0,
            r.parser.selection_list@.len() == 0,
            !r.parser.all_process,
            !r.parser.simple_select,
    {
        Ps { parser: PsParser::from(args) }
    }

    /// Runs the argument pipeline and keeps the selection criteria it
    /// yields in the parser's selection list.
    pub fn parse_selection(&mut self) -> (r: Result<(), String>)
        ensures
            final(self).parser.args == old(self).parser.args,
            final(self).parser.all_process == old(self).parser.all_process,
            final(self).parser.simple_select == old(self).parser.simple_select,
            match pipeline_outcome(old(self).parser) {
                Ok(ps) => {
                    &&& r is Ok
                    &&& pid_nodes(final(self).parser.selection_list@, ps)
                    &&& final(self).parser.thread_flags@ == seq![ThreadFlag::SHOW_PROC]
                    &&& final(self).parser.screen_cols == chosen_cols(
                        old(self).parser.w_count,
                        old(self).parser.screen_cols,
                    )
                },
                Err(e) => {
                    &&& r is Err
                    &&& r->Err_0@ == e
                    &&& final(self).parser.selection_list == old(self).parser.selection_list
                    &&& final(self).parser.thread_flags == old(self).parser.thread_flags
                    &&& final(self).parser.screen_cols == old(self).parser.screen_cols
                },
            },
    {
        match self.parser.arg_parse() {
            Ok(list) => {
                self.parser.selection_list = list;
                Ok(())
            },
            Err(msg) => Err(msg),
        }
    }

    /// Checks the options for conflicts; none of those supported conflict.
    pub fn arg_check_conflicts(&mut self)
        ensures
            *final(self) == *old(self),
    {
    }

    /// Prepares the output; the plain output needs no preparation.
    pub fn init_output(&mut self)
        ensures
            *final(self) == *old(self),
    {
    }

    /// Settles the lists and data the output needs; the plain output needs
    /// none beyond the snapshot.
    pub fn lists_and_needs(&mut self)
        ensures
            *final(self) == *old(self),
    {
    }
}

} // verus!
