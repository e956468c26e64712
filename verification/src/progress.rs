//! The progress parser: consumes the transcoder's line-oriented progress
//! stream one line at a time and groups the lines into blocks. A block is
//! complete when it has accumulated a fixed number of lines or when the
//! end sentinel appears in it; the completed block is handed back as one
//! unit and the buffer starts over.

use vstd::prelude::*;
use vstd::string::*;

use crate::text::contains_seq;

verus! {

/// How many progress lines the transcoder emits per block.
pub const BLOCK_LINES: u32 = 12;

/// The sentinel the transcoder writes into the final progress block.
pub open spec fn end_sentinel() -> Seq<char> {
    "progress=end"@
}

/// Whether an accumulated block is complete: it has reached the block size
/// or the end sentinel appears in it.
pub open spec fn block_complete(buf: Seq<char>, lines: int) -> bool {
    lines >= BLOCK_LINES || contains_seq(buf, end_sentinel())
}

/// Accumulates progress lines until a block is complete.
pub struct ProgressParser {
    buf: String,
    lines_in_block: u32,
}

impl ProgressParser {
    /// The text accumulated so far for the current block.
    pub closed spec fn buffered(self) -> Seq<char> {
        self.buf@
    }

    /// How many lines the current block holds so far.
    pub closed spec fn line_count(self) -> int {
        self.lines_in_block as int
    }

    /// Between calls the current block is always incomplete: a complete one
    /// is handed out at once.
    pub open spec fn wf(self) -> bool {
        !block_complete(self.buffered(), self.line_count()) && self.line_count() >= 0
    }

    /// A fresh parser with an empty block.
    pub fn new() -> (p: ProgressParser)
        ensures
            p.wf(),
            p.buffered() == Seq::<char>::empty(),
            p.line_count() == 0,
    {
        let p = ProgressParser { buf: String::new(), lines_in_block: 0 };
        proof {
            reveal_strlit("progress=end");
            assert(forall|i: int| !crate::text::occurs_at(p.buf@, end_sentinel(), i));
        }
        p
    }

    /// Feeds one line (terminator included) to the parser. Returns the
    /// finished block when this line completes one, in which case the
    /// buffer starts over; otherwise the line is appended and held.
    pub fn push_line(&mut self, line: &str) -> (r: Option<String>)
        requires
            old(self).wf(),
        ensures
            final(self).wf(),
            ({
                let grown = old(self).buffered() + line@;
                let count = old(self).line_count() + 1;
                match r {
                    Some(block) => {
                        &&& block_complete(grown, count)
                        &&& block@ == grown
                        &&& final(self).buffered() == Seq::<char>::empty()
                        &&& final(self).line_count() == 0
                    },
                    None => {
                        &&& !block_complete(grown, count)
                        &&& final(self).buffered() == grown
                        &&& final(self).line_count() == count
                    },
                }
            }),
    {
        self.buf.append(line);
        self.lines_in_block = self.lines_in_block + 1;
        if self.lines_in_block >= BLOCK_LINES || crate::text::contains_sub(
            self.buf.as_str(),
            "progress=end",
        ) {
            let block = self.buf.clone();
            self.buf = String::new();
            self.lines_in_block = 0;
            proof {
                reveal_strlit("progress=end");
                assert(forall|i: int| !crate::text::occurs_at(self.buf@, end_sentinel(), i));
            }
            Some(block)
        } else {
            None
        }
    }
}

/// Whether a finished block carries the end sentinel, which tells the task
/// runner to await the process's exit status before going on.
pub fn block_signals_end(block: &str) -> (r: bool)
    ensures
        r == contains_seq(block@, end_sentinel()),
{
    crate::text::contains_sub(block, "progress=end")
}

} // verus!
