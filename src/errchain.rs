//! Error kinds shared across the library, and a bounded chain of
//! `file:line: message` frames that records where an error travelled.
use vstd::prelude::*;
use vstd::string::StringSliceAdditionalSpecFns;

use crate::apic;
use crate::page_table;
use crate::pe;
use crate::rangeset::RangeSetError;
use crate::stackvec::StackVecError;

verus! {

/// Most frames an [`ErrorChain`] keeps.
pub const MAX_CHAIN_LEN: usize = 8;

/// Numerical errors raised by checked arithmetic.
#[derive(Debug, Copy, Clone, PartialEq, Eq, Structural)]
pub enum NumericalError {
    /// An addition overflowed.
    AddOverflow,
    /// A subtraction underflowed.
    SubUnderflow,
    /// A multiplication overflowed.
    MulOverflow,
}

/// What a frame of an [`ErrorChain`] says.
#[derive(Debug, Copy, Clone)]
pub enum Error {
    /// An unused frame.
    Empty,
    /// The error passed through this place.
    Continue,
    /// A message given by the caller.
    Text(&'static str),
    /// A range-set error.
    RangeSet(RangeSetError),
    /// A page-table error.
    PageTable(page_table::Error),
    /// A PE parsing error.
    Pe(pe::Error),
    /// An APIC error.
    Apic(apic::Error),
    /// A fixed-capacity sequence error.
    StackVec(StackVecError),
    /// A checked-arithmetic error.
    Numerical(NumericalError),
}

/// One frame: where, and what.
#[derive(Debug, Copy, Clone)]
pub struct Message {
    /// Source file of the frame.
    pub file: &'static str,
    /// Line in that file.
    pub line: u32,
    /// What happened there.
    pub error: Error,
}

impl Message {
    /// An unused frame.
    pub fn empty() -> (r: Self)
        ensures
            r.file@.len() == 0,
            r.line == 0,
            r.error is Empty,
    {
        proof {
            reveal_strlit("");
        }
        Self { file: "", line: 0, error: Error::Empty }
    }
}

/// Number of decimal digits of `line`.
pub open spec fn digits(line: u32) -> usize {
    if line <= 9 {
        1
    } else if line <= 99 {
        2
    } else if line <= 999 {
        3
    } else if line <= 9999 {
        4
    } else if line <= 99999 {
        5
    } else {
        6
    }
}

fn line_digits(line: u32) -> (r: usize)
    requires
        line <= 999_999,
    ensures
        r == digits(line),
{
    if line <= 9 {
        1
    } else if line <= 99 {
        2
    } else if line <= 999 {
        3
    } else if line <= 9999 {
        4
    } else if line <= 99999 {
        5
    } else {
        6
    }
}

/// Width of the `file:line` prefix of a frame, saturating.
pub open spec fn prefix_width(file: &str, line: u32) -> usize {
    let n = file.spec_bytes().len() as usize;
    if n + digits(line) > usize::MAX {
        usize::MAX
    } else {
        (n + digits(line)) as usize
    }
}

fn same_text(a: &str, b: &str) -> (r: bool)
    ensures
        r == (a.spec_bytes() == b.spec_bytes()),
{
    let x = a.as_bytes();
    let y = b.as_bytes();
    if x.len() != y.len() {
        return false;
    }
    let mut i: usize = 0;
    while i < x.len()
        invariant
            x@ == a.spec_bytes(),
            y@ == b.spec_bytes(),
            x@.len() == y@.len(),
            i <= x@.len(),
            forall|k: int| 0 <= k < i ==> x@[k] == y@[k],
        decreases x@.len() - i,
    {
        if x[i] != y[i] {
            return false;
        }
        i += 1;
    }
    assert(x@ =~= y@);
    true
}

/// `after` is `before` with the frame `file:line: error` appended, or `before`
/// itself when it is full.
pub open spec fn extends(
    before: ErrorChain,
    after: ErrorChain,
    file: &'static str,
    line: u32,
    error: Error,
) -> bool {
    &&& after.wf()
    &&& if before.chain_len == MAX_CHAIN_LEN {
        after == before
    } else {
        &&& after.frames() == before.frames().push(Message { file, line, error })
        &&& after.max_padding == if before.max_padding >= prefix_width(file, line) {
            before.max_padding
        } else {
            prefix_width(file, line)
        }
    }
}

/// A bounded chain of frames, oldest first.
#[derive(Debug, Copy, Clone)]
pub struct ErrorChain {
    /// The frames; only the first `chain_len` are used.
    pub chain: [Message; 8],
    /// Number of frames used.
    pub chain_len: usize,
    /// Widest `file:line` prefix among the used frames, for aligned rendering.
    pub max_padding: usize,
}

impl ErrorChain {
    /// The used frames, oldest first.
    pub open spec fn frames(&self) -> Seq<Message> {
        self.chain@.subrange(0, self.chain_len as int)
    }

    /// The chain holds between one and `MAX_CHAIN_LEN` frames.
    pub open spec fn wf(&self) -> bool {
        1 <= self.chain_len <= MAX_CHAIN_LEN
    }

    /// A chain of the single frame `file:line: error`.
    pub fn new_with_debug(file: &'static str, line: u32, error: Error) -> (r: Self)
        requires
            line <= 999_999,
        ensures
            r.wf(),
            r.chain_len == 1,
            r.chain@[0] == (Message { file, line, error }),
            r.max_padding == prefix_width(file, line),
    {
        let mut chain = [
            Message::empty(),
            Message::empty(),
            Message::empty(),
            Message::empty(),
            Message::empty(),
            Message::empty(),
            Message::empty(),
            Message::empty(),
        ];
        chain[0] = Message { file, line, error };
        let width = file.len().saturating_add(line_digits(line));
        ErrorChain { chain, chain_len: 1, max_padding: width }
    }

    /// Spaces between the `file:line:` prefix of frame `index` and its message, so
    /// that messages line up one column after the widest prefix.
    pub fn padding(&self, index: usize) -> (r: usize)
        requires
            index < self.chain_len <= MAX_CHAIN_LEN,
            self.chain@[index as int].line <= 999_999,
        ensures
            ({
                let m = self.chain@[index as int];
                let n = m.file.spec_bytes().len() as usize;
                let a: int = if self.max_padding >= n {
                    self.max_padding - n
                } else {
                    0
                };
                let b: int = if a >= digits(m.line) {
                    a - digits(m.line)
                } else {
                    0
                };
                r == if b == usize::MAX {
                    b
                } else {
                    b + 1
                }
            }),
    {
        let m = self.chain[index];
        let width = self.max_padding.saturating_sub(m.file.len()).saturating_sub(
            line_digits(m.line),
        );
        width.saturating_add(1)
    }

    /// The newest frame.
    pub fn last(&self) -> (r: Option<Message>)
        requires
            self.chain_len <= MAX_CHAIN_LEN,
        ensures
            r == if self.chain_len == 0 {
                None
            } else {
                Some(self.chain@[self.chain_len - 1])
            },
    {
        if self.chain_len == 0 {
            return None;
        }
        Some(self.chain[self.chain_len - 1])
    }

    /// The oldest frame.
    pub fn first(&self) -> (r: Option<Message>)
        ensures
            r == if self.chain_len == 0 {
                None
            } else {
                Some(self.chain@[0])
            },
    {
        if self.chain_len == 0 {
            return None;
        }
        Some(self.chain[0])
    }

    /// Append the frame `file:line: error`, unless the chain is full.
    pub fn extend_chain(self, file: &'static str, line: u32, error: Error) -> (r: ErrorChain)
        requires
            self.wf(),
            line <= 999_999,
        ensures
            extends(self, r, file, line, error),
    {
        if self.chain_len == MAX_CHAIN_LEN {
            return self;
        }
        let mut next = self;
        next.chain[self.chain_len] = Message { file, line, error };
        next.chain_len = self.chain_len + 1;
        let width = file.len().saturating_add(line_digits(line));
        next.max_padding = if self.max_padding >= width {
            self.max_padding
        } else {
            width
        };
        assert(next.frames() =~= self.frames().push(Message { file, line, error }));
        next
    }

    /// Record that the error passed through `file:line`, unless the newest frame
    /// already names that place.
    pub fn from_error(self, file: &'static str, line: u32) -> (r: ErrorChain)
        requires
            self.wf(),
            line <= 999_999,
        ensures
            r.wf(),
            ({
                let last = self.chain@[self.chain_len - 1];
                if last.line == line && last.file.spec_bytes() == file.spec_bytes() {
                    r == self
                } else {
                    extends(self, r, file, line, Error::Continue)
                }
            }),
    {
        if let Some(last) = self.last() {
            if last.line == line && same_text(last.file, file) {
                return self;
            }
        }
        self.extend_chain(file, line, Error::Continue)
    }
}

/// The outcome of a fallible step: a value, or the chain of frames of the error.
pub enum ErrorChainResult<T> {
    /// Success.
    Success(T),
    /// Failure.
    Failure(ErrorChain),
}

impl<T> ErrorChainResult<T> {
    /// The value of a success.
    pub fn expect(self, error_str: &str) -> (r: T)
        requires
            self is Success,
        ensures
            self == ErrorChainResult::Success(r),
    {
        match self {
            ErrorChainResult::Success(t) => t,
            ErrorChainResult::Failure(_) => vstd::pervasive::unreached(),
        }
    }

    /// Add the frame `file:line: error` to a failure; a success is unchanged.
    pub fn context(self, file: &'static str, line: u32, error: Error) -> (r: Self)
        requires
            self matches ErrorChainResult::Failure(c) ==> c.wf(),
            line <= 999_999,
        ensures
            match self {
                ErrorChainResult::Success(t) => r == ErrorChainResult::Success(t),
                ErrorChainResult::Failure(c) => r matches ErrorChainResult::Failure(d) && extends(
                    c,
                    d,
                    file,
                    line,
                    error,
                ),
            },
    {
        match self {
            ErrorChainResult::Success(t) => ErrorChainResult::Success(t),
            ErrorChainResult::Failure(c) => ErrorChainResult::Failure(c.extend_chain(file, line, error)),
        }
    }
}

} // verus!
