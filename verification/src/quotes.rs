//! The statement accumulator.
//!
//! One [`QuoteTerminator`] is created per candidate statement with the
//! first input line.  The caller then alternates [`append`] and
//! [`check_termination`] until the check reports the statement complete,
//! and finally takes the text with [`consume`].  Every operation is
//! specified exactly by the functions in [`crate::model`].
//!
//! [`append`]: QuoteTerminator::append
//! [`check_termination`]: QuoteTerminator::check_termination
//! [`consume`]: QuoteTerminator::consume

use crate::bytes::{
    bytes_eq, count_opens, lemma_count_opens_bounds, lemma_count_opens_step, push_all, trim_bytes,
    AMPERSAND, BACKSLASH, CLOSE_BRACKET, DOUBLE_QUOTE, HASH, LESS_THAN, NEWLINE, OPEN_BRACKET,
    PIPE, SINGLE_QUOTE, SPACE,
};
use crate::model::{append_spec, check_spec, init_spec, scan_spec, Model, ScanEnd, ScanHit};
use vstd::prelude::*;
use vstd::slice::slice_subrange;

verus! {

/// Accumulates the lines of one shell statement and decides, after each
/// line, whether the statement is syntactically closed or still needs
/// input for an open quote, array literal, heredoc, trailing escape or
/// trailing logical operator.
pub struct QuoteTerminator {
    /// The statement text collected so far.
    buffer: Vec<u8>,
    /// The heredoc terminator marker, while a heredoc body is being read.
    heredoc: Option<Vec<u8>>,
    /// The heredoc body line being collected.
    body: Vec<u8>,
    /// Depth of open `[` literals outside any quote.
    array: usize,
    /// The scan cursor: bytes of `buffer` before it are never re-examined.
    read: usize,
    /// An unclosed single quote is open.
    squote: bool,
    /// An unclosed double quote is open.
    dquote: bool,
    /// The next appended line must be trimmed (a trailing escape byte
    /// was popped); consumed by the next append.
    trim_next: bool,
    /// Whether a completion check has reported the statement complete.
    done: Ghost<bool>,
}

impl View for QuoteTerminator {
    type V = Model;

    closed spec fn view(&self) -> Model {
        Model {
            buffer: self.buffer@,
            read: self.read as int,
            squote: self.squote,
            dquote: self.dquote,
            trim: self.trim_next,
            array: self.array as int,
            heredoc: match self.heredoc {
                Some(marker) => Some(marker@),
                None => None,
            },
            body: self.body@,
            done: self.done@,
        }
    }
}

impl QuoteTerminator {
    /// Well-formedness: the cursor stays within the buffer and the
    /// bracket depth never exceeds the `[` bytes already scanned.
    pub closed spec fn wf(&self) -> bool {
        &&& self.read as int <= self.buffer@.len()
        &&& self.array as int <= count_opens(self.buffer@.take(self.read as int))
    }

    /// Starts accumulating a statement from its first line.
    pub fn new(input: Vec<u8>) -> (r: QuoteTerminator)
        ensures
            r.wf(),
            r@ == init_spec(input@),
    {
        let r = QuoteTerminator {
            buffer: input,
            heredoc: None,
            body: Vec::new(),
            array: 0,
            read: 0,
            squote: false,
            dquote: false,
            trim_next: false,
            done: Ghost(false),
        };
        proof {
            assert(r.buffer@.take(0) =~= Seq::<u8>::empty());
            assert(r@ =~~= init_spec(r.buffer@));
        }
        r
    }

    /// Adds one more input line; only allowed while no completion check
    /// has reported the statement complete.
    pub fn append(&mut self, input: Vec<u8>)
        requires
            old(self).wf(),
            !old(self)@.done,
        ensures
            final(self).wf(),
            final(self)@ == append_spec(old(self)@, input@),
    {
        if self.heredoc.is_some() {
            push_all(&mut self.body, input.as_slice());
        } else if self.trim_next {
            self.trim_next = false;
            let trimmed = trim_bytes(input.as_slice());
            push_all(&mut self.buffer, trimmed.as_slice());
        } else {
            push_all(&mut self.buffer, input.as_slice());
        }
        proof {
            assert(self.buffer@.take(self.read as int) =~= old(self).buffer@.take(
                old(self).read as int,
            ));
            assert(self@ =~~= append_spec(old(self)@, input@));
        }
    }

    /// One completion check; returns whether the statement is complete
    /// and ready to be consumed.
    pub fn check_termination(&mut self) -> (r: bool)
        requires
            old(self).wf(),
        ensures
            final(self).wf(),
            final(self)@ == check_spec(old(self)@).0,
            r == check_spec(old(self)@).1,
    {
        let ghost m0 = self@;
        if self.heredoc.is_some() {
            let marker = self.heredoc.take().unwrap();
            let trimmed = trim_bytes(self.body.as_slice());
            let matched = bytes_eq(trimmed.as_slice(), marker.as_slice());
            self.buffer.append(&mut self.body);
            self.buffer.push(NEWLINE);
            if !matched {
                self.heredoc = Some(marker);
            }
            let ghost newdone = m0.done || matched;
            self.done = Ghost(newdone);
            proof {
                assert(self.buffer@.take(self.read as int) =~= old(self).buffer@.take(
                    old(self).read as int,
                ));
                assert(self.buffer@ =~= m0.buffer + m0.body + seq![NEWLINE]);
                assert(self@ =~~= check_spec(m0).0);
            }
            return matched;
        }
        let ghost sd = scan_spec(m0.buffer, m0.read, m0.squote, m0.dquote, m0.array);
        let n = self.buffer.len();
        let mut comment = false;
        let mut introducer = false;
        while self.read < n && !comment && !introducer
            invariant
                n == self.buffer@.len(),
                self.buffer@ == m0.buffer,
                self.body@ == m0.body,
                self.trim_next == m0.trim,
                self.done@ == m0.done,
                self.read <= n,
                self.array as int <= count_opens(self.buffer@.take(self.read as int)),
                !(comment && introducer),
                !comment && !introducer ==> self.heredoc is None && sd == scan_spec(
                    self.buffer@,
                    self.read as int,
                    self.squote,
                    self.dquote,
                    self.array as int,
                ),
                comment ==> self.heredoc is None && sd == (ScanEnd {
                    read: self.read as int,
                    squote: self.squote,
                    dquote: self.dquote,
                    array: self.array as int,
                    hit: ScanHit::Comment,
                }),
                introducer ==> sd == (ScanEnd {
                    read: self.read as int,
                    squote: self.squote,
                    dquote: self.dquote,
                    array: self.array as int,
                    hit: ScanHit::Heredoc,
                }) && (match self.heredoc {
                    Some(marker) => marker@ == crate::bytes::trim_spec(
                        m0.buffer.subrange(self.read as int, n as int),
                    ),
                    None => false,
                }),
            decreases n - self.read + (if comment || introducer {
                0int
            } else {
                1int
            }),
        {
            let b = self.buffer[self.read];
            proof {
                lemma_count_opens_step(self.buffer@, self.read as int);
                lemma_count_opens_bounds(self.buffer@.take(self.read as int));
            }
            if b == BACKSLASH {
                if self.read + 1 < n {
                    proof {
                        lemma_count_opens_step(self.buffer@, self.read + 1);
                    }
                    self.read = self.read + 2;
                } else {
                    self.read = self.read + 1;
                }
            } else if b == SINGLE_QUOTE && !self.dquote {
                self.squote = !self.squote;
                self.read = self.read + 1;
            } else if b == DOUBLE_QUOTE && !self.squote {
                self.dquote = !self.dquote;
                self.read = self.read + 1;
            } else if b == LESS_THAN && !self.squote && !self.dquote && self.read + 1 < n
                && self.buffer[self.read + 1] == LESS_THAN {
                if self.read + 2 < n && self.buffer[self.read + 2] == LESS_THAN {
                    proof {
                        lemma_count_opens_step(self.buffer@, self.read + 1);
                    }
                    self.read = self.read + 2;
                } else {
                    self.read = self.read + 2;
                    let rest = slice_subrange(self.buffer.as_slice(), self.read, n);
                    let marker = trim_bytes(rest);
                    self.heredoc = Some(marker);
                    introducer = true;
                    proof {
                        lemma_count_opens_step(self.buffer@, self.read - 1);
                    }
                }
            } else if b == OPEN_BRACKET && !self.squote && !self.dquote {
                self.array = self.array + 1;
                self.read = self.read + 1;
            } else if b == CLOSE_BRACKET && !self.squote && !self.dquote {
                if self.array > 0 {
                    self.array = self.array - 1;
                }
                self.read = self.read + 1;
            } else if b == HASH && !self.squote && !self.dquote {
                let at_start = self.read <= 1;
                let after_break = if at_start {
                    true
                } else {
                    let prev = self.buffer[self.read - 1];
                    prev == SPACE || prev == NEWLINE
                };
                if after_break {
                    comment = true;
                } else {
                    self.read = self.read + 1;
                }
            } else {
                self.read = self.read + 1;
            }
        }
        if introducer {
            self.buffer.push(NEWLINE);
            proof {
                assert(self.buffer@.take(self.read as int) =~= m0.buffer.take(self.read as int));
                assert(self@ =~~= check_spec(m0).0);
            }
            return false;
        }
        if comment {
            self.buffer.truncate(self.read);
            let r = self.array == 0;
            let ghost newdone = m0.done || r;
            self.done = Ghost(newdone);
            proof {
                assert(self.buffer@ =~= m0.buffer.take(sd.read));
                assert(self.buffer@.take(self.read as int) =~= m0.buffer.take(self.read as int));
                assert(self@ =~~= check_spec(m0).0);
            }
            return r;
        }
        let len = self.buffer.len();
        if len > 0 && self.buffer[len - 1] == BACKSLASH {
            self.buffer.pop();
            self.read = len - 1;
            self.trim_next = true;
            proof {
                assert(self.buffer@ =~= m0.buffer.drop_last());
                lemma_count_opens_step(m0.buffer, len - 1);
                assert(m0.buffer.take(len as int) =~= m0.buffer);
                assert(self.buffer@.take(self.read as int) =~= m0.buffer.take(len - 1));
                assert(self@ =~~= check_spec(m0).0);
            }
            return false;
        }
        if self.squote || self.dquote || self.array > 0 {
            let joiner = if self.array > 0 {
                SPACE
            } else {
                NEWLINE
            };
            self.buffer.push(joiner);
            self.read = self.buffer.len();
            proof {
                lemma_count_opens_step(self.buffer@, len as int);
                assert(self.buffer@.take(len as int) =~= m0.buffer.take(len as int));
                assert(m0.buffer.take(len as int) =~= m0.buffer);
                assert(self.buffer@.take(self.read as int) =~= self.buffer@);
                assert(self.buffer@ =~= m0.buffer + seq![joiner]);
                assert(self@ =~~= check_spec(m0).0);
            }
            return false;
        }
        if len >= 2 {
            let x = self.buffer[len - 2];
            let y = self.buffer[len - 1];
            if (x == AMPERSAND && y == AMPERSAND) || (x == PIPE && y == PIPE) {
                proof {
                    assert(self@ =~~= check_spec(m0).0);
                }
                return false;
            }
        }
        self.done = Ghost(true);
        proof {
            assert(self@ =~~= check_spec(m0).0);
        }
        true
    }

    /// Takes ownership of the finished statement text; only allowed
    /// after a completion check has reported the statement complete, and
    /// the accumulator cannot be used again afterwards.
    pub fn consume(self) -> (r: Vec<u8>)
        requires
            self@.done,
        ensures
            r@ == self@.buffer,
    {
        self.buffer
    }
}

} // verus!
