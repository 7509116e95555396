//! The mathematical model of the statement accumulator.
//!
//! [`Model`] is the abstract state; [`scan_spec`] is one scanning pass
//! over the not-yet-examined bytes; [`check_spec`] is the full effect of
//! one completion check, and [`append_spec`] that of appending a line.
//! The executable accumulator promises in its contracts to follow these
//! functions exactly.

use crate::bytes::{
    trim_spec, AMPERSAND, BACKSLASH, CLOSE_BRACKET, DOUBLE_QUOTE, HASH, LESS_THAN, NEWLINE,
    OPEN_BRACKET, PIPE, SINGLE_QUOTE, SPACE,
};
use vstd::prelude::*;

verus! {

/// Abstract state of a statement accumulator.
///
/// `buffer` is the statement text collected so far, `read` the scan
/// cursor: bytes before it have been examined and are never re-scanned.
/// `squote`, `dquote` and `array` track an open single quote, an open
/// double quote, and the depth of open `[` literals.  `trim` records
/// that the next appended line must be trimmed (after a popped escape
/// byte).  While `heredoc` holds a terminator marker, appended text goes
/// to `body` instead of `buffer`.  `done` records whether a completion
/// check has reported the statement complete.
#[verifier::ext_equal]
pub ghost struct Model {
    pub buffer: Seq<u8>,
    pub read: int,
    pub squote: bool,
    pub dquote: bool,
    pub trim: bool,
    pub array: int,
    pub heredoc: Option<Seq<u8>>,
    pub body: Seq<u8>,
    pub done: bool,
}

/// What stopped a scanning pass.
pub ghost enum ScanHit {
    /// The pass ran to the end of the buffer.
    End,
    /// A comment marker was found at the cursor position.
    Comment,
    /// A heredoc introducer was found; the cursor rests on the marker text.
    Heredoc,
}

/// Outcome of a scanning pass: where the cursor stopped, the quote and
/// bracket state there, and what the pass stopped on.
#[verifier::ext_equal]
pub ghost struct ScanEnd {
    pub read: int,
    pub squote: bool,
    pub dquote: bool,
    pub array: int,
    pub hit: ScanHit,
}

/// Scans `buf` from position `i` with quote flags `sq`, `dq` and bracket
/// depth `arr`, applying one rule per byte:
///
/// - an escape byte skips the byte after it;
/// - a quote byte toggles its flag unless the other quote is open;
/// - `<<` outside quotes, not followed by a third `<`, stops the pass:
///   the rest of the buffer is a heredoc terminator marker (`<<<` is a
///   different redirection form and is left as ordinary text);
/// - `[` and `]` outside quotes raise and lower the bracket depth, which
///   is clamped at zero on a stray `]`;
/// - `#` outside quotes at position 0 or 1, or right after a space or a
///   newline, stops the pass as a comment marker.
pub open spec fn scan_spec(buf: Seq<u8>, i: int, sq: bool, dq: bool, arr: int) -> ScanEnd
    decreases buf.len() - i,
{
    if !(0 <= i < buf.len()) {
        ScanEnd { read: i, squote: sq, dquote: dq, array: arr, hit: ScanHit::End }
    } else {
        let b = buf[i];
        if b == BACKSLASH {
            if i + 1 < buf.len() {
                scan_spec(buf, i + 2, sq, dq, arr)
            } else {
                scan_spec(buf, i + 1, sq, dq, arr)
            }
        } else if b == SINGLE_QUOTE && !dq {
            scan_spec(buf, i + 1, !sq, dq, arr)
        } else if b == DOUBLE_QUOTE && !sq {
            scan_spec(buf, i + 1, sq, !dq, arr)
        } else if b == LESS_THAN && !sq && !dq && i + 1 < buf.len() && buf[i + 1] == LESS_THAN {
            if i + 2 < buf.len() && buf[i + 2] == LESS_THAN {
                scan_spec(buf, i + 2, sq, dq, arr)
            } else {
                ScanEnd { read: i + 2, squote: sq, dquote: dq, array: arr, hit: ScanHit::Heredoc }
            }
        } else if b == OPEN_BRACKET && !sq && !dq {
            scan_spec(buf, i + 1, sq, dq, arr + 1)
        } else if b == CLOSE_BRACKET && !sq && !dq {
            scan_spec(
                buf,
                i + 1,
                sq,
                dq,
                if arr > 0 {
                    arr - 1
                } else {
                    0
                },
            )
        } else if b == HASH && !sq && !dq && (i <= 1 || buf[i - 1] == SPACE || buf[i - 1]
            == NEWLINE) {
            ScanEnd { read: i, squote: sq, dquote: dq, array: arr, hit: ScanHit::Comment }
        } else {
            scan_spec(buf, i + 1, sq, dq, arr)
        }
    }
}

/// A fresh accumulator: the first line, cursor at zero, no flags set,
/// no heredoc pending, nothing reported complete.
pub open spec fn init_spec(first: Seq<u8>) -> Model {
    Model {
        buffer: first,
        read: 0,
        squote: false,
        dquote: false,
        trim: false,
        array: 0,
        heredoc: None,
        body: Seq::empty(),
        done: false,
    }
}

/// Appending a line: while a heredoc is pending the text goes verbatim
/// to the body buffer; otherwise it goes to the statement buffer,
/// trimmed first when the one-shot trim modifier is set.
pub open spec fn append_spec(m: Model, input: Seq<u8>) -> Model {
    if m.heredoc is Some {
        Model { body: m.body + input, ..m }
    } else if m.trim {
        Model { buffer: m.buffer + trim_spec(input), trim: false, ..m }
    } else {
        Model { buffer: m.buffer + input, ..m }
    }
}

/// A completion check in heredoc-body mode: the body so far is one
/// heredoc line.  It is appended to the buffer with a newline — the
/// terminator line included — and the body is cleared.  The statement is
/// complete exactly when the trimmed line equals the stored marker,
/// whatever the outer quote or bracket state.
pub open spec fn heredoc_check_spec(m: Model) -> (Model, bool) {
    let matched = trim_spec(m.body) == m.heredoc->0;
    (
        Model {
            buffer: m.buffer + m.body + seq![NEWLINE],
            body: Seq::empty(),
            heredoc: if matched {
                None
            } else {
                m.heredoc
            },
            done: m.done || matched,
            ..m
        },
        matched,
    )
}

/// A completion check in normal scan mode: scan the unexamined bytes,
/// then decide, in priority order:
///
/// 1. heredoc introducer found: remember the trimmed marker, append a
///    newline, report incomplete;
/// 2. comment marker found: truncate the buffer to just before it and
///    report complete unless an array literal is still open;
/// 3. an open quote or array literal: pop a trailing escape byte and set
///    the trim modifier, or append a joiner byte — a space inside an
///    array literal, a newline otherwise; incomplete either way;
/// 4. nothing open: a trailing escape byte is popped as above and the
///    statement is incomplete, as it is after a trailing `&&` or `||`;
///    otherwise it is complete.
pub open spec fn scan_check_spec(m: Model) -> (Model, bool) {
    let sd = scan_spec(m.buffer, m.read, m.squote, m.dquote, m.array);
    if sd.hit is Heredoc {
        (
            Model {
                buffer: m.buffer + seq![NEWLINE],
                read: sd.read,
                squote: sd.squote,
                dquote: sd.dquote,
                array: sd.array,
                heredoc: Some(trim_spec(m.buffer.subrange(sd.read, m.buffer.len() as int))),
                ..m
            },
            false,
        )
    } else if sd.hit is Comment {
        (
            Model {
                buffer: m.buffer.take(sd.read),
                read: sd.read,
                squote: sd.squote,
                dquote: sd.dquote,
                array: sd.array,
                done: m.done || sd.array == 0,
                ..m
            },
            sd.array == 0,
        )
    } else if m.buffer.len() > 0 && m.buffer.last() == BACKSLASH {
        (
            Model {
                buffer: m.buffer.drop_last(),
                read: sd.read - 1,
                squote: sd.squote,
                dquote: sd.dquote,
                array: sd.array,
                trim: true,
                ..m
            },
            false,
        )
    } else if sd.squote || sd.dquote || sd.array > 0 {
        (
            Model {
                buffer: m.buffer + seq![
                    if sd.array > 0 {
                        SPACE
                    } else {
                        NEWLINE
                    },
                ],
                read: sd.read + 1,
                squote: sd.squote,
                dquote: sd.dquote,
                array: sd.array,
                ..m
            },
            false,
        )
    } else {
        let cont = m.buffer.len() >= 2 && ((m.buffer[m.buffer.len() - 2] == AMPERSAND
            && m.buffer[m.buffer.len() - 1] == AMPERSAND) || (m.buffer[m.buffer.len() - 2] == PIPE
            && m.buffer[m.buffer.len() - 1] == PIPE));
        (
            Model {
                read: sd.read,
                squote: sd.squote,
                dquote: sd.dquote,
                array: sd.array,
                done: m.done || !cont,
                ..m
            },
            !cont,
        )
    }
}

/// The full effect of one completion check.
pub open spec fn check_spec(m: Model) -> (Model, bool) {
    if m.heredoc is Some {
        heredoc_check_spec(m)
    } else {
        scan_check_spec(m)
    }
}

} // verus!
