//! Laws of the completion check, proved over the model in
//! [`crate::model`].  The accumulator's contracts tie its behaviour to
//! that model exactly, so these laws hold of the executable code too.

use crate::bytes::{
    AMPERSAND, BACKSLASH, CLOSE_BRACKET, DOUBLE_QUOTE, HASH, LESS_THAN, NEWLINE, OPEN_BRACKET,
    PIPE, SINGLE_QUOTE,
};
use crate::model::{append_spec, check_spec, init_spec, scan_spec, Model, ScanHit};
use vstd::prelude::*;

verus! {

/// A byte that no scanning rule treats specially and that cannot form a
/// trailing logical operator: not a quote, not an escape, not `<`, not a
/// bracket, not a comment marker, not `&` or `|`.
pub open spec fn plain_byte(b: u8) -> bool {
    b != SINGLE_QUOTE && b != DOUBLE_QUOTE && b != BACKSLASH && b != LESS_THAN && b != OPEN_BRACKET
        && b != CLOSE_BRACKET && b != HASH && b != AMPERSAND && b != PIPE
}

/// Scanning a buffer that holds no quote byte, no bracket byte and no
/// adjacent pair of `<` bytes never opens a quote, never raises the
/// bracket depth and never finds a heredoc introducer.
proof fn lemma_scan_no_specials(buf: Seq<u8>, i: int)
    requires
        0 <= i <= buf.len(),
        forall|j: int|
            0 <= j < buf.len() ==> buf[j] != SINGLE_QUOTE && buf[j] != DOUBLE_QUOTE && buf[j]
                != OPEN_BRACKET && buf[j] != CLOSE_BRACKET,
        forall|j: int| 0 <= j < buf.len() - 1 ==> !(#[trigger] buf[j] == LESS_THAN && buf[j + 1] == LESS_THAN),
    ensures
        ({
            let sd = scan_spec(buf, i, false, false, 0);
            &&& !sd.squote
            &&& !sd.dquote
            &&& sd.array == 0
            &&& !(sd.hit is Heredoc)
            &&& sd.hit is End ==> sd.read == buf.len()
        }),
    decreases buf.len() - i,
{
    if 0 <= i < buf.len() {
        let b = buf[i];
        if b == BACKSLASH {
            if i + 1 < buf.len() {
                lemma_scan_no_specials(buf, i + 2);
            } else {
                lemma_scan_no_specials(buf, i + 1);
            }
        } else if b == LESS_THAN && i + 1 < buf.len() && buf[i + 1] == LESS_THAN {
            assert(false);
        } else if b == HASH && (i <= 1 || buf[i - 1] == crate::bytes::SPACE || buf[i - 1]
            == NEWLINE) {
        } else {
            lemma_scan_no_specials(buf, i + 1);
        }
    }
}

/// A run of plain bytes changes nothing: the scan steps straight across it.
proof fn lemma_scan_plain_run(buf: Seq<u8>, i: int, k: int, sq: bool, dq: bool, arr: int)
    requires
        0 <= i <= k <= buf.len(),
        forall|j: int| i <= j < k ==> plain_byte(buf[j]),
    ensures
        scan_spec(buf, i, sq, dq, arr) == scan_spec(buf, k, sq, dq, arr),
    decreases k - i,
{
    if i < k {
        lemma_scan_plain_run(buf, i + 1, k, sq, dq, arr);
    }
}

/// A scanning pass keeps the two quote flags mutually exclusive:
/// entering one quote is suppressed while the other is active.
proof fn lemma_scan_quotes_exclusive(buf: Seq<u8>, i: int, sq: bool, dq: bool, arr: int)
    requires
        !(sq && dq),
    ensures
        ({
            let sd = scan_spec(buf, i, sq, dq, arr);
            !(sd.squote && sd.dquote)
        }),
    decreases buf.len() - i,
{
    if 0 <= i < buf.len() {
        let b = buf[i];
        if b == BACKSLASH {
            if i + 1 < buf.len() {
                lemma_scan_quotes_exclusive(buf, i + 2, sq, dq, arr);
            } else {
                lemma_scan_quotes_exclusive(buf, i + 1, sq, dq, arr);
            }
        } else if b == SINGLE_QUOTE && !dq {
            lemma_scan_quotes_exclusive(buf, i + 1, !sq, dq, arr);
        } else if b == DOUBLE_QUOTE && !sq {
            lemma_scan_quotes_exclusive(buf, i + 1, sq, !dq, arr);
        } else if b == LESS_THAN && !sq && !dq && i + 1 < buf.len() && buf[i + 1] == LESS_THAN {
            if i + 2 < buf.len() && buf[i + 2] == LESS_THAN {
                lemma_scan_quotes_exclusive(buf, i + 2, sq, dq, arr);
            }
        } else if b == OPEN_BRACKET && !sq && !dq {
            lemma_scan_quotes_exclusive(buf, i + 1, sq, dq, arr + 1);
        } else if b == CLOSE_BRACKET && !sq && !dq {
            lemma_scan_quotes_exclusive(
                buf,
                i + 1,
                sq,
                dq,
                if arr > 0 {
                    arr - 1
                } else {
                    0
                },
            );
        } else if b == HASH && !sq && !dq && (i <= 1 || buf[i - 1] == crate::bytes::SPACE || buf[i
            - 1] == NEWLINE) {
        } else {
            lemma_scan_quotes_exclusive(buf, i + 1, sq, dq, arr);
        }
    }
}

/// No reachable accumulator state has both quote flags set: the fresh
/// state has neither, and neither appending a line nor a completion
/// check can set the second while the first is active.
pub proof fn lemma_quotes_mutually_exclusive(m: Model, input: Seq<u8>)
    requires
        !(m.squote && m.dquote),
    ensures
        !(append_spec(m, input).squote && append_spec(m, input).dquote),
        !(check_spec(m).0.squote && check_spec(m).0.dquote),
{
    if m.heredoc is None {
        lemma_scan_quotes_exclusive(m.buffer, m.read, m.squote, m.dquote, m.array);
    }
}

/// A scanning pass never moves the cursor backwards.
proof fn lemma_scan_moves_forward(buf: Seq<u8>, i: int, sq: bool, dq: bool, arr: int)
    ensures
        scan_spec(buf, i, sq, dq, arr).read >= i,
    decreases buf.len() - i,
{
    if 0 <= i < buf.len() {
        let b = buf[i];
        if b == BACKSLASH {
            if i + 1 < buf.len() {
                lemma_scan_moves_forward(buf, i + 2, sq, dq, arr);
            } else {
                lemma_scan_moves_forward(buf, i + 1, sq, dq, arr);
            }
        } else if b == SINGLE_QUOTE && !dq {
            lemma_scan_moves_forward(buf, i + 1, !sq, dq, arr);
        } else if b == DOUBLE_QUOTE && !sq {
            lemma_scan_moves_forward(buf, i + 1, sq, !dq, arr);
        } else if b == LESS_THAN && !sq && !dq && i + 1 < buf.len() && buf[i + 1] == LESS_THAN {
            if i + 2 < buf.len() && buf[i + 2] == LESS_THAN {
                lemma_scan_moves_forward(buf, i + 2, sq, dq, arr);
            }
        } else if b == OPEN_BRACKET && !sq && !dq {
            lemma_scan_moves_forward(buf, i + 1, sq, dq, arr + 1);
        } else if b == CLOSE_BRACKET && !sq && !dq {
            lemma_scan_moves_forward(
                buf,
                i + 1,
                sq,
                dq,
                if arr > 0 {
                    arr - 1
                } else {
                    0
                },
            );
        } else if b == HASH && !sq && !dq && (i <= 1 || buf[i - 1] == crate::bytes::SPACE || buf[i
            - 1] == NEWLINE) {
        } else {
            lemma_scan_moves_forward(buf, i + 1, sq, dq, arr);
        }
    }
}

/// The scan cursor is monotonically non-decreasing across operations,
/// except for the single-byte backtrack when a trailing escape byte is
/// popped; appending a line never moves it at all.
pub proof fn lemma_cursor_never_retreats(m: Model, input: Seq<u8>)
    ensures
        append_spec(m, input).read == m.read,
        check_spec(m).0.read >= m.read - 1,
{
    if m.heredoc is None {
        lemma_scan_moves_forward(m.buffer, m.read, m.squote, m.dquote, m.array);
    }
}

/// One line that holds no quote byte, no bracket byte, no adjacent pair
/// of `<` bytes, no trailing escape byte and no trailing `&&` or `||` is
/// a complete statement after the very first completion check.
pub proof fn lemma_plain_line_is_complete(line: Seq<u8>)
    requires
        forall|j: int|
            0 <= j < line.len() ==> line[j] != SINGLE_QUOTE && line[j] != DOUBLE_QUOTE && line[j]
                != OPEN_BRACKET && line[j] != CLOSE_BRACKET,
        forall|j: int|
            0 <= j < line.len() - 1 ==> !(#[trigger] line[j] == LESS_THAN && line[j + 1]
                == LESS_THAN),
        line.len() > 0 ==> line[line.len() - 1] != BACKSLASH,
        !(line.len() >= 2 && ((line[line.len() - 2] == AMPERSAND && line[line.len() - 1]
            == AMPERSAND) || (line[line.len() - 2] == PIPE && line[line.len() - 1] == PIPE))),
    ensures
        check_spec(init_spec(line)).1,
{
    lemma_scan_no_specials(line, 0);
}

/// A line with one single quote in otherwise plain text is incomplete:
/// the quote stays open.  A second line that closes the quote, again in
/// otherwise plain text, completes the statement, and the consumed text
/// is both lines joined by the newline the scanner inserted.
pub proof fn lemma_single_quote_spans_two_lines(p: Seq<u8>, s: Seq<u8>, q: Seq<u8>, t: Seq<u8>)
    requires
        forall|j: int| 0 <= j < p.len() ==> plain_byte(p[j]),
        forall|j: int| 0 <= j < s.len() ==> plain_byte(s[j]),
        forall|j: int| 0 <= j < q.len() ==> plain_byte(q[j]),
        forall|j: int| 0 <= j < t.len() ==> plain_byte(t[j]),
    ensures
        ({
            let line1 = p + seq![SINGLE_QUOTE] + s;
            let line2 = q + seq![SINGLE_QUOTE] + t;
            let first = check_spec(init_spec(line1));
            let second = check_spec(append_spec(first.0, line2));
            &&& !first.1
            &&& second.1
            &&& second.0.buffer == line1 + seq![NEWLINE] + line2
            &&& second.0.done
        }),
{
    let line1 = p + seq![SINGLE_QUOTE] + s;
    let line2 = q + seq![SINGLE_QUOTE] + t;
    let n1 = line1.len() as int;

    // First check: the scan crosses p, toggles the quote on, crosses s.
    lemma_scan_plain_run(line1, 0, p.len() as int, false, false, 0);
    assert(line1[p.len() as int] == SINGLE_QUOTE);
    lemma_scan_plain_run(line1, p.len() as int + 1, n1, true, false, 0);
    let sd1 = scan_spec(line1, 0, false, false, 0);
    assert(sd1 == scan_spec(line1, n1, true, false, 0));
    assert(sd1.hit is End && sd1.read == n1 && sd1.squote && !sd1.dquote && sd1.array == 0);
    assert(line1.last() != BACKSLASH);
    let first = check_spec(init_spec(line1));
    assert(!first.1);
    assert(first.0.buffer =~= line1 + seq![NEWLINE]);
    assert(first.0.read == n1 + 1);
    assert(first.0.squote && !first.0.dquote && first.0.array == 0 && !first.0.trim);
    assert(first.0.heredoc is None);

    // Appending the second line concatenates it verbatim.
    let m2 = append_spec(first.0, line2);
    assert(m2.buffer =~= line1 + seq![NEWLINE] + line2);

    // Second check: the scan crosses q, toggles the quote off, crosses t.
    let n2 = m2.buffer.len() as int;
    let base = n1 + 1;
    assert(forall|j: int| base <= j < n2 ==> m2.buffer[j] == line2[j - base]);
    lemma_scan_plain_run(m2.buffer, base, base + q.len() as int, true, false, 0);
    assert(m2.buffer[base + q.len() as int] == SINGLE_QUOTE);
    lemma_scan_plain_run(m2.buffer, base + q.len() as int + 1, n2, false, false, 0);
    let sd2 = scan_spec(m2.buffer, m2.read, m2.squote, m2.dquote, m2.array);
    assert(sd2 == scan_spec(m2.buffer, n2, false, false, 0));
    assert(sd2.hit is End && sd2.read == n2 && !sd2.squote && !sd2.dquote && sd2.array == 0);

    // The last byte is the closing quote or a plain byte, so it is not
    // an escape byte and cannot end a trailing `&&` or `||`.
    assert(m2.buffer.last() != BACKSLASH);
    assert(m2.buffer[n2 - 1] != AMPERSAND && m2.buffer[n2 - 1] != PIPE);
    let second = check_spec(m2);
    assert(second.1);
    assert(second.0.buffer == m2.buffer);
}

} // verus!
