//! Text sanitization for every string that crosses from the guest to the
//! real notification service.
//!
//! Which code points are fit for display is not decided here: the caller
//! brings a classifier. Everything else is: tabs and line breaks are kept,
//! carriage returns become line breaks, anything the classifier rejects is
//! replaced by U+FFFD, long lines are hard-wrapped and the text is cut after
//! a fixed number of lines. Some notification daemons spin on very long
//! texts, so the two limits are part of the contract.

use vstd::prelude::*;

verus! {

/// Number of line breaks after which the rest of a text is discarded.
pub const MAX_LINES: usize = 500;

/// Number of code points after which a line break is inserted.
pub const MAX_CHARS_PER_LINE: usize = 1000;

/// `String::push` appends one code point and leaves the rest of the string
/// as it was (std documents it as appending the given `char` to the end).
pub assume_specification[ String::push ](s: &mut String, c: char)
    ensures
        final(s)@ == old(s)@.push(c),
;

/// The classifier's answer for each code point, as a predicate.
pub open spec fn verdicts<F: Fn(char) -> bool>(safe: &F) -> spec_fn(char) -> bool {
    |c: char| call_ensures(*safe, (c,), true)
}

/// The classifier can be asked about every code point and gives one answer
/// for each.
pub open spec fn decides<F: Fn(char) -> bool>(safe: &F) -> bool {
    &&& forall|c: char| call_requires(*safe, (c,))
    &&& forall|c: char, a: bool, b: bool|
        call_ensures(*safe, (c,), a) && call_ensures(*safe, (c,), b) ==> a == b
}

/// What one code point of the input turns into.
pub enum Piece {
    /// A code point that counts towards the length of its line.
    Glyph(char),
    /// A line break.
    Break,
    /// Nothing: the carriage return of a CR LF pair.
    Dropped,
}

/// The piece for `c`, given whether a line feed follows it directly. A tab
/// is kept, a line feed and a lone carriage return break the line, and the
/// carriage return before a line feed is dropped, whatever the classifier
/// would say of them. Of the rest, what the classifier accepts is kept and
/// everything else becomes U+FFFD.
pub open spec fn piece(c: char, line_feed_follows: bool, safe: spec_fn(char) -> bool) -> Piece {
    if c == '\t' {
        Piece::Glyph(c)
    } else if c == '\n' {
        Piece::Break
    } else if c == '\r' {
        if line_feed_follows {
            Piece::Dropped
        } else {
            Piece::Break
        }
    } else if safe(c) {
        Piece::Glyph(c)
    } else {
        Piece::Glyph('\u{FFFD}')
    }
}

/// The sanitized form of `s` when `counter` code points already stand on
/// the current line and `lines` line breaks were written before.
///
/// A glyph that fills the line is followed by an inserted line break; a
/// line break that is the `MAX_LINES`-th ends the text.
pub open spec fn sanitize_rest(
    s: Seq<char>,
    safe: spec_fn(char) -> bool,
    counter: nat,
    lines: nat,
) -> Seq<char>
    decreases s.len(),
{
    if s.len() == 0 {
        Seq::empty()
    } else {
        let rest = s.drop_first();
        let after_break = if lines + 1 >= MAX_LINES {
            Seq::empty()
        } else {
            sanitize_rest(rest, safe, 0, lines + 1)
        };
        match piece(s[0], rest.len() > 0 && rest[0] == '\n', safe) {
            Piece::Dropped => sanitize_rest(rest, safe, counter, lines),
            Piece::Break => seq!['\n'] + after_break,
            Piece::Glyph(g) => if counter + 1 >= MAX_CHARS_PER_LINE {
                seq![g, '\n'] + after_break
            } else {
                seq![g] + sanitize_rest(rest, safe, counter + 1, lines)
            },
        }
    }
}

/// The sanitized form of a whole text.
pub open spec fn sanitized(s: Seq<char>, safe: spec_fn(char) -> bool) -> Seq<char> {
    sanitize_rest(s, safe, 0, 0)
}

/// `c` may stand in a sanitized text: the classifier accepts it, or it is a
/// tab, a line feed or U+FFFD.
pub open spec fn allowed(c: char, safe: spec_fn(char) -> bool) -> bool {
    safe(c) || c == '\t' || c == '\n' || c == '\u{FFFD}'
}

/// Every code point of `s` is allowed.
pub open spec fn all_allowed(s: Seq<char>, safe: spec_fn(char) -> bool) -> bool {
    forall|i: int| 0 <= i < s.len() ==> allowed(#[trigger] s[i], safe)
}

/// Number of line feeds in `s`.
pub open spec fn newlines(s: Seq<char>) -> nat
    decreases s.len(),
{
    if s.len() == 0 {
        0
    } else {
        newlines(s.drop_first()) + if s[0] == '\n' {
            1nat
        } else {
            0nat
        }
    }
}

/// No line feed stands in `s` from index `a` up to, not including, `b`.
pub open spec fn line_free(s: Seq<char>, a: int, b: int) -> bool {
    forall|k: int| a <= k < b ==> s[k] != '\n'
}

/// No stretch of `s` without a line feed is longer than `limit`.
pub open spec fn lines_within(s: Seq<char>, limit: int) -> bool {
    forall|a: int, b: int|
        0 <= a <= b <= s.len() && #[trigger] line_free(s, a, b) ==> b - a <= limit
}

/// As `lines_within(s, limit)`, where `counter` code points stood on the
/// first line before `s` began.
pub open spec fn lines_within_from(s: Seq<char>, counter: nat, limit: int) -> bool {
    forall|a: int, b: int|
        0 <= a <= b <= s.len() && #[trigger] line_free(s, a, b) ==> if a == 0 {
            b + counter <= limit
        } else {
            b - a <= limit
        }
}

proof fn lemma_newlines_concat(a: Seq<char>, b: Seq<char>)
    ensures
        newlines(a + b) == newlines(a) + newlines(b),
    decreases a.len(),
{
    if a.len() == 0 {
        assert(a + b =~= b);
    } else {
        assert((a + b).drop_first() =~= a.drop_first() + b);
        lemma_newlines_concat(a.drop_first(), b);
    }
}

proof fn lemma_newlines_short(g: char)
    ensures
        newlines(Seq::<char>::empty()) == 0,
        newlines(seq![g]) == if g == '\n' { 1nat } else { 0nat },
        newlines(seq![g, '\n']) == if g == '\n' { 2nat } else { 1nat },
{
    assert(seq![g].drop_first() =~= Seq::<char>::empty());
    assert(seq![g, '\n'].drop_first() =~= seq!['\n']);
    assert(seq!['\n'].drop_first() =~= Seq::<char>::empty());
    reveal_with_fuel(newlines, 3);
}

/// Every code point of a sanitized text is one the classifier accepts, a
/// tab, a line feed or U+FFFD.
pub proof fn lemma_sanitized_code_points(
    s: Seq<char>,
    safe: spec_fn(char) -> bool,
    counter: nat,
    lines: nat,
)
    ensures
        all_allowed(sanitize_rest(s, safe, counter, lines), safe),
    decreases s.len(),
{
    if s.len() > 0 {
        let rest = s.drop_first();
        lemma_sanitized_code_points(rest, safe, counter, lines);
        lemma_sanitized_code_points(rest, safe, counter + 1, lines);
        lemma_sanitized_code_points(rest, safe, 0, lines + 1);
    }
}

/// A sanitized text holds at most `MAX_LINES` line feeds, those written
/// before included.
pub proof fn lemma_sanitized_line_count(
    s: Seq<char>,
    safe: spec_fn(char) -> bool,
    counter: nat,
    lines: nat,
)
    requires
        lines < MAX_LINES,
    ensures
        newlines(sanitize_rest(s, safe, counter, lines)) + lines <= MAX_LINES,
    decreases s.len(),
{
    if s.len() == 0 {
    } else {
        let rest = s.drop_first();
        let after_break = if lines + 1 >= MAX_LINES {
            Seq::empty()
        } else {
            sanitize_rest(rest, safe, 0, lines + 1)
        };
        if lines + 1 < MAX_LINES {
            lemma_sanitized_line_count(rest, safe, 0, lines + 1);
        }
        match piece(s[0], rest.len() > 0 && rest[0] == '\n', safe) {
            Piece::Dropped => {
                lemma_sanitized_line_count(rest, safe, counter, lines);
            },
            Piece::Break => {
                lemma_newlines_short('\n');
                lemma_newlines_concat(seq!['\n'], after_break);
            },
            Piece::Glyph(g) => {
                lemma_newlines_short(g);
                if counter + 1 >= MAX_CHARS_PER_LINE {
                    lemma_newlines_concat(seq![g, '\n'], after_break);
                } else {
                    lemma_sanitized_line_count(rest, safe, counter + 1, lines);
                    lemma_newlines_concat(
                        seq![g],
                        sanitize_rest(rest, safe, counter + 1, lines),
                    );
                }
            },
        }
    }
}

/// No line of a sanitized text holds more than `MAX_CHARS_PER_LINE` code
/// points, those that stood on the first line before included.
pub proof fn lemma_sanitized_line_length(
    s: Seq<char>,
    safe: spec_fn(char) -> bool,
    counter: nat,
    lines: nat,
)
    requires
        counter < MAX_CHARS_PER_LINE,
    ensures
        lines_within_from(
            sanitize_rest(s, safe, counter, lines),
            counter,
            MAX_CHARS_PER_LINE as int,
        ),
    decreases s.len(),
{
    let limit = MAX_CHARS_PER_LINE as int;
    let out = sanitize_rest(s, safe, counter, lines);
    if s.len() == 0 {
    } else {
        let rest = s.drop_first();
        let after_break = if lines + 1 >= MAX_LINES {
            Seq::empty()
        } else {
            sanitize_rest(rest, safe, 0, lines + 1)
        };
        if lines + 1 < MAX_LINES {
            lemma_sanitized_line_length(rest, safe, 0, lines + 1);
        }
        assert(lines_within_from(after_break, 0, limit));
        match piece(s[0], rest.len() > 0 && rest[0] == '\n', safe) {
            Piece::Dropped => {
                lemma_sanitized_line_length(rest, safe, counter, lines);
            },
            Piece::Break => {
                lemma_lines_after(seq!['\n'], after_break, counter, 0, limit);
            },
            Piece::Glyph(g) => {
                if counter + 1 >= MAX_CHARS_PER_LINE {
                    lemma_lines_after(seq![g, '\n'], after_break, counter, 0, limit);
                } else {
                    let tail = sanitize_rest(rest, safe, counter + 1, lines);
                    lemma_sanitized_line_length(rest, safe, counter + 1, lines);
                    lemma_lines_after(seq![g], tail, counter, counter + 1, limit);
                }
            },
        }
    }
}

/// Moves a bound on the lines of `tail` to `head + tail`, where `head` is
/// what one input code point wrote.
proof fn lemma_lines_after(
    head: Seq<char>,
    tail: Seq<char>,
    counter: nat,
    after: nat,
    limit: int,
)
    requires
        lines_within_from(tail, after, limit),
        1 <= head.len() <= 2,
        counter + 1 <= limit,
        head.len() == 2 ==> head[1] == '\n',
        head.last() != '\n' ==> after == counter + 1,
    ensures
        lines_within_from(head + tail, counter, limit),
{
    let whole = head + tail;
    let n = head.len() as int;
    assert forall|a: int, b: int|
        0 <= a <= b <= whole.len() && #[trigger] line_free(whole, a, b) implies if a == 0 {
        b + counter <= limit
    } else {
        b - a <= limit
    } by {
        if a >= n {
            assert forall|k: int| a - n <= k < b - n implies tail[k] != '\n' by {
                assert(whole[k + n] == tail[k]);
            }
            assert(line_free(tail, a - n, b - n));
            if a == n {
                assert(b - n + after <= limit);
            }
        } else if b <= n {
            if head.last() == '\n' {
                assert(whole[n - 1] == '\n');
                assert(b <= n - 1);
            }
        } else {
            assert(whole[n - 1] == head.last());
            assert(head.last() != '\n');
            assert forall|k: int| 0 <= k < b - n implies tail[k] != '\n' by {
                assert(whole[k + n] == tail[k]);
            }
            assert(line_free(tail, 0, b - n));
        }
    }
}

/// From index `from` on, `t` holds nothing but line feeds.
pub open spec fn only_breaks(t: Seq<char>, from: int) -> bool {
    forall|k: int| from <= k < t.len() ==> t[k] == '\n'
}

/// Every line of `t` that holds `MAX_CHARS_PER_LINE` code points is
/// followed by nothing but line feeds, the last of which is the
/// `MAX_LINES`-th. `counter` code points stood on the first line, and
/// `lines` line feeds were written, before `t` began.
pub open spec fn full_lines_end_from(t: Seq<char>, counter: nat, lines: nat) -> bool {
    forall|a: int, b: int|
        0 <= a <= b <= t.len() && #[trigger] line_free(t, a, b) && (if a == 0 {
            b + counter
        } else {
            b - a
        }) >= MAX_CHARS_PER_LINE ==> only_breaks(t, b) && lines + newlines(t) == MAX_LINES
}

/// Every line of `t` that holds `MAX_CHARS_PER_LINE` code points is
/// followed by nothing but line feeds, the last of which is the
/// `MAX_LINES`-th. So it is of a text without such a line, and of one whose
/// only such line is ended by the `MAX_LINES`-th line feed.
pub open spec fn full_lines_end(t: Seq<char>) -> bool {
    full_lines_end_from(t, 0, 0)
}

proof fn lemma_newlines_of_breaks(u: Seq<char>)
    requires
        only_breaks(u, 0),
    ensures
        newlines(u) == u.len(),
    decreases u.len(),
{
    if u.len() > 0 {
        lemma_newlines_of_breaks(u.drop_first());
    }
}

/// Of a text made of line feeds alone, as many are kept as lead to the
/// `MAX_LINES`-th.
proof fn lemma_breaks_rest(u: Seq<char>, safe: spec_fn(char) -> bool, counter: nat, lines: nat)
    requires
        only_breaks(u, 0),
        lines < MAX_LINES,
        u.len() >= MAX_LINES - lines,
    ensures
        sanitize_rest(u, safe, counter, lines) == u.take(MAX_LINES - lines),
    decreases u.len(),
{
    let rest = u.drop_first();
    assert(u[0] == '\n');
    if lines + 1 >= MAX_LINES {
        assert(u.take(1) =~= seq!['\n']);
    } else {
        lemma_breaks_rest(rest, safe, 0, lines + 1);
        assert(u.take(MAX_LINES - lines) =~= seq!['\n'] + rest.take(MAX_LINES - lines - 1));
    }
}

/// Moves what is known of the full lines of `head + tail` to `tail`, where
/// `head` is the one code point that an input code point wrote.
proof fn lemma_full_lines_of_tail(
    head: Seq<char>,
    tail: Seq<char>,
    counter: nat,
    after: nat,
    lines: nat,
    lines_after: nat,
)
    requires
        full_lines_end_from(head + tail, counter, lines),
        head.len() == 1,
        head[0] == '\n' ==> after == 0 && lines_after == lines + 1,
        head[0] != '\n' ==> after == counter + 1 && lines_after == lines,
    ensures
        full_lines_end_from(tail, after, lines_after),
{
    let whole = head + tail;
    lemma_newlines_concat(head, tail);
    lemma_newlines_short(head[0]);
    assert(head =~= seq![head[0]]);
    assert forall|a: int, b: int|
        0 <= a <= b <= tail.len() && #[trigger] line_free(tail, a, b) && (if a == 0 {
            b + after
        } else {
            b - a
        }) >= MAX_CHARS_PER_LINE implies only_breaks(tail, b) && lines_after + newlines(tail)
        == MAX_LINES by {
        assert forall|k: int| a + 1 <= k < b + 1 implies whole[k] != '\n' by {
            assert(whole[k] == tail[k - 1]);
        }
        if a == 0 && head[0] != '\n' {
            assert forall|k: int| 0 <= k < b + 1 implies whole[k] != '\n' by {
                if k == 0 {
                    assert(whole[0] == head[0]);
                } else {
                    assert(whole[k] == tail[k - 1]);
                }
            }
            assert(line_free(whole, 0, b + 1));
        } else {
            assert(line_free(whole, a + 1, b + 1));
        }
        assert(only_breaks(whole, b + 1));
        assert forall|k: int| b <= k < tail.len() implies tail[k] == '\n' by {
            assert(whole[k + 1] == tail[k]);
        }
    }
}

/// Sanitizing a sanitized text changes nothing, for a text in whose
/// sanitized form every line of `MAX_CHARS_PER_LINE` code points is followed
/// by nothing but line feeds up to the `MAX_LINES`-th. (Any other full line
/// is followed by an inserted line break, after which a second pass inserts
/// another.)
pub proof fn lemma_sanitize_rest_idempotent(
    s: Seq<char>,
    safe: spec_fn(char) -> bool,
    counter: nat,
    lines: nat,
)
    requires
        counter < MAX_CHARS_PER_LINE,
        lines < MAX_LINES,
        full_lines_end_from(sanitize_rest(s, safe, counter, lines), counter, lines),
    ensures
        sanitize_rest(sanitize_rest(s, safe, counter, lines), safe, counter, lines)
            == sanitize_rest(s, safe, counter, lines),
    decreases s.len(),
{
    let out = sanitize_rest(s, safe, counter, lines);
    if s.len() == 0 {
    } else {
        let rest = s.drop_first();
        match piece(s[0], rest.len() > 0 && rest[0] == '\n', safe) {
            Piece::Dropped => {
                lemma_sanitize_rest_idempotent(rest, safe, counter, lines);
            },
            Piece::Break => {
                if lines + 1 >= MAX_LINES {
                    assert(out =~= seq!['\n']);
                    assert(out.drop_first() =~= Seq::<char>::empty());
                } else {
                    let tail = sanitize_rest(rest, safe, 0, lines + 1);
                    assert(out =~= seq!['\n'] + tail);
                    assert(out.drop_first() =~= tail);
                    lemma_full_lines_of_tail(seq!['\n'], tail, counter, 0, lines, lines + 1);
                    lemma_sanitize_rest_idempotent(rest, safe, 0, lines + 1);
                }
            },
            Piece::Glyph(g) => {
                assert(g != '\n' && g != '\r');
                if counter + 1 >= MAX_CHARS_PER_LINE {
                    let after_break = if lines + 1 >= MAX_LINES {
                        Seq::<char>::empty()
                    } else {
                        sanitize_rest(rest, safe, 0, lines + 1)
                    };
                    assert(out =~= seq![g, '\n'] + after_break);
                    assert(out[0] == g);
                    assert(line_free(out, 0, 1));
                    assert(only_breaks(out, 1));
                    let u = out.drop_first();
                    assert(u =~= seq!['\n'] + after_break);
                    assert(out =~= seq![g] + u);
                    assert forall|k: int| 0 <= k < u.len() implies u[k] == '\n' by {
                        assert(u[k] == out[k + 1]);
                    }
                    lemma_newlines_of_breaks(u);
                    lemma_newlines_concat(seq![g], u);
                    lemma_newlines_short(g);
                    assert(lines + 1 + after_break.len() == MAX_LINES);
                    assert(piece(g, u.len() > 0 && u[0] == '\n', safe) == Piece::Glyph(g));
                    if lines + 1 < MAX_LINES {
                        lemma_breaks_rest(u, safe, 0, lines + 1);
                        assert(u.take(MAX_LINES - (lines + 1)) =~= after_break) by {
                            assert forall|k: int| 0 <= k < after_break.len() implies u[k]
                                == after_break[k] by {
                                assert(after_break[k] == u[k + 1]);
                            }
                        }
                    }
                } else {
                    let tail = sanitize_rest(rest, safe, counter + 1, lines);
                    assert(out =~= seq![g] + tail);
                    assert(out.drop_first() =~= tail);
                    lemma_full_lines_of_tail(seq![g], tail, counter, counter + 1, lines, lines);
                    lemma_sanitize_rest_idempotent(rest, safe, counter + 1, lines);
                    assert(piece(g, tail.len() > 0 && tail[0] == '\n', safe) == Piece::Glyph(g));
                }
            },
        }
    }
}

/// `sanitized(sanitized(s)) == sanitized(s)`, for every classifier and
/// every text in whose sanitized form a line of `MAX_CHARS_PER_LINE` code
/// points, if there is one, is followed by nothing but line feeds up to the
/// `MAX_LINES`-th.
pub proof fn lemma_sanitize_idempotent(s: Seq<char>, safe: spec_fn(char) -> bool)
    requires
        full_lines_end(sanitized(s, safe)),
    ensures
        sanitized(sanitized(s, safe), safe) == sanitized(s, safe),
{
    lemma_sanitize_rest_idempotent(s, safe, 0, 0);
}

/// A text none of whose lines reaches `MAX_CHARS_PER_LINE` code points
/// has no full line, so what is asked of full lines holds of it.
pub proof fn lemma_short_lines_end(t: Seq<char>)
    requires
        lines_within(t, MAX_CHARS_PER_LINE - 1),
    ensures
        full_lines_end(t),
{
}

/// What a sanitized text is known to be, whatever the input and the
/// classifier: made of allowed code points, with no line over
/// `MAX_CHARS_PER_LINE` code points and with at most `MAX_LINES` line
/// feeds.
pub proof fn lemma_sanitized_is_bounded(s: Seq<char>, safe: spec_fn(char) -> bool)
    ensures
        all_allowed(sanitized(s, safe), safe),
        lines_within(sanitized(s, safe), MAX_CHARS_PER_LINE as int),
        newlines(sanitized(s, safe)) <= MAX_LINES,
{
    lemma_sanitized_code_points(s, safe, 0, 0);
    lemma_sanitized_line_length(s, safe, 0, 0);
    lemma_sanitized_line_count(s, safe, 0, 0);
    let out = sanitized(s, safe);
    assert forall|a: int, b: int|
        0 <= a <= b <= out.len() && #[trigger] line_free(out, a, b) implies b - a
        <= MAX_CHARS_PER_LINE by {}
}

/// The code points of `s`, one by one.
pub fn chars_of(s: &str) -> (v: Vec<char>)
    ensures
        v@ == s@,
{
    let mut v: Vec<char> = Vec::new();
    for c in it: s.chars()
        invariant
            it.seq() == s@,
            v@ == s@.take(it.index() as int),
    {
        v.push(c);
    }
    v
}

/// Sanitizes `arg` for display. `safe` is asked about each code point
/// that is read, in order, once, but for tab, line feed and carriage
/// return, which are decided without it.
///
/// - A tab is kept. A line feed stays, `\r\n` collapses to one, a lone
///   `\r` becomes one. Of the rest, what `safe` accepts is kept and
///   everything else becomes U+FFFD.
/// - After `MAX_CHARS_PER_LINE` code points without a line break one is
///   inserted.
/// - The text ends with the `MAX_LINES`-th line break; what follows in
///   `arg` is discarded unread.
pub fn sanitize_str<F: Fn(char) -> bool>(arg: &str, safe: &F) -> (res: String)
    requires
        decides(safe),
    ensures
        res@ == sanitized(arg@, verdicts(safe)),
        all_allowed(res@, verdicts(safe)),
        lines_within(res@, MAX_CHARS_PER_LINE as int),
        newlines(res@) <= MAX_LINES,
{
    let chars = chars_of(arg);
    let ghost verdict = verdicts(safe);
    let mut res = String::new();
    let mut counter: usize = 0;
    let mut lines: usize = 0;
    let mut i: usize = 0;
    proof {
        assert(chars@.skip(0) =~= chars@);
    }
    while i < chars.len()
        invariant
            decides(safe),
            verdict == verdicts(safe),
            chars@ == arg@,
            i <= chars.len(),
            counter < MAX_CHARS_PER_LINE,
            lines < MAX_LINES,
            res@ + sanitize_rest(chars@.skip(i as int), verdict, counter as nat, lines as nat)
                == sanitized(arg@, verdict),
        decreases chars.len() - i,
    {
        let c: char = chars[i];
        let ghost here = chars@.skip(i as int);
        let ghost rest = here.drop_first();
        let ghost before = res@;
        let ghost counter0 = counter as nat;
        let ghost lines0 = lines as nat;
        proof {
            assert(here[0] == c);
            assert(rest =~= chars@.skip(i + 1));
        }
        let emit: char;
        if c == '\t' {
            counter += 1;
            emit = c;
        } else if c == '\n' {
            counter = 0;
            lines += 1;
            emit = c;
        } else if c == '\r' {
            if i + 1 < chars.len() && chars[i + 1] == '\n' {
                assert(rest[0] == chars@[i + 1]);
                i += 1;
                continue ;
            }
            counter = 0;
            lines += 1;
            emit = '\n';
        } else {
            let accepted = safe(c);
            assert(accepted == verdict(c));
            counter += 1;
            emit = if accepted {
                c
            } else {
                '\u{FFFD}'
            };
        }
        res.push(emit);
        let ghost filled = counter >= MAX_CHARS_PER_LINE;
        if counter >= MAX_CHARS_PER_LINE {
            res.push('\n');
            counter = 0;
            lines += 1;
        }
        i += 1;
        proof {
            let written = if filled {
                seq![emit, '\n']
            } else {
                seq![emit]
            };
            let tail = if lines >= MAX_LINES {
                Seq::<char>::empty()
            } else {
                sanitize_rest(rest, verdict, counter as nat, lines as nat)
            };
            assert(res@ =~= before + written);
            assert(sanitize_rest(here, verdict, counter0, lines0) == written + tail);
            assert(res@ + tail =~= before + (written + tail));
        }
        if lines >= MAX_LINES {
            proof {
                lemma_sanitized_is_bounded(arg@, verdict);
            }
            return res;
        }
    }
    proof {
        assert(chars@.skip(i as int) =~= Seq::<char>::empty());
        assert(res@ + Seq::<char>::empty() =~= res@);
        lemma_sanitized_is_bounded(arg@, verdict);
    }
    res
}

/// What one code point of a text becomes where the text is sent as markup:
/// the five characters that markup gives a meaning are replaced by their
/// entities, every other code point stands for itself.
pub open spec fn escaped_char(c: char) -> Seq<char> {
    if c == '<' {
        seq!['&', 'l', 't', ';']
    } else if c == '>' {
        seq!['&', 'g', 't', ';']
    } else if c == '&' {
        seq!['&', 'a', 'm', 'p', ';']
    } else if c == '\'' {
        seq!['&', 'a', 'p', 'o', 's', ';']
    } else if c == '"' {
        seq!['&', 'q', 'u', 'o', 't', ';']
    } else {
        seq![c]
    }
}

/// `s` with each code point escaped for markup, in order.
pub open spec fn escaped(s: Seq<char>) -> Seq<char>
    decreases s.len(),
{
    if s.len() == 0 {
        Seq::empty()
    } else {
        escaped(s.drop_last()) + escaped_char(s.last())
    }
}

/// Escapes `body` for a service that renders markup, so that the text is
/// shown literally: `<`, `>`, `&`, `'` and `"` become `&lt;`, `&gt;`,
/// `&amp;`, `&apos;` and `&quot;`.
pub fn escape_markup(body: &str) -> (res: String)
    ensures
        res@ == escaped(body@),
{
    let chars = chars_of(body);
    let mut res = String::new();
    let mut i: usize = 0;
    proof {
        assert(chars@.take(0) =~= Seq::<char>::empty());
    }
    while i < chars.len()
        invariant
            chars@ == body@,
            i <= chars.len(),
            res@ == escaped(chars@.take(i as int)),
        decreases chars.len() - i,
    {
        let c: char = chars[i];
        let ghost before = res@;
        proof {
            assert(chars@.take(i + 1).drop_last() =~= chars@.take(i as int));
            assert(chars@.take(i + 1).last() == c);
        }
        if c == '<' {
            res.push('&');
            res.push('l');
            res.push('t');
            res.push(';');
        } else if c == '>' {
            res.push('&');
            res.push('g');
            res.push('t');
            res.push(';');
        } else if c == '&' {
            res.push('&');
            res.push('a');
            res.push('m');
            res.push('p');
            res.push(';');
        } else if c == '\'' {
            res.push('&');
            res.push('a');
            res.push('p');
            res.push('o');
            res.push('s');
            res.push(';');
        } else if c == '"' {
            res.push('&');
            res.push('q');
            res.push('u');
            res.push('o');
            res.push('t');
            res.push(';');
        } else {
            res.push(c);
        }
        assert(res@ =~= before + escaped_char(c));
        i += 1;
    }
    proof {
        assert(chars@.take(i as int) =~= chars@);
    }
    res
}

} // verus!
