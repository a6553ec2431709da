//! Properties of the library that span several functions or hold of every
//! input, stated over the specifications the functions are proved against.

use vstd::prelude::*;
use vstd::utf8::is_ascii_chars;
use crate::backend::{decode_pairs, hex_digit_value, hex_pair, hex_parse, hex_text, pair_value, strip_white_space, upper_hex_digit};
use crate::backend::{crlf_to_lf, display_chars, is_control, line_ending_bytes, send_payload, shown_char};
use crate::backend::history::{MAX_ITEMS as HISTORY_MAX, with_newest};
use crate::backend::quick_commands::{MAX_ITEMS as SLOTS, filled_first_empty, is_reset_slot};
use crate::session::{MAX_LINES, NavDown, OpenRequest, PortSettings, appended, enter_sends, lines_containing, nav_down, nav_up, open_refusal, outgoing, request_for, timed_period};
use crate::backend::ch341_fix::missing_names;
use crate::types::{DataBits, FlowControl, Parity, StopBits};
use crate::text::{contains, decimal, digits_value, is_blank, is_digit, is_white_space, join, occurs_at, parse_unsigned, unsigned_digits};
use crate::controller::{SendRequest, Session, send_outcome};
use crate::types::{HistoryItem, LineEnding, QuickCommand, SendMode};

verus! {

/// The hexadecimal pairs of the bytes, concatenated without separators.
pub open spec fn packed_hex(data: Seq<u8>) -> Seq<char>
    decreases data.len(),
{
    if data.len() == 0 {
        seq![]
    } else {
        packed_hex(data.drop_last()) + hex_pair(data.last())
    }
}

proof fn lemma_hex_digit(d: nat)
    requires
        d < 16,
    ensures
        crate::backend::hex_digit_value(upper_hex_digit(d)) == Some(d),
        !is_white_space(upper_hex_digit(d)),
        '\0' <= upper_hex_digit(d) <= '\u{7f}',
{
    let c = upper_hex_digit(d);
    if d < 10 {
        assert((c as u32) == d + 48);
    } else {
        assert((c as u32) == d + 55);
    }
}

proof fn lemma_pair(b: u8)
    ensures
        pair_value(hex_pair(b)[0], hex_pair(b)[1]) == Some(b),
        strip_white_space(hex_pair(b)) == hex_pair(b),
        is_ascii_chars(hex_pair(b)),
{
    let hi = b as nat / 16;
    let lo = b as nat % 16;
    lemma_hex_digit(hi);
    lemma_hex_digit(lo);
    assert((hi * 16 + lo) as u8 == b);
    let p = hex_pair(b);
    assert(p.drop_last() =~= seq![p[0]]);
    assert(seq![p[0]].drop_last() =~= Seq::<char>::empty());
    assert(seq![p[0]].last() == p[0]);
    assert(strip_white_space(seq![p[0]].drop_last()) =~= Seq::<char>::empty());
    assert(strip_white_space(seq![p[0]]) =~= seq![p[0]]);
    assert(p.last() == p[1]);
    assert(strip_white_space(p) =~= p);
}

proof fn lemma_strip_concat(a: Seq<char>, b: Seq<char>)
    ensures
        strip_white_space(a + b) == strip_white_space(a) + strip_white_space(b),
    decreases b.len(),
{
    if b.len() == 0 {
        assert(a + b =~= a);
        assert(strip_white_space(a) + strip_white_space(b) =~= strip_white_space(a));
    } else {
        lemma_strip_concat(a, b.drop_last());
        assert((a + b).drop_last() =~= a + b.drop_last());
        assert((a + b).last() == b.last());
        if is_white_space(b.last()) {
        } else {
            assert(strip_white_space(a) + strip_white_space(b) =~= strip_white_space(a)
                + strip_white_space(b.drop_last()) + seq![b.last()]);
            assert(strip_white_space(a + b) =~= strip_white_space(a + b.drop_last()).push(
                b.last(),
            ));
        }
    }
}

proof fn lemma_strip_hex_text(data: Seq<u8>)
    ensures
        strip_white_space(hex_text(data)) == packed_hex(data),
        is_ascii_chars(packed_hex(data)),
        packed_hex(data).len() == 2 * data.len(),
    decreases data.len(),
{
    let pieces = data.map_values(|b: u8| hex_pair(b));
    if data.len() == 0 {
        assert(hex_text(data) =~= Seq::<char>::empty());
    } else {
        lemma_strip_hex_text(data.drop_last());
        lemma_pair(data.last());
        assert(pieces.drop_last() =~= data.drop_last().map_values(|b: u8| hex_pair(b)));
        if data.len() == 1 {
            assert(hex_text(data) == pieces[0]);
            assert(data.drop_last() =~= Seq::<u8>::empty());
            assert(packed_hex(data) =~= hex_pair(data.last()));
        } else {
            assert(hex_text(data) == hex_text(data.drop_last()) + seq![' '] + hex_pair(data.last()));
            lemma_strip_concat(hex_text(data.drop_last()) + seq![' '], hex_pair(data.last()));
            lemma_strip_concat(hex_text(data.drop_last()), seq![' ']);
            assert(seq![' '].drop_last() =~= Seq::<char>::empty());
            assert(is_white_space(' ')) by {
                assert((' ' as u32) == 0x20);
            }
            assert(seq![' '].last() == ' ');
            assert(strip_white_space(Seq::<char>::empty()) =~= Seq::<char>::empty());
            assert(strip_white_space(seq![' ']) =~= Seq::<char>::empty());
            assert(strip_white_space(hex_text(data.drop_last()) + seq![' ']) =~= packed_hex(
                data.drop_last(),
            ));
        }
        assert(is_ascii_chars(packed_hex(data))) by {
            let p = packed_hex(data);
            let q = packed_hex(data.drop_last());
            assert forall|i: int| 0 <= i < p.len() implies '\0' <= #[trigger] p[i] <= '\u{7f}' by {
                if i < q.len() {
                    assert(p[i] == q[i]);
                } else {
                    assert(p[i] == hex_pair(data.last())[i - q.len()]);
                }
            }
        }
    }
}

proof fn lemma_decode_concat(a: Seq<char>, b: Seq<char>, x: Seq<u8>, y: Seq<u8>)
    requires
        a.len() % 2 == 0,
        decode_pairs(a) == Ok::<Seq<u8>, Seq<char>>(x),
        decode_pairs(b) == Ok::<Seq<u8>, Seq<char>>(y),
    ensures
        decode_pairs(a + b) == Ok::<Seq<u8>, Seq<char>>(x + y),
    decreases a.len(),
{
    if a.len() == 0 {
        assert(a + b =~= b);
        assert(x =~= Seq::<u8>::empty());
        assert(x + y =~= y);
    } else {
        let rest = a.skip(2);
        assert((a + b).skip(2) =~= rest + b);
        assert((a + b)[0] == a[0] && (a + b)[1] == a[1]);
        let v = pair_value(a[0], a[1]).unwrap();
        let rx = decode_pairs(rest)->Ok_0;
        lemma_decode_concat(rest, b, rx, y);
        assert(x =~= seq![v] + rx);
        assert(seq![v] + (rx + y) =~= x + y);
    }
}

proof fn lemma_decode_packed(data: Seq<u8>)
    ensures
        decode_pairs(packed_hex(data)) == Ok::<Seq<u8>, Seq<char>>(data),
    decreases data.len(),
{
    if data.len() == 0 {
        assert(data =~= Seq::<u8>::empty());
    } else {
        lemma_decode_packed(data.drop_last());
        lemma_strip_hex_text(data.drop_last());
        lemma_pair(data.last());
        let p = hex_pair(data.last());
        assert(p.skip(2) =~= Seq::<char>::empty());
        assert(decode_pairs(p.skip(2)) == Ok::<Seq<u8>, Seq<char>>(Seq::<u8>::empty()));
        assert(decode_pairs(p) == Ok::<Seq<u8>, Seq<char>>(seq![data.last()] + Seq::<u8>::empty()));
        assert(seq![data.last()] + Seq::<u8>::empty() =~= seq![data.last()]);
        lemma_decode_concat(packed_hex(data.drop_last()), p, data.drop_last(), seq![data.last()]);
        assert(data.drop_last() + seq![data.last()] =~= data);
    }
}

/// Hexadecimal text made by `bytes_to_hex` parses back to the same bytes,
/// so received bytes shown in hexadecimal can be sent again as they are.
pub proof fn law_hex_round_trip(data: Seq<u8>)
    ensures
        hex_parse(hex_text(data)) == Ok::<Seq<u8>, Seq<char>>(data),
{
    lemma_strip_hex_text(data);
    lemma_decode_packed(data);
    assert((2 * data.len()) % 2 == 0) by (nonlinear_arith);
}

/// Every character is a hexadecimal digit.
pub open spec fn all_hex_digits(c: Seq<char>) -> bool {
    forall|i: int| 0 <= i < c.len() ==> (#[trigger] hex_digit_value(c[i])) is Some
}

/// The byte written by the `k`-th pair of digits of `c`.
pub open spec fn digit_pair_value(c: Seq<char>, k: int) -> nat {
    hex_digit_value(c[2 * k]).unwrap() * 16 + hex_digit_value(c[2 * k + 1]).unwrap()
}

proof fn lemma_decode_digits(c: Seq<char>)
    requires
        c.len() % 2 == 0,
    ensures
        decode_pairs(c) is Ok <==> all_hex_digits(c),
        decode_pairs(c) matches Ok(v) ==> v.len() * 2 == c.len() && forall|k: int|
            0 <= k < v.len() ==> #[trigger] v[k] as nat == digit_pair_value(c, k),
    decreases c.len(),
{
    if c.len() > 0 {
        let t = c.skip(2);
        lemma_decode_digits(t);
        assert forall|i: int| 0 <= i < t.len() implies t[i] == c[i + 2] by {}
        if all_hex_digits(c) {
            assert(hex_digit_value(c[0]) is Some && hex_digit_value(c[1]) is Some);
            assert forall|i: int| 0 <= i < t.len() implies (#[trigger] hex_digit_value(t[i])) is Some by {
                assert(hex_digit_value(c[i + 2]) is Some);
            }
            let v = decode_pairs(c)->Ok_0;
            let r = decode_pairs(t)->Ok_0;
            let x = hex_digit_value(c[0]).unwrap();
            let y = hex_digit_value(c[1]).unwrap();
            assert(x < 16 && y < 16);
            assert(v == seq![(x * 16 + y) as u8] + r);
            assert forall|k: int| 0 <= k < v.len() implies #[trigger] v[k] as nat == digit_pair_value(c, k) by {
                if k == 0 {
                    assert(((x * 16 + y) as u8) as nat == x * 16 + y);
                } else {
                    assert(v[k] == r[k - 1]);
                    assert(digit_pair_value(t, k - 1) == digit_pair_value(c, k)) by {
                        assert(t[2 * (k - 1)] == c[2 * k]);
                        assert(t[2 * (k - 1) + 1] == c[2 * k + 1]);
                    }
                }
            }
        } else {
            let i = choose|i: int| 0 <= i < c.len() && !(hex_digit_value(c[i]) is Some);
            if i >= 2 {
                assert(t[i - 2] == c[i]);
                assert(!all_hex_digits(t));
            }
        }
    }
}

proof fn lemma_hex_digit_ascii(ch: char)
    requires
        hex_digit_value(ch) is Some,
    ensures
        '\0' <= ch <= '\u{7f}',
{
    crate::text::lemma_char_nonnegative(ch);
    let u = ch as u32;
    assert(u <= 127);
    assert(('\u{7f}' as u32) == 127);
}

/// Hexadecimal text is accepted exactly when, white space removed, it is an
/// even number of hexadecimal digits (0-9, A-F, a-f); each byte is then the
/// value of its two digits.
pub proof fn law_hex_accepts_only_digit_pairs(text: Seq<char>)
    ensures
        hex_parse(text) is Ok <==> (strip_white_space(text).len() % 2 == 0 && all_hex_digits(
            strip_white_space(text),
        )),
        hex_parse(text) matches Ok(v) ==> v.len() * 2 == strip_white_space(text).len() && forall|
            k: int,
        | 0 <= k < v.len() ==> #[trigger] v[k] as nat == digit_pair_value(strip_white_space(text), k),
{
    let c = strip_white_space(text);
    if all_hex_digits(c) {
        assert forall|i: int| 0 <= i < c.len() implies '\0' <= #[trigger] c[i] <= '\u{7f}' by {
            assert(hex_digit_value(c[i]) is Some);
            lemma_hex_digit_ascii(c[i]);
        }
    } else if is_ascii_chars(c) {
    }
    if c.len() % 2 == 0 {
        lemma_decode_digits(c);
    }
}

/// In hexadecimal mode the line ending is ignored: the bytes sent do not
/// depend on it.
pub proof fn law_hex_mode_ignores_line_ending(text: Seq<char>, a: LineEnding, b: LineEnding)
    ensures
        send_payload(text, true, a) == send_payload(text, true, b),
{
}

/// The receive log never holds more than [`MAX_LINES`] lines; appending
/// keeps the newest lines, in order, with the appended line last, and drops
/// only the oldest line, and only when the log was full.
pub proof fn law_log_keeps_newest(lines: Seq<Seq<char>>, line: Seq<char>)
    requires
        lines.len() <= MAX_LINES,
    ensures
        appended(lines, line).len() <= MAX_LINES,
        appended(lines, line).last() == line,
        lines.len() < MAX_LINES ==> appended(lines, line) == lines.push(line),
        lines.len() == MAX_LINES ==> appended(lines, line) == lines.push(line).drop_first(),
{
}

/// With an empty search text every line of the log is shown.
pub proof fn law_empty_search_shows_all(lines: Seq<Seq<char>>)
    ensures
        lines_containing(lines, Seq::<char>::empty()) == lines,
    decreases lines.len(),
{
    if lines.len() > 0 {
        law_empty_search_shows_all(lines.drop_last());
        assert(lines.last().subrange(0, 0) =~= Seq::<char>::empty());
        assert(occurs_at(lines.last(), Seq::<char>::empty(), 0));
        assert(contains(lines.last(), Seq::<char>::empty()));
        assert(lines.drop_last().push(lines.last()) =~= lines);
    }
}

/// A new history entry comes first; the older entries follow in their
/// order, and only the oldest is dropped, when the history was full.
pub proof fn law_history_newest_first(items: Seq<HistoryItem>, item: HistoryItem)
    requires
        items.len() <= HISTORY_MAX,
    ensures
        with_newest(items, item).len() == if items.len() < HISTORY_MAX {
            items.len() + 1
        } else {
            HISTORY_MAX as nat
        },
        with_newest(items, item)[0] == item,
        forall|i: int|
            0 <= i < with_newest(items, item).len() - 1 ==> #[trigger] with_newest(items, item)[i
                + 1] == items[i],
{
}

/// One step done to the history: recording a sent entry, or clearing it.
pub enum HistoryStep {
    Add(HistoryItem),
    Clear,
}

/// The history after the steps, each done as `History::add_at` and
/// `History::clear` state it: blank entries are not recorded.
pub open spec fn after_steps(start: Seq<HistoryItem>, steps: Seq<HistoryStep>) -> Seq<HistoryItem>
    decreases steps.len(),
{
    if steps.len() == 0 {
        start
    } else {
        let h = after_steps(start, steps.drop_last());
        match steps.last() {
            HistoryStep::Add(it) => if is_blank(it.text@) {
                h
            } else {
                with_newest(h, it)
            },
            HistoryStep::Clear => seq![],
        }
    }
}

/// The non-blank entries added since the last clear, newest first, followed
/// by the starting entries when nothing was cleared.
pub open spec fn kept_entries(start: Seq<HistoryItem>, steps: Seq<HistoryStep>) -> Seq<HistoryItem>
    decreases steps.len(),
{
    if steps.len() == 0 {
        start
    } else {
        let k = kept_entries(start, steps.drop_last());
        match steps.last() {
            HistoryStep::Add(it) => if is_blank(it.text@) {
                k
            } else {
                seq![it] + k
            },
            HistoryStep::Clear => seq![],
        }
    }
}

/// The first [`HISTORY_MAX`] entries, or all of them when there are fewer.
pub open spec fn newest_entries(s: Seq<HistoryItem>) -> Seq<HistoryItem> {
    if s.len() > HISTORY_MAX {
        s.take(HISTORY_MAX as int)
    } else {
        s
    }
}

/// However entries are added and the history cleared, starting from a
/// well-formed history, it holds the newest fifty (at most) of the
/// non-blank entries added since the last clear, newest first, followed by
/// the starting ones while nothing was cleared.
pub proof fn law_history_keeps_newest_added(start: Seq<HistoryItem>, steps: Seq<HistoryStep>)
    requires
        start.len() <= HISTORY_MAX,
    ensures
        after_steps(start, steps) == newest_entries(kept_entries(start, steps)),
        after_steps(start, steps).len() <= HISTORY_MAX,
    decreases steps.len(),
{
    if steps.len() > 0 {
        law_history_keeps_newest_added(start, steps.drop_last());
        let k = kept_entries(start, steps.drop_last());
        match steps.last() {
            HistoryStep::Add(it) => {
                if !is_blank(it.text@) {
                    assert(with_newest(newest_entries(k), it) =~= newest_entries(seq![it] + k));
                }
            },
            HistoryStep::Clear => {
                assert(newest_entries(Seq::<HistoryItem>::empty()) =~= Seq::<HistoryItem>::empty());
            },
        }
    }
}

/// A deleted or cleared slot has a blank text, so it is never sent.
pub proof fn law_reset_slot_is_empty(c: QuickCommand, index: nat)
    requires
        is_reset_slot(c, index),
    ensures
        is_blank(c.text@),
{
}

/// After every slot has been reset, the next command saved goes to the
/// first slot.
pub proof fn law_saving_after_clear_uses_first_slot(
    before: Seq<QuickCommand>,
    after: Seq<QuickCommand>,
    text: Seq<char>,
    is_hex: bool,
    r: Option<usize>,
)
    requires
        before.len() == SLOTS,
        forall|i: int| 0 <= i < SLOTS ==> is_reset_slot(#[trigger] before[i], i as nat),
        filled_first_empty(before, after, text, is_hex, r),
    ensures
        r == Some(0usize),
{
    assert(is_reset_slot(before[0], 0));
    match r {
        Some(i) => {
            if i > 0 {
                assert(!is_blank(before[0].text@));
            }
        },
        None => {
            assert(!is_blank(before[0].text@));
        },
    }
}

/// Which slot a saved command goes to is decided by the slots alone.
pub proof fn law_first_empty_slot_is_unique(
    before: Seq<QuickCommand>,
    a1: Seq<QuickCommand>,
    a2: Seq<QuickCommand>,
    text: Seq<char>,
    is_hex: bool,
    r1: Option<usize>,
    r2: Option<usize>,
)
    requires
        filled_first_empty(before, a1, text, is_hex, r1),
        filled_first_empty(before, a2, text, is_hex, r2),
    ensures
        r1 == r2,
{
    match (r1, r2) {
        (Some(i), Some(j)) => {
            if i < j {
                assert(!is_blank(before[i as int].text@));
            } else if j < i {
                assert(!is_blank(before[j as int].text@));
            }
        },
        (Some(i), None) => {
            assert(!is_blank(before[i as int].text@));
        },
        (None, Some(j)) => {
            assert(!is_blank(before[j as int].text@));
        },
        (None, None) => {},
    }
}

/// Browsing the history with Up never leaves the history.
pub proof fn law_browsing_stays_in_history(index: Option<usize>, history_len: usize, single_line: bool)
    ensures
        nav_up(index, history_len, single_line) matches Some(k) ==> k < history_len,
{
}

/// Down undoes Up: from an entry that has an older one, Up then Down comes
/// back to it; from the newest entry, Down leaves browsing.
pub proof fn law_down_undoes_up(i: usize, history_len: usize, single_line: bool)
    ensures
        i + 1 < history_len ==> nav_down(nav_up(Some(i), history_len, single_line)) == NavDown::Show(i),
        nav_down(Some(0usize)) == NavDown::Leave,
{
}

/// Timed sending never runs faster than every 100 ms.
pub proof fn law_timed_period_floor(typed: Seq<char>)
    ensures
        timed_period(typed) >= 100,
{
}

/// The two send modes give Enter opposite meanings.
pub proof fn law_send_modes_are_opposite(ctrl_held: bool)
    ensures
        enter_sends(SendMode::EnterSend, ctrl_held) != enter_sends(SendMode::EnterNewline, ctrl_held),
{
}

/// Enter that sends does what the send button does once browsing has
/// ended: the send button's outcome from a state and from the same state
/// with browsing ended are the same, so `Session::enter_pressed`, which ends
/// browsing and gives the button's outcome, acts as the button pressed
/// after browsing ended.
pub proof fn law_enter_sends_like_button(
    before: Session,
    browsing_ended: Session,
    content: Seq<char>,
    r: Option<SendRequest>,
    after: Session,
)
    requires
        browsing_ended.same_apart_from_log(before),
        browsing_ended.terminal.received_lines == before.terminal.received_lines,
        browsing_ended.terminal.history_nav_index is None,
    ensures
        send_outcome(before, content, r, after) == send_outcome(browsing_ended, content, r, after),
{
}

/// Text without carriage returns or control characters other than line
/// breaks and tabs is shown unchanged; with the contract of
/// `bytes_to_display`, valid UTF-8 of such text (Chinese, or U+FFFD itself)
/// is shown as it is.
pub proof fn law_plain_text_shown_unchanged(s: Seq<char>)
    requires
        forall|i: int|
            0 <= i < s.len() ==> #[trigger] s[i] == '\n' || s[i] == '\t' || !is_control(s[i]),
    ensures
        display_chars(s) == s,
{
    lemma_no_cr_unchanged(s);
    assert forall|i: int| 0 <= i < s.len() implies shown_char(#[trigger] s[i]) == s[i] by {
        if s[i] == '\r' {
            assert((s[i] as u32) == 13);
        }
    }
    assert(display_chars(s) =~= s);
}

proof fn lemma_no_cr_unchanged(s: Seq<char>)
    requires
        forall|i: int|
            0 <= i < s.len() ==> #[trigger] s[i] == '\n' || s[i] == '\t' || !is_control(s[i]),
    ensures
        crlf_to_lf(s) == s,
    decreases s.len(),
{
    if s.len() > 0 {
        let t = s.skip(1);
        assert forall|i: int| 0 <= i < t.len() implies #[trigger] t[i] == '\n' || t[i] == '\t'
            || !is_control(t[i]) by {
            assert(t[i] == s[i + 1]);
        }
        lemma_no_cr_unchanged(t);
        if s[0] == '\r' {
            assert((s[0] as u32) == 13);
        }
        assert(seq![s[0]] + t =~= s);
    }
}

proof fn lemma_decimal_digits(n: nat)
    ensures
        decimal(n).len() > 0,
        forall|i: int| 0 <= i < decimal(n).len() ==> is_digit(#[trigger] decimal(n)[i]),
        digits_value(decimal(n)) == n,
    decreases n,
{
    if n < 10 {
        assert((((n + 48) as char) as u32) == n + 48);
        assert(decimal(n).drop_last() =~= Seq::<char>::empty());
        assert(digits_value(Seq::<char>::empty()) == 0);
        assert(decimal(n).last() == (n + 48) as char);
        assert(digits_value(decimal(n)) == digits_value(decimal(n).drop_last()) * 10 + ((decimal(n).last() as u32) - 48) as nat);
    } else {
        lemma_decimal_digits(n / 10);
        let d = n % 10;
        assert((((d + 48) as char) as u32) == d + 48);
        assert(decimal(n).drop_last() =~= decimal(n / 10));
        assert(decimal(n).last() == (d + 48) as char);
        assert(digits_value(decimal(n)) == digits_value(decimal(n).drop_last()) * 10 + ((decimal(n).last() as u32) - 48) as nat);
        assert(digits_value(decimal(n)) == digits_value(decimal(n / 10)) * 10 + d);
        assert(n == (n / 10) * 10 + d);
    }
}

/// A number written in decimal parses back to itself, whatever bound it is
/// parsed against, as long as it fits.
pub proof fn law_decimal_parses_back(n: nat, max: nat)
    requires
        n <= max,
    ensures
        parse_unsigned(decimal(n), max) == Some(n),
{
    lemma_decimal_digits(n);
    assert(decimal(n)[0] != '+') by {
        assert(is_digit(decimal(n)[0]));
    }
    assert(unsigned_digits(decimal(n)) == decimal(n));
}


// ── What the send box sends ─────────────────────────────────────────────

proof fn lemma_trim_newlines_shape(s: Seq<char>)
    ensures
        crate::text::trim_end_newlines(s).len() <= s.len(),
        crate::text::trim_end_newlines(s) == s.take(crate::text::trim_end_newlines(s).len() as int),
        forall|i: int|
            crate::text::trim_end_newlines(s).len() <= i < s.len() ==> #[trigger] s[i] == '\n',
        crate::text::trim_end_newlines(s).len() > 0 ==> crate::text::trim_end_newlines(s).last()
            != '\n',
    decreases s.len(),
{
    if s.len() > 0 && s.last() == '\n' {
        lemma_trim_newlines_shape(s.drop_last());
        let t = crate::text::trim_end_newlines(s.drop_last());
        assert(s.drop_last().take(t.len() as int) =~= s.take(t.len() as int));
        assert forall|i: int| t.len() <= i < s.len() implies #[trigger] s[i] == '\n' by {
            if i < s.len() - 1 {
                assert(s.drop_last()[i] == s[i]);
            }
        }
    } else {
        assert(s.take(s.len() as int) =~= s);
    }
}

/// The send box sends its whole content but for the line breaks at its
/// end: the text sent is the content up to some point, only `'\n'`
/// characters follow it, and it does not itself end with one.  Nothing is
/// sent exactly when the content is all white space.  Earlier lines of a
/// multi-line content are never dropped.
pub proof fn law_send_box_sends_all_but_trailing_breaks(content: Seq<char>)
    ensures
        outgoing(content) is None <==> forall|i: int|
            0 <= i < content.len() ==> is_white_space(#[trigger] content[i]),
        outgoing(content) matches Some(x) ==> {
            &&& 0 < x.len() <= content.len()
            &&& x == content.take(x.len() as int)
            &&& forall|i: int| x.len() <= i < content.len() ==> #[trigger] content[i] == '\n'
            &&& x.last() != '\n'
        },
{
    lemma_trim_newlines_shape(content);
    let t = crate::text::trim_end_newlines(content);
    assert(is_white_space('\n')) by {
        assert(('\n' as u32) == 0x0a);
    }
    if is_blank(t) {
        assert forall|i: int| 0 <= i < content.len() implies is_white_space(#[trigger] content[i]) by {
            if i < t.len() {
                assert(t[i] == content[i]);
            }
        }
    } else {
        let j = choose|j: int| 0 <= j < t.len() && !is_white_space(#[trigger] t[j]);
        assert(t[j] == content[j]);
    }
}

/// Text written over several lines is sent whole: when the last line is
/// not blank and does not end with a line break, the line break typed
/// after it is all that is removed; the first line and everything else
/// stay.
pub proof fn law_multi_line_send_keeps_every_line(first: Seq<char>, last: Seq<char>)
    requires
        !is_blank(last),
        last.last() != '\n',
    ensures
        outgoing(first + seq!['\n'] + last + seq!['\n']) == Some(first + seq!['\n'] + last),
{
    let body = first + seq!['\n'] + last;
    let c = body + seq!['\n'];
    assert(c.drop_last() =~= body);
    let j = choose|j: int| 0 <= j < last.len() && !is_white_space(#[trigger] last[j]);
    assert(body[first.len() + 1 + j] == last[j]);
    assert(body.last() == last.last());
    assert(crate::text::trim_end_newlines(c) == crate::text::trim_end_newlines(body));
    assert(crate::text::trim_end_newlines(body) == body);
    assert(!is_blank(body));
}

// ── Opening the port ────────────────────────────────────────────────────

/// Opening asks for exactly what was chosen: the chosen port, a baud rate
/// typed as a decimal number that fits 32 bits, and each chosen framing
/// option (data bits, parity, stop bits, flow control) and the reset
/// guard; only an option left unset falls back to 8 data bits, no parity,
/// 1 stop bit and no flow control.
pub proof fn law_open_request_carries_choices(p: PortSettings, q: OpenRequest, baud: nat)
    requires
        request_for(p, q),
    ensures
        p.selected_port matches Some(name) && q.port_name@ == name@,
        baud <= u32::MAX && p.selected_baud@ == decimal(baud) ==> q.baud == baud,
        p.selected_data_bits matches Some(d) ==> q.data_bits == d,
        p.selected_parity matches Some(x) ==> q.parity == x,
        p.selected_stop_bits matches Some(x) ==> q.stop_bits == x,
        p.selected_flow_control matches Some(x) ==> q.flow_control == x,
        p.selected_data_bits is None ==> q.data_bits == DataBits::Eight,
        p.selected_parity is None ==> q.parity == Parity::Off,
        p.selected_stop_bits is None ==> q.stop_bits == StopBits::One,
        p.selected_flow_control is None ==> q.flow_control == FlowControl::Off,
        q.disable_modem_handshake == p.disable_modem_handshake,
{
    if baud <= u32::MAX && p.selected_baud@ == decimal(baud) {
        law_decimal_parses_back(baud, u32::MAX as nat);
    }
}

/// Opening is refused exactly when no port is chosen or the baud rate is
/// not a number that fits 32 bits; a chosen port with a decimal baud rate
/// that fits is never refused.
pub proof fn law_open_refused_only_without_port_or_rate(p: PortSettings, baud: nat)
    ensures
        p.selected_port is None ==> open_refusal(p) is Some,
        p.selected_port is Some && baud <= u32::MAX && p.selected_baud@ == decimal(baud)
            ==> open_refusal(p) is None,
{
    if baud <= u32::MAX {
        law_decimal_parses_back(baud, u32::MAX as nat);
    }
}

// ── The driver fix ──────────────────────────────────────────────────────

/// One for a prerequisite that was not found, else zero.
pub open spec fn absent(found: bool) -> int {
    if found {
        0
    } else {
        1
    }
}

/// Every absent build prerequisite is reported missing and no present one
/// is: gcc, make, git and the kernel headers (`linux-headers`) each appear
/// exactly when they were not found, each at most once, and nothing else
/// appears.
pub proof fn law_absent_prerequisites_reported(
    has_gcc: bool,
    has_make: bool,
    has_git: bool,
    has_headers: bool,
)
    ensures
        missing_names(has_gcc, has_make, has_git, has_headers).contains("gcc"@) <==> !has_gcc,
        missing_names(has_gcc, has_make, has_git, has_headers).contains("make"@) <==> !has_make,
        missing_names(has_gcc, has_make, has_git, has_headers).contains("git"@) <==> !has_git,
        missing_names(has_gcc, has_make, has_git, has_headers).contains("linux-headers"@)
            <==> !has_headers,
        forall|i: int|
            0 <= i < missing_names(has_gcc, has_make, has_git, has_headers).len() ==> {
                let n = #[trigger] missing_names(has_gcc, has_make, has_git, has_headers)[i];
                n == "gcc"@ || n == "make"@ || n == "git"@ || n == "linux-headers"@
            },
        missing_names(has_gcc, has_make, has_git, has_headers).len() == absent(has_gcc) + absent(
            has_make,
        ) + absent(has_git) + absent(has_headers),
        missing_names(has_gcc, has_make, has_git, has_headers).no_duplicates(),
{
    let g: Seq<Seq<char>> = if has_gcc { seq![] } else { seq!["gcc"@] };
    let m: Seq<Seq<char>> = if has_make { seq![] } else { seq!["make"@] };
    let t: Seq<Seq<char>> = if has_git { seq![] } else { seq!["git"@] };
    let h: Seq<Seq<char>> = if has_headers { seq![] } else { seq!["linux-headers"@] };
    let all = missing_names(has_gcc, has_make, has_git, has_headers);
    assert(all == g + m + t + h);
    reveal_strlit("gcc");
    reveal_strlit("make");
    reveal_strlit("git");
    reveal_strlit("linux-headers");
    assert("gcc"@.len() == 3 && "make"@.len() == 4 && "git"@.len() == 3 && "linux-headers"@.len() == 13);
    assert("gcc"@[1] == 'c' && "git"@[1] == 'i');
    assert("gcc"@ != "make"@ && "gcc"@ != "git"@ && "gcc"@ != "linux-headers"@);
    assert("make"@ != "git"@ && "make"@ != "linux-headers"@ && "git"@ != "linux-headers"@);
    assert forall|i: int| 0 <= i < all.len() implies {
        let n = #[trigger] all[i];
        &&& (n == "gcc"@ ==> !has_gcc)
        &&& (n == "make"@ ==> !has_make)
        &&& (n == "git"@ ==> !has_git)
        &&& (n == "linux-headers"@ ==> !has_headers)
        &&& (n == "gcc"@ || n == "make"@ || n == "git"@ || n == "linux-headers"@)
    } by {
        let gm = g + m;
        let gmt = g + m + t;
        if i < g.len() {
            assert(all[i] == g[i]);
        } else if i < gm.len() {
            assert(all[i] == m[i - g.len()]);
        } else if i < gmt.len() {
            assert(all[i] == t[i - gm.len()]);
        } else {
            assert(all[i] == h[i - gmt.len()]);
        }
    }
    assert forall|i: int, j: int|
        0 <= i < all.len() && 0 <= j < all.len() && i != j implies all[i] != all[j] by {
        let gm = g + m;
        let gmt = g + m + t;
        assert(g.len() <= 1 && m.len() <= 1 && t.len() <= 1 && h.len() <= 1);
        if i < g.len() {
            assert(all[i] == g[i]);
        } else if i < gm.len() {
            assert(all[i] == m[i - g.len()]);
        } else if i < gmt.len() {
            assert(all[i] == t[i - gm.len()]);
        } else {
            assert(all[i] == h[i - gmt.len()]);
        }
        if j < g.len() {
            assert(all[j] == g[j]);
        } else if j < gm.len() {
            assert(all[j] == m[j - g.len()]);
        } else if j < gmt.len() {
            assert(all[j] == t[j - gm.len()]);
        } else {
            assert(all[j] == h[j - gmt.len()]);
        }
    }
    if !has_gcc {
        assert(all[0] == "gcc"@);
    }
    if !has_make {
        assert(all[g.len() as int] == "make"@);
    }
    if !has_git {
        assert(all[(g.len() + m.len()) as int] == "git"@);
    }
    if !has_headers {
        assert(all[(g.len() + m.len() + t.len()) as int] == "linux-headers"@);
    }
}

// ── Hexadecimal digits of either case ───────────────────────────────────

/// The lower-case hexadecimal digit for `d`, which is below sixteen.
pub open spec fn lower_hex_digit(d: nat) -> char {
    if d < 10 {
        (d + 48) as char
    } else {
        (d + 87) as char
    }
}

/// The bytes written as lower-case hexadecimal pairs, without separators.
pub open spec fn lower_packed_hex(data: Seq<u8>) -> Seq<char>
    decreases data.len(),
{
    if data.len() == 0 {
        seq![]
    } else {
        lower_packed_hex(data.drop_last()) + seq![
            lower_hex_digit(data.last() as nat / 16),
            lower_hex_digit(data.last() as nat % 16),
        ]
    }
}

proof fn lemma_lower_digit(d: nat)
    requires
        d < 16,
    ensures
        hex_digit_value(lower_hex_digit(d)) == Some(d),
        !is_white_space(lower_hex_digit(d)),
        '\0' <= lower_hex_digit(d) <= '\u{7f}',
{
    let c = lower_hex_digit(d);
    if d < 10 {
        assert((c as u32) == d + 48);
    } else {
        assert((c as u32) == d + 87);
    }
}

proof fn lemma_lower_packed(data: Seq<u8>)
    ensures
        strip_white_space(lower_packed_hex(data)) == lower_packed_hex(data),
        is_ascii_chars(lower_packed_hex(data)),
        lower_packed_hex(data).len() == 2 * data.len(),
        decode_pairs(lower_packed_hex(data)) == Ok::<Seq<u8>, Seq<char>>(data),
    decreases data.len(),
{
    if data.len() > 0 {
        let b = data.last();
        let hi = b as nat / 16;
        let lo = b as nat % 16;
        lemma_lower_packed(data.drop_last());
        lemma_lower_digit(hi);
        lemma_lower_digit(lo);
        let pre = lower_packed_hex(data.drop_last());
        let p = seq![lower_hex_digit(hi), lower_hex_digit(lo)];
        assert(lower_packed_hex(data) == pre + p);
        // the pair strips to itself
        assert(p.drop_last() =~= seq![p[0]]);
        assert(seq![p[0]].drop_last() =~= Seq::<char>::empty());
        assert(seq![p[0]].last() == p[0]);
        assert(strip_white_space(seq![p[0]].drop_last()) =~= Seq::<char>::empty());
        assert(strip_white_space(seq![p[0]]) =~= seq![p[0]]);
        assert(p.last() == p[1]);
        assert(strip_white_space(p) =~= p);
        lemma_strip_concat(pre, p);
        // ASCII
        assert forall|i: int| 0 <= i < (pre + p).len() implies '\0' <= #[trigger] (pre + p)[i]
            <= '\u{7f}' by {
            if i < pre.len() {
                assert((pre + p)[i] == pre[i]);
            } else {
                assert((pre + p)[i] == p[i - pre.len()]);
            }
        }
        // the pair decodes to the byte
        assert((hi * 16 + lo) as u8 == b);
        assert(pair_value(p[0], p[1]) == Some(b));
        assert(p.skip(2) =~= Seq::<char>::empty());
        assert(decode_pairs(p.skip(2)) == Ok::<Seq<u8>, Seq<char>>(Seq::<u8>::empty()));
        assert(decode_pairs(p) == Ok::<Seq<u8>, Seq<char>>(seq![b] + Seq::<u8>::empty()));
        assert(seq![b] + Seq::<u8>::empty() =~= seq![b]);
        lemma_decode_concat(pre, p, data.drop_last(), seq![b]);
        assert(data.drop_last() + seq![b] =~= data);
    } else {
        assert(data =~= Seq::<u8>::empty());
        assert(lower_packed_hex(data) =~= Seq::<char>::empty());
        assert(strip_white_space(Seq::<char>::empty()) =~= Seq::<char>::empty());
    }
}

/// Lower-case hexadecimal is read as well as upper case: the bytes written
/// as lower-case pairs (`"1e0e"` and the like) parse back to the same
/// bytes.
pub proof fn law_lower_case_hex_round_trip(data: Seq<u8>)
    ensures
        hex_parse(lower_packed_hex(data)) == Ok::<Seq<u8>, Seq<char>>(data),
{
    lemma_lower_packed(data);
    assert((2 * data.len()) % 2 == 0) by (nonlinear_arith);
}

// ── The timed-send period ───────────────────────────────────────────────

/// A typed period that is a decimal number of at least 100 that fits 64
/// bits is the period itself; a smaller number gives 100; text without any
/// digit gives 1000.
pub proof fn law_timed_period_is_the_typed_number(n: nat, typed: Seq<char>)
    ensures
        100 <= n <= u64::MAX ==> timed_period(decimal(n)) == n,
        n < 100 ==> timed_period(decimal(n)) == 100,
        (forall|i: int| 0 <= i < typed.len() ==> !is_digit(#[trigger] typed[i])) ==> timed_period(
            typed,
        ) == 1000,
{
    if n <= u64::MAX {
        law_decimal_parses_back(n, u64::MAX as nat);
    }
    if forall|i: int| 0 <= i < typed.len() ==> !is_digit(#[trigger] typed[i]) {
        let d = unsigned_digits(typed);
        if d.len() > 0 {
            if typed.len() > 0 && typed[0] == '+' {
                assert(d[0] == typed[1]);
            } else {
                assert(d[0] == typed[0]);
            }
        }
    }
}

} // verus!

