//! What holds of reading and writing together.
//!
//! A document that is read and written comes back as it was, where it was
//! in the form in which documents are written. The first part of this
//! module says so of a whole document, given that each of its lines is
//! written as it is read; the second part says of the lines, one kind at a
//! time, when that is.

use vstd::prelude::*;
use crate::attribute_map::{attribute_line, attribute_lines};
use crate::attributes::{
    opaque_value, ExtensionMapView, FormatParametersView, GroupView, MediaStreamIdSemanticView,
    MediaStreamIdView, RidView, RtcpFeedbackView, RtcpView, RtpMapView, SsrcAttributeView,
};
use crate::enums::BandwidthTypeView;
use crate::lexer::{
    free_text_ok, has_char, lemma_token_end_bounds, line_end, next_of, spaced_fields, token_end,
    value_of, Until,
};
use crate::registry::{attribute_grammar, is_registered, AttributeView};
use crate::sdp::{
    attribute_at, attribute_run, bandwidth_line, bandwidth_line_text, bandwidth_lines_text,
    bandwidth_run, collected_bandwidths, connection_line, connection_text, distinct_kinds,
    has_line_tag, lemma_put_bandwidth_new, media_block, media_run, media_sections_text, name_line,
    name_line_text, optional_connection_line, optional_line, optional_text_line, origin_line,
    repeat_line, repeat_lines_text, repeat_run, session_grammar, text_line, time_block,
    time_blocks_text, time_run, version_line, zone_line_text, MediaDescriptionView, RepeatTimeView,
    TimeView,
};
use crate::text::{
    all_digits, decimal, digit_char, digit_of, join, lemma_concat_assoc, lemma_concat_empty,
    lower, number_value, plain_unsigned_of, spaced, unsigned_of,
};

verus! {

/// A number that is written in decimal is read back as the same number:
/// its text is made of digits, at least one, and stands for the number
/// under every bound that the number keeps.
pub proof fn lemma_decimal_is_read_back(n: nat, max: nat)
    requires
        n <= max,
    ensures
        decimal(n).len() > 0,
        all_digits(decimal(n), 10),
        number_value(decimal(n), 10) == n,
        plain_unsigned_of(decimal(n), 10, max) == Some(n),
        unsigned_of(decimal(n), 10, max) == Some(n),
    decreases n,
{
    if n < 10 {
        let s = seq![digit_char(n)];
        assert(decimal(n) == s);
        assert(s.drop_last() =~= Seq::<char>::empty());
        assert(digit_of(s[0], 10) == Some(n));
        assert(number_value(s.drop_last(), 10) == 0);
    } else {
        lemma_decimal_is_read_back(n / 10, max);
        let head = decimal(n / 10);
        let s = head.push(digit_char(n % 10));
        assert(decimal(n) == s);
        assert(s.drop_last() =~= head);
        assert(digit_of(s.last(), 10) == Some(n % 10));
        assert forall|i: int| 0 <= i < s.len() implies (#[trigger] digit_of(s[i], 10)) is Some by {
            if i < head.len() {
                assert(s[i] == head[i]);
            }
        }
        assert(s[0] == head[0]);
        assert(digit_of(head[0], 10) is Some);
    }
    assert(decimal(n)[0] != '+') by {
        assert(digit_of(decimal(n)[0], 10) is Some);
    }
}

/// The characters of `s` from `i` up to `n` are `text`.
pub open spec fn written_at(s: Seq<char>, i: int, n: int, text: Seq<char>) -> bool {
    0 <= i <= n <= s.len() && s.subrange(i, n) == text
}

/// What is written up to `m` and what is written from `m` on are written
/// one after the other.
pub proof fn lemma_written_next(s: Seq<char>, i: int, m: int, n: int, a: Seq<char>, b: Seq<char>)
    requires
        written_at(s, i, m, a),
        written_at(s, m, n, b),
    ensures
        written_at(s, i, n, a + b),
{
    assert(s.subrange(i, n) =~= s.subrange(i, m) + s.subrange(m, n));
}

/// Nothing is written between a place and itself.
pub proof fn lemma_written_nothing(s: Seq<char>, i: int)
    requires
        0 <= i <= s.len(),
    ensures
        written_at(s, i, i, Seq::empty()),
{
    assert(s.subrange(i, i) =~= Seq::<char>::empty());
}

/// The optional line `<tag>=<text>` at `i` is written as it is read.
pub open spec fn text_line_kept(s: Seq<char>, i: int, tag: char) -> bool {
    written_at(
        s,
        i,
        optional_text_line(s, i, tag).1,
        optional_line(tag, optional_text_line(s, i, tag).0),
    )
}

/// The optional `c=` line at `i` is written as it is read.
pub open spec fn connection_kept(s: Seq<char>, i: int) -> bool {
    written_at(
        s,
        i,
        optional_connection_line(s, i).1,
        connection_text(optional_connection_line(s, i).0),
    )
}

/// Every `b=` line from `i` on is written as it is read.
pub open spec fn bandwidths_kept(s: Seq<char>, i: int) -> bool
    decreases s.len() - i,
{
    match bandwidth_line(s, i) {
        Some((b, n)) => if i < n <= s.len() {
            written_at(s, i, n, bandwidth_line_text(b)) && bandwidths_kept(s, n)
        } else {
            true
        },
        None => true,
    }
}

/// Every `r=` line from `i` on is written as it is read.
pub open spec fn repeats_kept(s: Seq<char>, i: int) -> bool
    decreases s.len() - i,
{
    match repeat_line(s, i) {
        Some((r, n)) => if i < n <= s.len() {
            written_at(s, i, n, r.text()) && repeats_kept(s, n)
        } else {
            true
        },
        None => true,
    }
}

/// Every `a=` line from `i` on is written as it is read.
pub open spec fn attributes_kept(s: Seq<char>, i: int) -> bool
    decreases s.len() - i,
{
    match attribute_at(s, i) {
        Some((a, n)) => if i < n <= s.len() {
            written_at(s, i, n, attribute_line(a.0, a.1)) && attributes_kept(s, n)
        } else {
            true
        },
        None => true,
    }
}

/// Where the `t=` line at `i` ends.
pub open spec fn time_line_end(s: Seq<char>, i: int) -> int {
    let a = token_end(s, i + 2, Until::Field);
    let b = token_end(s, a + 1, Until::Field);
    line_end(s, b)->0
}

/// The time block at `i` is written as it is read: its `t=` line, each of
/// its `r=` lines, and its `z=` line.
pub open spec fn time_block_kept(s: Seq<char>, i: int) -> bool {
    match time_block(s, i) {
        Some((t, n)) => {
            let p = time_line_end(s, i);
            let c = repeat_run(s, p).1;
            written_at(s, i, p, t.time_line_text()) && repeats_kept(s, p) && written_at(
                s,
                c,
                n,
                zone_line_text(t.time_zone_adjustments),
            )
        },
        None => true,
    }
}

/// Every time block from `i` on is written as it is read.
pub open spec fn times_kept(s: Seq<char>, i: int) -> bool
    decreases s.len() - i,
{
    match time_block(s, i) {
        Some((t, n)) => if i < n <= s.len() {
            time_block_kept(s, i) && times_kept(s, n)
        } else {
            true
        },
        None => true,
    }
}

/// Where the `m=` line at `i` ends.
pub open spec fn media_line_end(s: Seq<char>, i: int) -> int {
    let a = token_end(s, i + 2, Until::Field);
    let b = token_end(s, a + 1, Until::Slash);
    let c = token_end(s, b + 1, Until::Field);
    let count = if has_char(s, b, '/') {
        unsigned_of(s.subrange(b + 1, c), 10, 0xffff)
    } else {
        None
    };
    let p = if count is Some {
        c
    } else {
        b
    };
    let d = token_end(s, p + 1, Until::Field);
    line_end(s, spaced_fields(s, d).1)->0
}

/// The media section at `i` is written as it is read: its `m=` line and
/// each of the lines that follow it, with one `b=` line for a kind of
/// bandwidth.
pub open spec fn media_block_kept(s: Seq<char>, i: int) -> bool {
    match media_block(s, i) {
        Some((m, n)) => {
            let q0 = media_line_end(s, i);
            let q1 = optional_text_line(s, q0, 'i').1;
            let q2 = optional_connection_line(s, q1).1;
            let q3 = bandwidth_run(s, q2).1;
            let q4 = optional_text_line(s, q3, 'k').1;
            written_at(s, i, q0, m.media_line()) && text_line_kept(s, q0, 'i') && connection_kept(
                s,
                q1,
            ) && bandwidths_kept(s, q2) && distinct_kinds(bandwidth_run(s, q2).0)
                && text_line_kept(s, q3, 'k') && attributes_kept(s, q4)
        },
        None => true,
    }
}

/// Every media section from `i` on is written as it is read.
pub open spec fn media_kept(s: Seq<char>, i: int) -> bool
    decreases s.len() - i,
{
    match media_block(s, i) {
        Some((m, n)) => if i < n <= s.len() {
            media_block_kept(s, i) && media_kept(s, n)
        } else {
            true
        },
        None => true,
    }
}

/// Every line of the document is written as it is read, and no kind of
/// bandwidth has two `b=` lines in one section.
pub open spec fn lines_kept(d: Seq<char>) -> bool {
    match version_line(d) {
        Some(at0) => written_at(d, 0, at0, "v=0\r\n"@) && match origin_line(d, at0) {
            Some((origin, at1)) => written_at(d, at0, at1, origin.text()) && match name_line(d, at1) {
                Some((name, at2)) => {
                    let q1 = optional_text_line(d, at2, 'i').1;
                    let q2 = optional_text_line(d, q1, 'u').1;
                    let q3 = optional_text_line(d, q2, 'e').1;
                    let q4 = optional_text_line(d, q3, 'p').1;
                    let at3 = optional_connection_line(d, q4).1;
                    let at4 = bandwidth_run(d, at3).1;
                    let at5 = time_run(d, at4).1;
                    let at6 = optional_text_line(d, at5, 'k').1;
                    let at7 = attribute_run(d, at6).1;
                    written_at(d, at1, at2, name_line_text(name)) && text_line_kept(d, at2, 'i')
                        && text_line_kept(d, q1, 'u') && text_line_kept(d, q2, 'e')
                        && text_line_kept(d, q3, 'p') && connection_kept(d, q4) && bandwidths_kept(
                        d,
                        at3,
                    ) && distinct_kinds(bandwidth_run(d, at3).0) && times_kept(d, at4)
                        && text_line_kept(d, at5, 'k') && attributes_kept(d, at6) && media_kept(
                        d,
                        at7,
                    )
                },
                None => true,
            },
            None => true,
        },
        None => true,
    }
}

proof fn lemma_bandwidth_lines_prepend(first: (BandwidthTypeView, u64), rest: Seq<(BandwidthTypeView, u64)>)
    ensures
        bandwidth_lines_text(seq![first] + rest) == bandwidth_line_text(first) + bandwidth_lines_text(rest),
    decreases rest.len(),
{
    let all = seq![first] + rest;
    assert(all.len() == rest.len() + 1);
    if rest.len() == 0 {
        assert(all.last() == first);
        assert(all.drop_last() =~= Seq::<(BandwidthTypeView, u64)>::empty());
        assert(bandwidth_lines_text(all.drop_last()) == Seq::<char>::empty());
        assert(bandwidth_lines_text(all) == Seq::<char>::empty() + bandwidth_line_text(first));
        assert(bandwidth_lines_text(rest) == Seq::<char>::empty());
        lemma_concat_empty(bandwidth_line_text(first));
    } else {
        assert(all.drop_last() =~= seq![first] + rest.drop_last());
        assert(all.last() == rest.last());
        lemma_bandwidth_lines_prepend(first, rest.drop_last());
        assert(bandwidth_lines_text(all) == bandwidth_lines_text(all.drop_last()) + bandwidth_line_text(all.last()));
        assert(bandwidth_lines_text(rest) == bandwidth_lines_text(rest.drop_last()) + bandwidth_line_text(rest.last()));
        lemma_concat_assoc(bandwidth_line_text(first), bandwidth_lines_text(rest.drop_last()), bandwidth_line_text(rest.last()));
    }
}

proof fn lemma_repeat_lines_prepend(first: RepeatTimeView, rest: Seq<RepeatTimeView>)
    ensures
        repeat_lines_text(seq![first] + rest) == first.text() + repeat_lines_text(rest),
    decreases rest.len(),
{
    let all = seq![first] + rest;
    assert(all.len() == rest.len() + 1);
    if rest.len() == 0 {
        assert(all.last() == first);
        assert(all.drop_last() =~= Seq::<RepeatTimeView>::empty());
        assert(repeat_lines_text(all.drop_last()) == Seq::<char>::empty());
        assert(repeat_lines_text(all) == Seq::<char>::empty() + first.text());
        assert(repeat_lines_text(rest) == Seq::<char>::empty());
        lemma_concat_empty(first.text());
    } else {
        assert(all.drop_last() =~= seq![first] + rest.drop_last());
        assert(all.last() == rest.last());
        lemma_repeat_lines_prepend(first, rest.drop_last());
        assert(repeat_lines_text(all) == repeat_lines_text(all.drop_last()) + all.last().text());
        assert(repeat_lines_text(rest) == repeat_lines_text(rest.drop_last()) + rest.last().text());
        lemma_concat_assoc(first.text(), repeat_lines_text(rest.drop_last()), rest.last().text());
    }
}

proof fn lemma_attribute_lines_prepend(first: (Seq<char>, AttributeView), rest: Seq<(Seq<char>, AttributeView)>)
    ensures
        attribute_lines(seq![first] + rest) == attribute_line(first.0, first.1) + attribute_lines(rest),
    decreases rest.len(),
{
    let all = seq![first] + rest;
    assert(all.len() == rest.len() + 1);
    if rest.len() == 0 {
        assert(all.last() == first);
        assert(all.drop_last() =~= Seq::<(Seq<char>, AttributeView)>::empty());
        assert(attribute_lines(all.drop_last()) == Seq::<char>::empty());
        assert(attribute_lines(all) == Seq::<char>::empty() + attribute_line(first.0, first.1));
        assert(attribute_lines(rest) == Seq::<char>::empty());
        lemma_concat_empty(attribute_line(first.0, first.1));
    } else {
        assert(all.drop_last() =~= seq![first] + rest.drop_last());
        assert(all.last() == rest.last());
        lemma_attribute_lines_prepend(first, rest.drop_last());
        assert(attribute_lines(all) == attribute_lines(all.drop_last()) + attribute_line(all.last().0, all.last().1));
        assert(attribute_lines(rest) == attribute_lines(rest.drop_last()) + attribute_line(rest.last().0, rest.last().1));
        lemma_concat_assoc(attribute_line(first.0, first.1), attribute_lines(rest.drop_last()), attribute_line(rest.last().0, rest.last().1));
    }
}

proof fn lemma_time_blocks_prepend(first: TimeView, rest: Seq<TimeView>)
    ensures
        time_blocks_text(seq![first] + rest) == first.text() + time_blocks_text(rest),
    decreases rest.len(),
{
    let all = seq![first] + rest;
    assert(all.len() == rest.len() + 1);
    if rest.len() == 0 {
        assert(all.last() == first);
        assert(all.drop_last() =~= Seq::<TimeView>::empty());
        assert(time_blocks_text(all.drop_last()) == Seq::<char>::empty());
        assert(time_blocks_text(all) == Seq::<char>::empty() + first.text());
        assert(time_blocks_text(rest) == Seq::<char>::empty());
        lemma_concat_empty(first.text());
    } else {
        assert(all.drop_last() =~= seq![first] + rest.drop_last());
        assert(all.last() == rest.last());
        lemma_time_blocks_prepend(first, rest.drop_last());
        assert(time_blocks_text(all) == time_blocks_text(all.drop_last()) + all.last().text());
        assert(time_blocks_text(rest) == time_blocks_text(rest.drop_last()) + rest.last().text());
        lemma_concat_assoc(first.text(), time_blocks_text(rest.drop_last()), rest.last().text());
    }
}

proof fn lemma_media_sections_prepend(first: MediaDescriptionView, rest: Seq<MediaDescriptionView>)
    ensures
        media_sections_text(seq![first] + rest) == first.text() + media_sections_text(rest),
    decreases rest.len(),
{
    let all = seq![first] + rest;
    assert(all.len() == rest.len() + 1);
    if rest.len() == 0 {
        assert(all.last() == first);
        assert(all.drop_last() =~= Seq::<MediaDescriptionView>::empty());
        assert(media_sections_text(all.drop_last()) == Seq::<char>::empty());
        assert(media_sections_text(all) == Seq::<char>::empty() + first.text());
        assert(media_sections_text(rest) == Seq::<char>::empty());
        lemma_concat_empty(first.text());
    } else {
        assert(all.drop_last() =~= seq![first] + rest.drop_last());
        assert(all.last() == rest.last());
        lemma_media_sections_prepend(first, rest.drop_last());
        assert(media_sections_text(all) == media_sections_text(all.drop_last()) + all.last().text());
        assert(media_sections_text(rest) == media_sections_text(rest.drop_last()) + rest.last().text());
        lemma_concat_assoc(first.text(), media_sections_text(rest.drop_last()), rest.last().text());
    }
}

/// Lines of distinct kinds are the bandwidths that they leave.
pub proof fn lemma_distinct_kinds_are_kept(lines: Seq<(BandwidthTypeView, u64)>)
    requires
        distinct_kinds(lines),
    ensures
        collected_bandwidths(lines) == lines,
    decreases lines.len(),
{
    if lines.len() == 0 {
        assert(lines =~= Seq::<(BandwidthTypeView, u64)>::empty());
    } else {
        let head = lines.drop_last();
        assert forall|a: int, b: int| 0 <= a < b < head.len() implies !(#[trigger] head[a]).0.same(
            (#[trigger] head[b]).0,
        ) by {
            assert(head[a] == lines[a]);
            assert(head[b] == lines[b]);
        }
        lemma_distinct_kinds_are_kept(head);
        assert forall|j: int| 0 <= j < head.len() implies !(#[trigger] head[j]).0.same(
            lines.last().0,
        ) by {
            assert(head[j] == lines[j]);
            assert(lines.last() == lines[lines.len() - 1]);
        }
        lemma_put_bandwidth_new(head, lines.last().0, lines.last().1);
        assert(head.push((lines.last().0, lines.last().1)) =~= lines);
    }
}

/// `b=` lines that are written as they are read are, together, what the
/// bandwidths that they give are written as.
pub proof fn lemma_bandwidths_are_written_back(s: Seq<char>, i: int)
    requires
        0 <= i <= s.len(),
        bandwidths_kept(s, i),
    ensures
        written_at(s, i, bandwidth_run(s, i).1, bandwidth_lines_text(bandwidth_run(s, i).0)),
    decreases s.len() - i,
{
    match bandwidth_line(s, i) {
        Some((b, n)) => {
            if i < n <= s.len() {
                lemma_bandwidths_are_written_back(s, n);
                lemma_bandwidth_lines_prepend(b, bandwidth_run(s, n).0);
                lemma_written_next(
                    s,
                    i,
                    n,
                    bandwidth_run(s, n).1,
                    bandwidth_line_text(b),
                    bandwidth_lines_text(bandwidth_run(s, n).0),
                );
            } else {
                lemma_written_nothing(s, i);
            }
        },
        None => {
            lemma_written_nothing(s, i);
        },
    }
}

/// The same for `r=` lines.
pub proof fn lemma_repeats_are_written_back(s: Seq<char>, i: int)
    requires
        0 <= i <= s.len(),
        repeats_kept(s, i),
    ensures
        written_at(s, i, repeat_run(s, i).1, repeat_lines_text(repeat_run(s, i).0)),
    decreases s.len() - i,
{
    match repeat_line(s, i) {
        Some((r, n)) => {
            if i < n <= s.len() {
                lemma_repeats_are_written_back(s, n);
                lemma_repeat_lines_prepend(r, repeat_run(s, n).0);
                lemma_written_next(
                    s,
                    i,
                    n,
                    repeat_run(s, n).1,
                    r.text(),
                    repeat_lines_text(repeat_run(s, n).0),
                );
            } else {
                lemma_written_nothing(s, i);
            }
        },
        None => {
            lemma_written_nothing(s, i);
        },
    }
}

/// The same for `a=` lines.
pub proof fn lemma_attributes_are_written_back(s: Seq<char>, i: int)
    requires
        0 <= i <= s.len(),
        attributes_kept(s, i),
    ensures
        written_at(s, i, attribute_run(s, i).1, attribute_lines(attribute_run(s, i).0)),
    decreases s.len() - i,
{
    match attribute_at(s, i) {
        Some((a, n)) => {
            if i < n <= s.len() {
                lemma_attributes_are_written_back(s, n);
                lemma_attribute_lines_prepend(a, attribute_run(s, n).0);
                lemma_written_next(
                    s,
                    i,
                    n,
                    attribute_run(s, n).1,
                    attribute_line(a.0, a.1),
                    attribute_lines(attribute_run(s, n).0),
                );
            } else {
                lemma_written_nothing(s, i);
            }
        },
        None => {
            lemma_written_nothing(s, i);
        },
    }
}

/// A time block whose lines are written as they are read is written as it
/// is read.
pub proof fn lemma_time_block_is_written_back(s: Seq<char>, i: int)
    requires
        0 <= i <= s.len(),
        time_block(s, i) is Some,
        time_block_kept(s, i),
    ensures
        written_at(s, i, next_of(time_block(s, i)), value_of(time_block(s, i)).text()),
{
    let t = value_of(time_block(s, i));
    let n = next_of(time_block(s, i));
    let p = time_line_end(s, i);
    let c = repeat_run(s, p).1;
    lemma_repeats_are_written_back(s, p);
    assert(t.repeat_times == repeat_run(s, p).0);
    lemma_written_next(s, i, p, c, t.time_line_text(), repeat_lines_text(t.repeat_times));
    lemma_written_next(
        s,
        i,
        c,
        n,
        t.time_line_text() + repeat_lines_text(t.repeat_times),
        zone_line_text(t.time_zone_adjustments),
    );
}

/// The same for all time blocks from `i` on.
pub proof fn lemma_times_are_written_back(s: Seq<char>, i: int)
    requires
        0 <= i <= s.len(),
        times_kept(s, i),
    ensures
        written_at(s, i, time_run(s, i).1, time_blocks_text(time_run(s, i).0)),
    decreases s.len() - i,
{
    match time_block(s, i) {
        Some((t, n)) => {
            if i < n <= s.len() {
                lemma_time_block_is_written_back(s, i);
                lemma_times_are_written_back(s, n);
                lemma_time_blocks_prepend(t, time_run(s, n).0);
                lemma_written_next(
                    s,
                    i,
                    n,
                    time_run(s, n).1,
                    t.text(),
                    time_blocks_text(time_run(s, n).0),
                );
            } else {
                lemma_written_nothing(s, i);
            }
        },
        None => {
            lemma_written_nothing(s, i);
        },
    }
}

/// A media section whose lines are written as they are read is written as
/// it is read.
pub proof fn lemma_media_block_is_written_back(s: Seq<char>, i: int)
    requires
        0 <= i <= s.len(),
        media_block(s, i) is Some,
        media_block_kept(s, i),
    ensures
        written_at(s, i, next_of(media_block(s, i)), value_of(media_block(s, i)).text()),
{
    let m = value_of(media_block(s, i));
    let q0 = media_line_end(s, i);
    let q1 = optional_text_line(s, q0, 'i').1;
    let q2 = optional_connection_line(s, q1).1;
    let q3 = bandwidth_run(s, q2).1;
    let q4 = optional_text_line(s, q3, 'k').1;
    let q5 = attribute_run(s, q4).1;
    assert(q5 == next_of(media_block(s, i)));
    lemma_bandwidths_are_written_back(s, q2);
    lemma_distinct_kinds_are_kept(bandwidth_run(s, q2).0);
    lemma_attributes_are_written_back(s, q4);
    let t1 = m.media_line();
    let t2 = t1 + optional_line('i', m.title);
    let t3 = t2 + connection_text(m.connection);
    let t4 = t3 + bandwidth_lines_text(m.bandwidths);
    let t5 = t4 + optional_line('k', m.encryption_key);
    lemma_written_next(s, i, q0, q1, t1, optional_line('i', m.title));
    lemma_written_next(s, i, q1, q2, t2, connection_text(m.connection));
    lemma_written_next(s, i, q2, q3, t3, bandwidth_lines_text(m.bandwidths));
    lemma_written_next(s, i, q3, q4, t4, optional_line('k', m.encryption_key));
    lemma_written_next(s, i, q4, q5, t5, attribute_lines(m.attributes));
}

/// The same for all media sections from `i` on.
pub proof fn lemma_media_are_written_back(s: Seq<char>, i: int)
    requires
        0 <= i <= s.len(),
        media_kept(s, i),
    ensures
        written_at(s, i, media_run(s, i).1, media_sections_text(media_run(s, i).0)),
    decreases s.len() - i,
{
    match media_block(s, i) {
        Some((m, n)) => {
            if i < n <= s.len() {
                lemma_media_block_is_written_back(s, i);
                lemma_media_are_written_back(s, n);
                lemma_media_sections_prepend(m, media_run(s, n).0);
                lemma_written_next(
                    s,
                    i,
                    n,
                    media_run(s, n).1,
                    m.text(),
                    media_sections_text(media_run(s, n).0),
                );
            } else {
                lemma_written_nothing(s, i);
            }
        },
        None => {
            lemma_written_nothing(s, i);
        },
    }
}

/// Reading a document and writing what was read gives the document back,
/// where each of its lines is written as it is read.
///
/// The lines that are not written as they are read are those that are not
/// in the form in which they are written: a line that ends without a
/// carriage return, a name in upper case, a number with a sign or leading
/// zeros, a time with a unit, a second `b=` line of one kind.
pub proof fn lemma_document_is_written_back(d: Seq<char>)
    requires
        session_grammar(d) is Ok,
        lines_kept(d),
    ensures
        session_grammar(d)->Ok_0.text() == d,
{
    let v = session_grammar(d)->Ok_0;
    let at0 = version_line(d)->0;
    let at1 = next_of(origin_line(d, at0));
    let at2 = next_of(name_line(d, at1));
    let q1 = optional_text_line(d, at2, 'i').1;
    let q2 = optional_text_line(d, q1, 'u').1;
    let q3 = optional_text_line(d, q2, 'e').1;
    let q4 = optional_text_line(d, q3, 'p').1;
    let at3 = optional_connection_line(d, q4).1;
    let at4 = bandwidth_run(d, at3).1;
    let at5 = time_run(d, at4).1;
    let at6 = optional_text_line(d, at5, 'k').1;
    let at7 = attribute_run(d, at6).1;
    let at8 = media_run(d, at7).1;
    assert(at8 == d.len());
    lemma_bandwidths_are_written_back(d, at3);
    lemma_distinct_kinds_are_kept(bandwidth_run(d, at3).0);
    lemma_times_are_written_back(d, at4);
    lemma_attributes_are_written_back(d, at6);
    lemma_media_are_written_back(d, at7);
    let t0 = "v=0\r\n"@;
    let t1 = t0 + v.origin.text();
    let t2 = t1 + name_line_text(v.name);
    let t3 = t2 + optional_line('i', v.information);
    let t4 = t3 + optional_line('u', v.uri);
    let t5 = t4 + optional_line('e', v.email_address);
    let t6 = t5 + optional_line('p', v.phone_number);
    let t7 = t6 + connection_text(v.connection);
    let t8 = t7 + bandwidth_lines_text(v.bandwidths);
    lemma_written_next(d, 0, at0, at1, t0, v.origin.text());
    lemma_written_next(d, 0, at1, at2, t1, name_line_text(v.name));
    lemma_written_next(d, 0, at2, q1, t2, optional_line('i', v.information));
    lemma_written_next(d, 0, q1, q2, t3, optional_line('u', v.uri));
    lemma_written_next(d, 0, q2, q3, t4, optional_line('e', v.email_address));
    lemma_written_next(d, 0, q3, q4, t5, optional_line('p', v.phone_number));
    lemma_written_next(d, 0, q4, at3, t6, connection_text(v.connection));
    lemma_written_next(d, 0, at3, at4, t7, bandwidth_lines_text(v.bandwidths));
    assert(t8 == v.head_text());
    let u1 = t8 + time_blocks_text(v.times);
    let u2 = u1 + optional_line('k', v.encryption_key);
    let u3 = u2 + attribute_lines(v.attributes);
    lemma_written_next(d, 0, at4, at5, t8, time_blocks_text(v.times));
    lemma_written_next(d, 0, at5, at6, u1, optional_line('k', v.encryption_key));
    lemma_written_next(d, 0, at6, at7, u2, attribute_lines(v.attributes));
    lemma_written_next(d, 0, at7, at8, u3, media_sections_text(v.media_descriptions));
    assert(d.subrange(0, d.len() as int) =~= d);
}

/// An attribute whose name has no type of its own is read whatever its
/// value is, and is kept as it was written.
///
/// Take an `a=` line at `i` with a name that is not registered, in a line
/// in which every carriage return is followed by a line feed. Then the
/// line is read, its value is stored as free text under the name in lower
/// case, and where the name was written in lower case and the line ends
/// with a carriage return and a line feed, writing the stored attribute
/// gives exactly the characters that were read.
pub proof fn lemma_unregistered_attribute_is_kept(s: Seq<char>, i: int)
    requires
        0 <= i,
        has_line_tag(s, i, 'a'),
        token_end(s, i + 2, Until::Name) > i + 2,
        !is_registered(lower(s.subrange(i + 2, token_end(s, i + 2, Until::Name)))),
        free_text_ok(s, token_end(s, i + 2, Until::Name)),
    ensures
        attribute_at(s, i) is Some,
        value_of(attribute_at(s, i)).0 == lower(s.subrange(i + 2, token_end(s, i + 2, Until::Name))),
        value_of(attribute_at(s, i)).1 is Unknown,
        i < next_of(attribute_at(s, i)) <= s.len(),
        lower(s.subrange(i + 2, token_end(s, i + 2, Until::Name))) == s.subrange(
            i + 2,
            token_end(s, i + 2, Until::Name),
        ) && has_char(s, next_of(attribute_at(s, i)) - 2, '\r') ==> attribute_line(
            value_of(attribute_at(s, i)).0,
            value_of(attribute_at(s, i)).1,
        ) == s.subrange(i, next_of(attribute_at(s, i))),
{
    let a = token_end(s, i + 2, Until::Name);
    let written = s.subrange(i + 2, a);
    let name = lower(written);
    lemma_token_end_bounds(s, i + 2, Until::Name);
    let e = token_end(s, a + 1, Until::Line);
    reveal(attribute_grammar);
    assert(attribute_grammar(name, s, a) == match opaque_value(s, a) {
        Some((v, n)) => Some((AttributeView::Unknown(v), n)),
        None => None,
    });
    if has_char(s, a, ':') {
        assert(token_end(s, a, Until::Line) == e);
        lemma_token_end_bounds(s, a + 1, Until::Line);
        assert(line_end(s, e) is Some);
        let value = s.subrange(a + 1, e);
        let next = line_end(s, e)->0;
        assert(attribute_at(s, i) == Some(((name, AttributeView::Unknown(Some(value))), next)));
        if name == written && has_char(s, next - 2, '\r') {
            assert(next == e + 2) by {
                if e == s.len() {
                    assert(next == e);
                } else if has_char(s, e, '\n') {
                    assert(next == e + 1);
                    assert(forall|j: int| a + 1 <= j < e ==> !Until::Line.stops(#[trigger] s[j]));
                    if e - 1 >= a + 1 {
                        assert(!Until::Line.stops(s[e - 1]));
                    }
                }
            }
            reveal_strlit("a=");
            reveal_strlit("\r\n");
            let line = attribute_line(name, AttributeView::Unknown(Some(value)));
            assert(line =~= s.subrange(i, next));
        }
    } else {
        assert(token_end(s, a, Until::Line) == a);
        assert(line_end(s, a) is Some);
        let next = line_end(s, a)->0;
        assert(attribute_at(s, i) == Some(((name, AttributeView::Unknown(None)), next)));
        if name == written && has_char(s, next - 2, '\r') {
            assert(next == a + 2) by {
                if a == s.len() {
                    assert(!Until::Name.stops(s[a - 1]));
                } else if has_char(s, a, '\n') {
                    assert(!Until::Name.stops(s[a - 1]));
                }
            }
            reveal_strlit("a=");
            reveal_strlit("\r\n");
            let line = attribute_line(name, AttributeView::Unknown(None));
            assert(line =~= s.subrange(i, next));
        }
    }
}

/// An attribute of any kind is kept as it was written where its name was
/// written in lower case, its line ends with a carriage return and a line
/// feed, and its value is written as it was read.
///
/// For an attribute that is written as its name alone, the line must have
/// been the name alone; for one with a value, what stood between the colon
/// and the end of the line must be what is written for the value.
pub proof fn lemma_attribute_with_its_value_is_kept(s: Seq<char>, i: int)
    requires
        0 <= i,
        attribute_at(s, i) is Some,
        lower(s.subrange(i + 2, token_end(s, i + 2, Until::Name))) == s.subrange(
            i + 2,
            token_end(s, i + 2, Until::Name),
        ),
        next_of(attribute_at(s, i)) >= token_end(s, i + 2, Until::Name) + 2,
        next_of(attribute_at(s, i)) <= s.len(),
        has_char(s, next_of(attribute_at(s, i)) - 2, '\r'),
        has_char(s, next_of(attribute_at(s, i)) - 1, '\n'),
        match value_of(attribute_at(s, i)).1.value() {
            Some(v) => has_char(s, token_end(s, i + 2, Until::Name), ':') && v == s.subrange(
                token_end(s, i + 2, Until::Name) + 1,
                next_of(attribute_at(s, i)) - 2,
            ),
            None => next_of(attribute_at(s, i)) == token_end(s, i + 2, Until::Name) + 2,
        },
    ensures
        written_at(
            s,
            i,
            next_of(attribute_at(s, i)),
            attribute_line(value_of(attribute_at(s, i)).0, value_of(attribute_at(s, i)).1),
        ),
{
    let a = token_end(s, i + 2, Until::Name);
    let n = next_of(attribute_at(s, i));
    let entry = value_of(attribute_at(s, i));
    lemma_token_end_bounds(s, i + 2, Until::Name);
    reveal_strlit("a=");
    reveal_strlit("\r\n");
    assert(entry.0 == s.subrange(i + 2, a));
    assert(attribute_line(entry.0, entry.1) =~= s.subrange(i, n));
}

/// An optional text line is written as it is read where it is missing, and
/// where it ends with a carriage return and a line feed.
pub proof fn lemma_text_line_is_kept(s: Seq<char>, i: int, tag: char)
    requires
        0 <= i <= s.len(),
        text_line(s, i, tag) is Some ==> has_char(
            s,
            token_end(s, i + 2, Until::Line),
            '\r',
        ),
    ensures
        text_line_kept(s, i, tag),
{
    if text_line(s, i, tag) is Some {
        let e = token_end(s, i + 2, Until::Line);
        lemma_token_end_bounds(s, i + 2, Until::Line);
        reveal_strlit("\r\n");
        assert(optional_line(tag, Some(s.subrange(i + 2, e))) =~= s.subrange(i, e + 2));
    } else {
        lemma_written_nothing(s, i);
    }
}

/// The version line is written as it is read where it ends with a carriage
/// return and a line feed.
pub proof fn lemma_version_line_is_kept(d: Seq<char>)
    requires
        version_line(d) is Some,
        has_char(d, 3, '\r'),
    ensures
        written_at(d, 0, version_line(d)->0, "v=0\r\n"@),
{
    reveal_strlit("v=0\r\n");
    assert("v=0\r\n"@ =~= d.subrange(0, 5));
}

/// The name line is written as it is read where it ends with a carriage
/// return and a line feed and does not give the missing name as a space.
pub proof fn lemma_name_line_is_kept(s: Seq<char>, i: int)
    requires
        0 <= i,
        name_line(s, i) is Some,
        has_char(s, token_end(s, i + 2, Until::Line), '\r'),
        s.subrange(i + 2, token_end(s, i + 2, Until::Line)) != seq![' '],
    ensures
        written_at(s, i, next_of(name_line(s, i)), name_line_text(value_of(name_line(s, i)))),
{
    let e = token_end(s, i + 2, Until::Line);
    lemma_token_end_bounds(s, i + 2, Until::Line);
    reveal_strlit("s=");
    reveal_strlit("\r\n");
    assert(name_line_text(value_of(name_line(s, i))) =~= s.subrange(i, e + 2));
}

/// The origin line is written as it is read where its numbers are written
/// in decimal without sign or leading zeros, its network and address types
/// are written as the table has them, and it ends with a carriage return
/// and a line feed.
pub proof fn lemma_origin_line_is_kept(s: Seq<char>, i: int)
    requires
        0 <= i,
        origin_line(s, i) is Some,
        ({
            let v = value_of(origin_line(s, i));
            let a = token_end(s, i + 2, Until::Field);
            let b = token_end(s, a + 1, Until::Field);
            let c = token_end(s, b + 1, Until::Field);
            let d = token_end(s, c + 1, Until::Field);
            let e = token_end(s, d + 1, Until::Field);
            let f = token_end(s, e + 1, Until::Field);
            &&& decimal(v.session_id as nat) == s.subrange(a + 1, b)
            &&& decimal(v.session_version as nat) == s.subrange(b + 1, c)
            &&& v.network_type.text() == s.subrange(c + 1, d)
            &&& v.address_type.text() == s.subrange(d + 1, e)
            &&& has_char(s, f, '\r')
        }),
    ensures
        written_at(s, i, next_of(origin_line(s, i)), value_of(origin_line(s, i)).text()),
{
    let v = value_of(origin_line(s, i));
    let a = token_end(s, i + 2, Until::Field);
    let b = token_end(s, a + 1, Until::Field);
    let c = token_end(s, b + 1, Until::Field);
    let d = token_end(s, c + 1, Until::Field);
    let e = token_end(s, d + 1, Until::Field);
    let f = token_end(s, e + 1, Until::Field);
    lemma_token_end_bounds(s, i + 2, Until::Field);
    lemma_token_end_bounds(s, a + 1, Until::Field);
    lemma_token_end_bounds(s, b + 1, Until::Field);
    lemma_token_end_bounds(s, c + 1, Until::Field);
    lemma_token_end_bounds(s, d + 1, Until::Field);
    lemma_token_end_bounds(s, e + 1, Until::Field);
    reveal_strlit("o=");
    reveal_strlit("\r\n");
    let user = match v.username {
        Some(u) => u,
        None => seq!['-'],
    };
    assert(user == s.subrange(i + 2, a));
    let t1 = "o="@ + user + seq![' '];
    assert(t1 =~= s.subrange(i, a + 1));
    let t2 = t1 + decimal(v.session_id as nat) + seq![' '];
    assert(t2 =~= s.subrange(i, b + 1));
    let t3 = t2 + decimal(v.session_version as nat) + seq![' '];
    assert(t3 =~= s.subrange(i, c + 1));
    let t4 = t3 + v.network_type.text() + seq![' '];
    assert(t4 =~= s.subrange(i, d + 1));
    let t5 = t4 + v.address_type.text() + seq![' '];
    assert(t5 =~= s.subrange(i, e + 1));
    let t6 = t5 + v.unicast_address + "\r\n"@;
    assert(t6 =~= s.subrange(i, f + 2));
    assert(v.text() =~= t6);
}

/// The `c=` line is written as it is read where it is missing, and where
/// its network and address types are written as the table has them and it
/// ends with a carriage return and a line feed.
pub proof fn lemma_connection_line_is_kept(s: Seq<char>, i: int)
    requires
        0 <= i <= s.len(),
        connection_line(s, i) is Some ==> ({
            let v = value_of(connection_line(s, i));
            let a = token_end(s, i + 2, Until::Field);
            let b = token_end(s, a + 1, Until::Field);
            let c = token_end(s, b + 1, Until::Field);
            &&& v.network_type.text() == s.subrange(i + 2, a)
            &&& v.address_type.text() == s.subrange(a + 1, b)
            &&& has_char(s, c, '\r')
        }),
    ensures
        connection_kept(s, i),
{
    if connection_line(s, i) is Some {
        let v = value_of(connection_line(s, i));
        let a = token_end(s, i + 2, Until::Field);
        let b = token_end(s, a + 1, Until::Field);
        let c = token_end(s, b + 1, Until::Field);
        lemma_token_end_bounds(s, i + 2, Until::Field);
        lemma_token_end_bounds(s, a + 1, Until::Field);
        lemma_token_end_bounds(s, b + 1, Until::Field);
        reveal_strlit("c=");
        reveal_strlit("\r\n");
        let t1 = "c="@ + v.network_type.text() + seq![' '];
        assert(t1 =~= s.subrange(i, a + 1));
        let t2 = t1 + v.address_type.text() + seq![' '];
        assert(t2 =~= s.subrange(i, b + 1));
        let t3 = t2 + v.connection_address + "\r\n"@;
        assert(t3 =~= s.subrange(i, c + 2));
        assert(v.text() =~= t3);
    } else {
        lemma_written_nothing(s, i);
    }
}

/// A `b=` line is written as it is read where its kind is written as the
/// table has it, or is not in the table, its number is written in decimal
/// without sign or leading zeros, and it ends with a carriage return and a
/// line feed.
pub proof fn lemma_bandwidth_line_is_kept(s: Seq<char>, i: int)
    requires
        0 <= i,
        bandwidth_line(s, i) is Some,
        ({
            let v = value_of(bandwidth_line(s, i));
            let a = token_end(s, i + 2, Until::Name);
            let b = token_end(s, a + 1, Until::Field);
            &&& v.0.text() == s.subrange(i + 2, a)
            &&& decimal(v.1 as nat) == s.subrange(a + 1, b)
            &&& has_char(s, b, '\r')
        }),
    ensures
        written_at(
            s,
            i,
            next_of(bandwidth_line(s, i)),
            bandwidth_line_text(value_of(bandwidth_line(s, i))),
        ),
{
    let v = value_of(bandwidth_line(s, i));
    let a = token_end(s, i + 2, Until::Name);
    let b = token_end(s, a + 1, Until::Field);
    lemma_token_end_bounds(s, i + 2, Until::Name);
    lemma_token_end_bounds(s, a + 1, Until::Field);
    reveal_strlit("b=");
    reveal_strlit("\r\n");
    let t1 = "b="@ + v.0.text() + seq![':'];
    assert(t1 =~= s.subrange(i, a + 1));
    let t2 = t1 + decimal(v.1 as nat) + "\r\n"@;
    assert(t2 =~= s.subrange(i, b + 2));
    assert(bandwidth_line_text(v) =~= t2);
}

/// A `t=` line is written as it is read where its numbers are written in
/// decimal without sign or leading zeros and it ends with a carriage
/// return and a line feed.
pub proof fn lemma_time_line_is_kept(s: Seq<char>, i: int)
    requires
        0 <= i,
        time_block(s, i) is Some,
        ({
            let v = value_of(time_block(s, i));
            let a = token_end(s, i + 2, Until::Field);
            let b = token_end(s, a + 1, Until::Field);
            &&& decimal(v.start as nat) == s.subrange(i + 2, a)
            &&& decimal(v.stop as nat) == s.subrange(a + 1, b)
            &&& has_char(s, b, '\r')
        }),
    ensures
        written_at(s, i, time_line_end(s, i), value_of(time_block(s, i)).time_line_text()),
{
    let v = value_of(time_block(s, i));
    let a = token_end(s, i + 2, Until::Field);
    let b = token_end(s, a + 1, Until::Field);
    lemma_token_end_bounds(s, i + 2, Until::Field);
    lemma_token_end_bounds(s, a + 1, Until::Field);
    reveal_strlit("t=");
    reveal_strlit("\r\n");
    let t1 = "t="@ + decimal(v.start as nat) + seq![' '];
    assert(t1 =~= s.subrange(i, a + 1));
    let t2 = t1 + decimal(v.stop as nat) + "\r\n"@;
    assert(t2 =~= s.subrange(i, b + 2));
    assert(v.time_line_text() =~= t2);
}

/// Fields that are read with a space in front of each are written, with a
/// space in front of each, as the characters that were read.
pub proof fn lemma_spaced_fields_are_kept(s: Seq<char>, i: int)
    requires
        0 <= i <= s.len(),
    ensures
        written_at(s, i, spaced_fields(s, i).1, spaced(spaced_fields(s, i).0)),
    decreases s.len() - i,
{
    let e = token_end(s, i + 1, Until::Field);
    if has_char(s, i, ' ') && i + 1 < e <= s.len() {
        lemma_spaced_fields_are_kept(s, e);
        let first = s.subrange(i + 1, e);
        let rest = spaced_fields(s, e).0;
        lemma_spaced_prepend(first, rest);
        assert(seq![' '] + first =~= s.subrange(i, e));
        lemma_written_next(s, i, e, spaced_fields(s, e).1, seq![' '] + first, spaced(rest));
    } else {
        lemma_written_nothing(s, i);
    }
}

proof fn lemma_spaced_prepend(first: Seq<char>, rest: Seq<Seq<char>>)
    ensures
        spaced(seq![first] + rest) == (seq![' '] + first) + spaced(rest),
    decreases rest.len(),
{
    let all = seq![first] + rest;
    assert(all.len() == rest.len() + 1);
    if rest.len() == 0 {
        assert(all.last() == first);
        assert(all.drop_last() =~= Seq::<Seq<char>>::empty());
        assert(spaced(all.drop_last()) == Seq::<char>::empty());
        assert(spaced(all) == Seq::<char>::empty() + seq![' '] + first);
        assert(spaced(rest) == Seq::<char>::empty());
        assert(spaced(all) =~= (seq![' '] + first) + spaced(rest));
    } else {
        assert(all.drop_last() =~= seq![first] + rest.drop_last());
        assert(all.last() == rest.last());
        lemma_spaced_prepend(first, rest.drop_last());
        assert(spaced(all) == spaced(all.drop_last()) + seq![' '] + all.last());
        assert(spaced(rest) == spaced(rest.drop_last()) + seq![' '] + rest.last());
        assert(spaced(all) =~= (seq![' '] + first) + spaced(rest));
    }
}

/// Fields with a space in front of each are the fields joined by spaces,
/// with a space in front.
pub proof fn lemma_spaced_is_joined(fields: Seq<Seq<char>>)
    requires
        fields.len() > 0,
    ensures
        spaced(fields) == seq![' '] + join(fields, seq![' ']),
    decreases fields.len(),
{
    if fields.len() == 1 {
        assert(fields.drop_last() =~= Seq::<Seq<char>>::empty());
        assert(spaced(fields.drop_last()) == Seq::<char>::empty());
        assert(fields.last() == fields[0]);
        assert(spaced(fields) =~= seq![' '] + join(fields, seq![' ']));
    } else {
        lemma_spaced_is_joined(fields.drop_last());
        assert(spaced(fields) =~= seq![' '] + join(fields, seq![' ']));
    }
}

/// An `m=` line is written as it is read where its kind and protocol are
/// written as the table has them, or are not in the table, its port and
/// port count are written in decimal without sign or leading zeros, and
/// it ends with a carriage return and a line feed.
#[verifier::rlimit(50)]
pub proof fn lemma_media_line_is_kept(s: Seq<char>, i: int)
    requires
        0 <= i,
        media_block(s, i) is Some,
        ({
            let v = value_of(media_block(s, i));
            let a = token_end(s, i + 2, Until::Field);
            let b = token_end(s, a + 1, Until::Slash);
            let c = token_end(s, b + 1, Until::Field);
            let p = if v.num_ports is Some {
                c
            } else {
                b
            };
            let d = token_end(s, p + 1, Until::Field);
            &&& v.kind.text() == s.subrange(i + 2, a)
            &&& decimal(v.port as nat) == s.subrange(a + 1, b)
            &&& (v.num_ports is Some ==> decimal(v.num_ports->0 as nat) == s.subrange(b + 1, c))
            &&& v.protocol.text() == s.subrange(p + 1, d)
            &&& has_char(s, spaced_fields(s, d).1, '\r')
        }),
    ensures
        written_at(s, i, media_line_end(s, i), value_of(media_block(s, i)).media_line()),
{
    let v = value_of(media_block(s, i));
    let a = token_end(s, i + 2, Until::Field);
    let b = token_end(s, a + 1, Until::Slash);
    let c = token_end(s, b + 1, Until::Field);
    let p = if v.num_ports is Some {
        c
    } else {
        b
    };
    let d = token_end(s, p + 1, Until::Field);
    let e = spaced_fields(s, d).1;
    lemma_token_end_bounds(s, i + 2, Until::Field);
    lemma_token_end_bounds(s, a + 1, Until::Slash);
    lemma_token_end_bounds(s, b + 1, Until::Field);
    lemma_token_end_bounds(s, p + 1, Until::Field);
    lemma_spaced_fields_are_kept(s, d);
    lemma_spaced_is_joined(v.formats);
    let head = "m="@ + v.kind.text() + seq![' '];
    assert(written_at(s, i, a + 1, head)) by {
        reveal_strlit("m=");
        assert(head =~= s.subrange(i, a + 1));
    }
    let count = match v.num_ports {
        Some(n) => seq!['/'] + decimal(n as nat),
        None => Seq::<char>::empty(),
    };
    assert(written_at(s, b, p, count)) by {
        assert(count =~= s.subrange(b, p));
    }
    let protocol = seq![' '] + v.protocol.text();
    assert(written_at(s, p, d, protocol)) by {
        assert(protocol =~= s.subrange(p, d));
    }
    let formats = seq![' '] + join(v.formats, seq![' ']);
    let end = "\r\n"@;
    assert(written_at(s, e, e + 2, end)) by {
        reveal_strlit("\r\n");
        assert(end =~= s.subrange(e, e + 2));
    }
    lemma_written_next(s, i, a + 1, b, head, decimal(v.port as nat));
    lemma_written_next(s, i, b, p, head + decimal(v.port as nat), count);
    lemma_written_next(s, i, p, d, head + decimal(v.port as nat) + count, protocol);
    lemma_written_next(s, i, d, e, head + decimal(v.port as nat) + count + protocol, formats);
    lemma_written_next(
        s,
        i,
        e,
        e + 2,
        head + decimal(v.port as nat) + count + protocol + formats,
        end,
    );
    lemma_media_line_parts(v.kind.text(), decimal(v.port as nat), count, v.protocol.text(), join(v.formats, seq![' ']));
}

proof fn lemma_media_line_parts(
    kind: Seq<char>,
    port: Seq<char>,
    count: Seq<char>,
    protocol: Seq<char>,
    formats: Seq<char>,
)
    ensures
        "m="@ + kind + seq![' '] + port + count + seq![' '] + protocol + seq![' '] + formats
            + "\r\n"@ == ("m="@ + kind + seq![' ']) + port + count + (seq![' '] + protocol) + (
        seq![' '] + formats) + "\r\n"@,
{
    assert("m="@ + kind + seq![' '] + port + count + seq![' '] + protocol + seq![' '] + formats
        + "\r\n"@ =~= ("m="@ + kind + seq![' ']) + port + count + (seq![' '] + protocol) + (seq![
        ' ',
    ] + formats) + "\r\n"@);
}

/// The value of an `rtpmap` attribute is written as it was read where its
/// numbers were written in decimal without sign or leading zeros.
pub proof fn lemma_rtpmap_value_is_kept(s: Seq<char>, i: int)
    requires
        0 <= i,
        RtpMapView::grammar(s, i) is Some,
        ({
            let v = value_of(RtpMapView::grammar(s, i));
            let a = token_end(s, i + 1, Until::Field);
            let b = token_end(s, a + 1, Until::Slash);
            let c = token_end(s, b + 1, Until::Clock);
            let d = token_end(s, c + 1, Until::Field);
            &&& decimal(v.payload as nat) == s.subrange(i + 1, a)
            &&& decimal(v.clock as nat) == s.subrange(b + 1, c)
            &&& (v.channels is Some ==> decimal(v.channels->0 as nat) == s.subrange(c + 1, d))
        }),
    ensures
        ({
            let v = value_of(RtpMapView::grammar(s, i));
            let c = token_end(
                s,
                token_end(s, token_end(s, i + 1, Until::Field) + 1, Until::Slash) + 1,
                Until::Clock,
            );
            let e = if v.channels is Some {
                token_end(s, c + 1, Until::Field)
            } else {
                c
            };
            written_at(s, i + 1, e, v.value())
        }),
{
    let v = value_of(RtpMapView::grammar(s, i));
    let a = token_end(s, i + 1, Until::Field);
    let b = token_end(s, a + 1, Until::Slash);
    let c = token_end(s, b + 1, Until::Clock);
    let d = token_end(s, c + 1, Until::Field);
    let e = if v.channels is Some {
        d
    } else {
        c
    };
    lemma_token_end_bounds(s, i + 1, Until::Field);
    lemma_token_end_bounds(s, a + 1, Until::Slash);
    lemma_token_end_bounds(s, b + 1, Until::Clock);
    if c < s.len() {
        lemma_token_end_bounds(s, c + 1, Until::Field);
    }
    let t1 = decimal(v.payload as nat) + seq![' '];
    assert(t1 =~= s.subrange(i + 1, a + 1));
    let t2 = t1 + v.name + seq!['/'];
    assert(t2 =~= s.subrange(i + 1, b + 1));
    let t3 = t2 + decimal(v.clock as nat);
    assert(t3 =~= s.subrange(i + 1, c));
    let t4 = t3 + match v.channels {
        Some(n) => seq!['/'] + decimal(n as nat),
        None => Seq::empty(),
    };
    assert(t4 =~= s.subrange(i + 1, e));
    assert(v.value() =~= t4);
}

/// The value of an `fmtp` attribute is written as it was read where its
/// payload type was written in decimal without sign or leading zeros.
pub proof fn lemma_fmtp_value_is_kept(s: Seq<char>, i: int)
    requires
        0 <= i,
        FormatParametersView::grammar(s, i) is Some,
        decimal(value_of(FormatParametersView::grammar(s, i)).payload as nat) == s.subrange(
            i + 1,
            token_end(s, i + 1, Until::Field),
        ),
    ensures
        written_at(
            s,
            i + 1,
            token_end(s, token_end(s, i + 1, Until::Field) + 1, Until::Line),
            value_of(FormatParametersView::grammar(s, i)).value(),
        ),
{
    let v = value_of(FormatParametersView::grammar(s, i));
    let a = token_end(s, i + 1, Until::Field);
    let e = token_end(s, a + 1, Until::Line);
    lemma_token_end_bounds(s, i + 1, Until::Field);
    lemma_token_end_bounds(s, a + 1, Until::Line);
    let t1 = decimal(v.payload as nat) + seq![' '];
    assert(t1 =~= s.subrange(i + 1, a + 1));
    assert(v.value() =~= s.subrange(i + 1, e));
}

/// The value of a `group` attribute is written as it was read where its
/// semantics were written as the table has them, or are not in the table.
pub proof fn lemma_group_value_is_kept(s: Seq<char>, i: int)
    requires
        0 <= i,
        GroupView::grammar(s, i) is Some,
        value_of(GroupView::grammar(s, i)).semantics.text() == s.subrange(
            i + 1,
            token_end(s, i + 1, Until::Field),
        ),
    ensures
        written_at(
            s,
            i + 1,
            spaced_fields(s, token_end(s, i + 1, Until::Field)).1,
            value_of(GroupView::grammar(s, i)).value(),
        ),
{
    let v = value_of(GroupView::grammar(s, i));
    let a = token_end(s, i + 1, Until::Field);
    let b = spaced_fields(s, a).1;
    lemma_token_end_bounds(s, i + 1, Until::Field);
    lemma_spaced_fields_are_kept(s, a);
    lemma_spaced_is_joined(v.mids);
    assert(written_at(s, i + 1, a, v.semantics.text()));
    lemma_written_next(s, i + 1, a, b, v.semantics.text(), spaced(v.mids));
    assert(v.value() =~= v.semantics.text() + (seq![' '] + join(v.mids, seq![' '])));
}

/// The value of an `ssrc` attribute is written as it was read where its
/// source was written in decimal without sign or leading zeros.
pub proof fn lemma_ssrc_value_is_kept(s: Seq<char>, i: int)
    requires
        0 <= i,
        SsrcAttributeView::grammar(s, i) is Some,
        decimal(value_of(SsrcAttributeView::grammar(s, i)).ssrc as nat) == s.subrange(
            i + 1,
            token_end(s, i + 1, Until::Field),
        ),
    ensures
        ({
            let v = value_of(SsrcAttributeView::grammar(s, i));
            let b = token_end(s, token_end(s, i + 1, Until::Field) + 1, Until::Colon);
            let e = if v.value is Some {
                token_end(s, b + 1, Until::Line)
            } else {
                b
            };
            written_at(s, i + 1, e, v.value())
        }),
{
    let v = value_of(SsrcAttributeView::grammar(s, i));
    let a = token_end(s, i + 1, Until::Field);
    let b = token_end(s, a + 1, Until::Colon);
    let e = token_end(s, b + 1, Until::Line);
    lemma_token_end_bounds(s, i + 1, Until::Field);
    lemma_token_end_bounds(s, a + 1, Until::Colon);
    let t1 = decimal(v.ssrc as nat) + seq![' '];
    assert(t1 =~= s.subrange(i + 1, a + 1));
    let t2 = t1 + v.name;
    assert(t2 =~= s.subrange(i + 1, b));
    if v.value is Some {
        lemma_token_end_bounds(s, b + 1, Until::Line);
        assert(v.value() =~= s.subrange(i + 1, e));
    } else {
        assert(v.value() =~= t2);
    }
}

/// The value of an `rtcp` attribute is written as it was read where its
/// port was written in decimal without sign or leading zeros and its
/// network and address types as the table has them.
pub proof fn lemma_rtcp_value_is_kept(s: Seq<char>, i: int)
    requires
        0 <= i,
        RtcpView::grammar(s, i) is Some,
        ({
            let v = value_of(RtcpView::grammar(s, i));
            let a = token_end(s, i + 1, Until::Field);
            let b = token_end(s, a + 1, Until::Field);
            let c = token_end(s, b + 1, Until::Field);
            &&& decimal(v.port as nat) == s.subrange(i + 1, a)
            &&& (v.connection_address is Some ==> v.network_type->0.text() == s.subrange(a + 1, b)
                && v.address_type->0.text() == s.subrange(b + 1, c))
        }),
    ensures
        ({
            let v = value_of(RtcpView::grammar(s, i));
            let a = token_end(s, i + 1, Until::Field);
            let c = token_end(s, token_end(s, a + 1, Until::Field) + 1, Until::Field);
            let e = if v.connection_address is Some {
                token_end(s, c + 1, Until::Field)
            } else {
                a
            };
            written_at(s, i + 1, e, v.value())
        }),
{
    let v = value_of(RtcpView::grammar(s, i));
    let a = token_end(s, i + 1, Until::Field);
    let b = token_end(s, a + 1, Until::Field);
    let c = token_end(s, b + 1, Until::Field);
    let d = token_end(s, c + 1, Until::Field);
    lemma_token_end_bounds(s, i + 1, Until::Field);
    if v.connection_address is Some {
        lemma_token_end_bounds(s, a + 1, Until::Field);
        lemma_token_end_bounds(s, b + 1, Until::Field);
        lemma_token_end_bounds(s, c + 1, Until::Field);
        let t1 = decimal(v.port as nat) + seq![' '];
        assert(t1 =~= s.subrange(i + 1, a + 1));
        let t2 = t1 + v.network_type->0.text() + seq![' '];
        assert(t2 =~= s.subrange(i + 1, b + 1));
        let t3 = t2 + v.address_type->0.text() + seq![' '];
        assert(t3 =~= s.subrange(i + 1, c + 1));
        let t4 = t3 + v.connection_address->0;
        assert(t4 =~= s.subrange(i + 1, d));
        assert(v.value() =~= t4);
    } else {
        assert(v.value() =~= s.subrange(i + 1, a));
    }
}

/// The value of an `rtcp-fb` attribute is written as it was read where it
/// started with a payload type in decimal without sign or leading zeros,
/// or with `*`, and a space.
pub proof fn lemma_rtcp_feedback_value_is_kept(s: Seq<char>, i: int)
    requires
        0 <= i,
        RtcpFeedbackView::grammar(s, i) is Some,
        ({
            let v = value_of(RtcpFeedbackView::grammar(s, i));
            let a = token_end(s, i + 1, Until::Field);
            &&& has_char(s, a, ' ')
            &&& match v.payload {
                Some(n) => decimal(n as nat) == s.subrange(i + 1, a),
                None => s.subrange(i + 1, a) == seq!['*'],
            }
        }),
    ensures
        ({
            let v = value_of(RtcpFeedbackView::grammar(s, i));
            let a = token_end(s, i + 1, Until::Field);
            let b = token_end(s, a + 1, Until::Field);
            let e = if v.param is Some {
                token_end(s, b + 1, Until::Field)
            } else {
                b
            };
            written_at(s, i + 1, e, v.value())
        }),
{
    let v = value_of(RtcpFeedbackView::grammar(s, i));
    let a = token_end(s, i + 1, Until::Field);
    let b = token_end(s, a + 1, Until::Field);
    let c = token_end(s, b + 1, Until::Field);
    lemma_token_end_bounds(s, i + 1, Until::Field);
    lemma_token_end_bounds(s, a + 1, Until::Field);
    if b < s.len() {
        lemma_token_end_bounds(s, b + 1, Until::Field);
    }
    assert(a > i + 1);
    let head = match v.payload {
        Some(n) => decimal(n as nat),
        None => seq!['*'],
    };
    assert(head == s.subrange(i + 1, a));
    let t1 = head + seq![' '];
    assert(t1 =~= s.subrange(i + 1, a + 1));
    let t2 = t1 + v.id;
    assert(t2 =~= s.subrange(i + 1, b));
    if v.param is Some {
        assert(v.value() =~= s.subrange(i + 1, c));
    } else {
        assert(v.value() =~= t2);
    }
}

/// The value of an `extmap` attribute is written as it was read where its
/// identifier was written in decimal without sign or leading zeros and
/// its direction as the table has it.
pub proof fn lemma_extmap_value_is_kept(s: Seq<char>, i: int)
    requires
        0 <= i,
        ExtensionMapView::grammar(s, i) is Some,
        ({
            let v = value_of(ExtensionMapView::grammar(s, i));
            let a = token_end(s, i + 1, Until::Slash);
            let b = token_end(s, a + 1, Until::Field);
            &&& decimal(v.id as nat) == s.subrange(i + 1, a)
            &&& (v.direction is Some ==> v.direction->0.text() == s.subrange(a + 1, b))
        }),
    ensures
        ({
            let v = value_of(ExtensionMapView::grammar(s, i));
            let a = token_end(s, i + 1, Until::Slash);
            let p = if v.direction is Some {
                token_end(s, a + 1, Until::Field)
            } else {
                a
            };
            written_at(
                s,
                i + 1,
                spaced_fields(s, token_end(s, p + 1, Until::Field)).1,
                v.value(),
            )
        }),
{
    let v = value_of(ExtensionMapView::grammar(s, i));
    let a = token_end(s, i + 1, Until::Slash);
    let b = token_end(s, a + 1, Until::Field);
    let p = if v.direction is Some {
        b
    } else {
        a
    };
    let c = token_end(s, p + 1, Until::Field);
    let d = spaced_fields(s, c).1;
    lemma_token_end_bounds(s, i + 1, Until::Slash);
    lemma_token_end_bounds(s, a + 1, Until::Field);
    lemma_token_end_bounds(s, p + 1, Until::Field);
    lemma_spaced_fields_are_kept(s, c);
    let t1 = decimal(v.id as nat) + (match v.direction {
        Some(d) => seq!['/'] + d.text(),
        None => Seq::empty(),
    });
    assert(t1 =~= s.subrange(i + 1, p));
    let t2 = t1 + seq![' '] + v.extension;
    assert(t2 =~= s.subrange(i + 1, c));
    assert(written_at(s, i + 1, c, t2));
    lemma_written_next(s, i + 1, c, d, t2, spaced(v.attributes));
    assert(v.value() =~= t2 + spaced(v.attributes));
}

/// The value of an `msid` attribute is always written as it was read.
pub proof fn lemma_msid_value_is_kept(s: Seq<char>, i: int)
    requires
        0 <= i,
        MediaStreamIdView::grammar(s, i) is Some,
    ensures
        ({
            let v = value_of(MediaStreamIdView::grammar(s, i));
            let a = token_end(s, i + 1, Until::Field);
            let e = if v.appdata is Some {
                token_end(s, a + 1, Until::Field)
            } else {
                a
            };
            written_at(s, i + 1, e, v.value())
        }),
{
    let v = value_of(MediaStreamIdView::grammar(s, i));
    let a = token_end(s, i + 1, Until::Field);
    let b = token_end(s, a + 1, Until::Field);
    lemma_token_end_bounds(s, i + 1, Until::Field);
    if a < s.len() {
        lemma_token_end_bounds(s, a + 1, Until::Field);
    }
    if v.appdata is Some {
        assert(v.value() =~= s.subrange(i + 1, b));
    } else {
        assert(v.value() =~= s.subrange(i + 1, a));
    }
}

/// The value of an `msid-semantic` attribute is written as it was read
/// where a space stood after the colon.
pub proof fn lemma_msid_semantic_value_is_kept(s: Seq<char>, i: int)
    requires
        0 <= i,
        MediaStreamIdSemanticView::grammar(s, i) is Some,
        has_char(s, i + 1, ' '),
    ensures
        written_at(
            s,
            i + 1,
            spaced_fields(s, token_end(s, i + 2, Until::Field)).1,
            value_of(MediaStreamIdSemanticView::grammar(s, i)).value(),
        ),
{
    let v = value_of(MediaStreamIdSemanticView::grammar(s, i));
    let a = token_end(s, i + 2, Until::Field);
    let b = spaced_fields(s, a).1;
    lemma_token_end_bounds(s, i + 2, Until::Field);
    lemma_spaced_fields_are_kept(s, a);
    let t1 = seq![' '] + v.semantic;
    assert(t1 =~= s.subrange(i + 1, a));
    assert(written_at(s, i + 1, a, t1));
    lemma_written_next(s, i + 1, a, b, t1, spaced(v.msids));
}

/// The value of a `rid` attribute is written as it was read where its
/// direction was written as the table has it.
pub proof fn lemma_rid_value_is_kept(s: Seq<char>, i: int)
    requires
        0 <= i,
        RidView::grammar(s, i) is Some,
        ({
            let a = token_end(s, i + 1, Until::Field);
            value_of(RidView::grammar(s, i)).direction.text() == s.subrange(
                a + 1,
                token_end(s, a + 1, Until::Field),
            )
        }),
    ensures
        ({
            let v = value_of(RidView::grammar(s, i));
            let b = token_end(s, token_end(s, i + 1, Until::Field) + 1, Until::Field);
            let e = if v.restrictions is Some {
                token_end(s, b + 1, Until::Line)
            } else {
                b
            };
            written_at(s, i + 1, e, v.value())
        }),
{
    let v = value_of(RidView::grammar(s, i));
    let a = token_end(s, i + 1, Until::Field);
    let b = token_end(s, a + 1, Until::Field);
    let e = token_end(s, b + 1, Until::Line);
    lemma_token_end_bounds(s, i + 1, Until::Field);
    lemma_token_end_bounds(s, a + 1, Until::Field);
    let t1 = v.rid + seq![' '];
    assert(t1 =~= s.subrange(i + 1, a + 1));
    let t2 = t1 + v.direction.text();
    assert(t2 =~= s.subrange(i + 1, b));
    if v.restrictions is Some {
        lemma_token_end_bounds(s, b + 1, Until::Line);
        assert(v.value() =~= s.subrange(i + 1, e));
    } else {
        assert(v.value() =~= t2);
    }
}

} // verus!
