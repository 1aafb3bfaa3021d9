//! Session descriptions: the model of a whole document, its grammar and
//! the inverse that writes it.
//!
//! A document is a run of lines, each a letter, `=` and a value, ended by a
//! line feed with or without a carriage return in front, or by the end of
//! the text. Reading stops at the first line that does not fit; writing
//! always ends a line with a carriage return and a line feed.

use vstd::prelude::*;
use crate::attribute_map::{attribute_lines, AttributeMap};
use crate::enums::{
    AddressType, BandwidthType, BandwidthTypeView, MediaType, MediaTypeView, NetworkType,
    TransportProtocol, TransportProtocolView,
};
use crate::lexer::{
    at_char, find_free_text_end, find_token_end, free_text_ok, has_char, line_end, parsed_as,
    next_of, skip_line_end, spaced_fields, take_spaced_fields, token_end, value_of, within, Until,
};
use crate::registry::{
    attribute_grammar, entries_wf, lemma_attribute_grammar_is_well_formed, parse_attribute,
    AttributeView,
};
use crate::text::{
    chars_of, decimal, join, lemma_concat_assoc, lemma_concat_empty, lower, parse_digits, parse_unsigned, plain_unsigned_of,
    push_decimal, push_joined, push_signed_decimal, push_str, signed_decimal, string_of,
    to_lower, unsigned_of,
};

verus! {

/// The `o=` line.
#[derive(Debug)]
pub struct Origin {
    pub username: Option<String>,
    pub session_id: u64,
    pub session_version: u64,
    pub network_type: NetworkType,
    pub address_type: AddressType,
    pub unicast_address: String,
}

pub struct OriginView {
    pub username: Option<Seq<char>>,
    pub session_id: u64,
    pub session_version: u64,
    pub network_type: NetworkType,
    pub address_type: AddressType,
    pub unicast_address: Seq<char>,
}

impl DeepView for Origin {
    type V = OriginView;

    open spec fn deep_view(&self) -> OriginView {
        OriginView {
            username: self.username.deep_view(),
            session_id: self.session_id,
            session_version: self.session_version,
            network_type: self.network_type,
            address_type: self.address_type,
            unicast_address: self.unicast_address@,
        }
    }
}

impl OriginView {
    /// The line that writes the origin; a missing user name is written `-`.
    pub open spec fn text(self) -> Seq<char> {
        "o="@ + (match self.username {
            Some(u) => u,
            None => seq!['-'],
        }) + seq![' '] + decimal(self.session_id as nat) + seq![' '] + decimal(
            self.session_version as nat,
        ) + seq![' '] + self.network_type.text() + seq![' '] + self.address_type.text() + seq![' ']
            + self.unicast_address + "\r\n"@
    }
}

impl Origin {
    pub fn write_to(&self, out: &mut String)
        ensures
            final(out)@ == old(out)@ + self.deep_view().text(),
    {
        push_str(out, "o=");
        match &self.username {
            Some(u) => {
                push_str(out, u.as_str());
            },
            None => {
                out.push('-');
            },
        }
        out.push(' ');
        push_decimal(out, self.session_id);
        out.push(' ');
        push_decimal(out, self.session_version);
        out.push(' ');
        push_str(out, self.network_type.as_str());
        out.push(' ');
        push_str(out, self.address_type.as_str());
        out.push(' ');
        push_str(out, self.unicast_address.as_str());
        push_str(out, "\r\n");
        assert(out@ =~= old(out)@ + self.deep_view().text());
    }

    pub fn to_string(&self) -> (r: String)
        ensures
            r@ == self.deep_view().text(),
    {
        let mut out = String::new();
        self.write_to(&mut out);
        out
    }
}

/// The `c=` line. Only unicast addresses are held.
#[derive(Debug)]
pub struct Connection {
    pub network_type: NetworkType,
    pub address_type: AddressType,
    pub connection_address: String,
}

pub struct ConnectionView {
    pub network_type: NetworkType,
    pub address_type: AddressType,
    pub connection_address: Seq<char>,
}

impl DeepView for Connection {
    type V = ConnectionView;

    open spec fn deep_view(&self) -> ConnectionView {
        ConnectionView {
            network_type: self.network_type,
            address_type: self.address_type,
            connection_address: self.connection_address@,
        }
    }
}

impl ConnectionView {
    pub open spec fn text(self) -> Seq<char> {
        "c="@ + self.network_type.text() + seq![' '] + self.address_type.text() + seq![' ']
            + self.connection_address + "\r\n"@
    }
}

impl Connection {
    pub fn write_to(&self, out: &mut String)
        ensures
            final(out)@ == old(out)@ + self.deep_view().text(),
    {
        push_str(out, "c=");
        push_str(out, self.network_type.as_str());
        out.push(' ');
        push_str(out, self.address_type.as_str());
        out.push(' ');
        push_str(out, self.connection_address.as_str());
        push_str(out, "\r\n");
        assert(out@ =~= old(out)@ + self.deep_view().text());
    }

    pub fn to_string(&self) -> (r: String)
        ensures
            r@ == self.deep_view().text(),
    {
        let mut out = String::new();
        self.write_to(&mut out);
        out
    }
}

/// An `r=` line, with all its fields in seconds.
#[derive(Debug)]
pub struct RepeatTime {
    pub repeat_interval: u64,
    pub active_duration: u64,
    pub offsets: Vec<u64>,
}

pub struct RepeatTimeView {
    pub repeat_interval: u64,
    pub active_duration: u64,
    pub offsets: Seq<u64>,
}

impl DeepView for RepeatTime {
    type V = RepeatTimeView;

    open spec fn deep_view(&self) -> RepeatTimeView {
        RepeatTimeView {
            repeat_interval: self.repeat_interval,
            active_duration: self.active_duration,
            offsets: self.offsets@,
        }
    }
}

/// The numbers in decimal, with a space in front of each.
pub open spec fn spaced_seconds(numbers: Seq<u64>) -> Seq<char>
    decreases numbers.len(),
{
    if numbers.len() == 0 {
        Seq::empty()
    } else {
        spaced_seconds(numbers.drop_last()) + seq![' '] + decimal(numbers.last() as nat)
    }
}

impl RepeatTimeView {
    pub open spec fn text(self) -> Seq<char> {
        "r="@ + decimal(self.repeat_interval as nat) + seq![' '] + decimal(
            self.active_duration as nat,
        ) + spaced_seconds(self.offsets) + "\r\n"@
    }
}

impl RepeatTime {
    pub fn write_to(&self, out: &mut String)
        ensures
            final(out)@ == old(out)@ + self.deep_view().text(),
    {
        push_str(out, "r=");
        push_decimal(out, self.repeat_interval);
        out.push(' ');
        push_decimal(out, self.active_duration);
        let ghost head = out@;
        let mut i: usize = 0;
        assert(self.offsets@.take(0) =~= Seq::<u64>::empty());
        while i < self.offsets.len()
            invariant
                i <= self.offsets.len(),
                out@ == head + spaced_seconds(self.offsets@.take(i as int)),
            decreases self.offsets.len() - i,
        {
            assert(self.offsets@.take(i + 1).drop_last() =~= self.offsets@.take(i as int));
            out.push(' ');
            push_decimal(out, self.offsets[i]);
            assert(out@ =~= head + spaced_seconds(self.offsets@.take(i + 1)));
            i += 1;
        }
        assert(self.offsets@.take(i as int) =~= self.offsets@);
        push_str(out, "\r\n");
        assert(out@ =~= old(out)@ + self.deep_view().text());
    }

    pub fn to_string(&self) -> (r: String)
        ensures
            r@ == self.deep_view().text(),
    {
        let mut out = String::new();
        self.write_to(&mut out);
        out
    }
}

/// One adjustment of a `z=` line, in seconds.
#[derive(Debug, Clone, Copy, PartialEq, Eq, Structural)]
pub struct TimeZoneAdjustment {
    pub adjustment_time: u64,
    pub offset: i64,
}

impl DeepView for TimeZoneAdjustment {
    type V = TimeZoneAdjustment;

    open spec fn deep_view(&self) -> TimeZoneAdjustment {
        *self
    }
}

impl TimeZoneAdjustment {
    pub open spec fn text(self) -> Seq<char> {
        decimal(self.adjustment_time as nat) + seq![' '] + signed_decimal(self.offset as int)
    }

    pub fn write_to(&self, out: &mut String)
        ensures
            final(out)@ == old(out)@ + self.text(),
    {
        push_decimal(out, self.adjustment_time);
        out.push(' ');
        push_signed_decimal(out, self.offset);
        assert(out@ =~= old(out)@ + self.text());
    }

    pub fn to_string(&self) -> (r: String)
        ensures
            r@ == self.text(),
    {
        let mut out = String::new();
        self.write_to(&mut out);
        out
    }
}

/// A `t=` line with the `r=` lines and the `z=` line that follow it.
#[derive(Debug)]
pub struct Time {
    pub start: u64,
    pub stop: u64,
    pub repeat_times: Vec<RepeatTime>,
    pub time_zone_adjustments: Vec<TimeZoneAdjustment>,
}

pub struct TimeView {
    pub start: u64,
    pub stop: u64,
    pub repeat_times: Seq<RepeatTimeView>,
    pub time_zone_adjustments: Seq<TimeZoneAdjustment>,
}

impl DeepView for Time {
    type V = TimeView;

    open spec fn deep_view(&self) -> TimeView {
        TimeView {
            start: self.start,
            stop: self.stop,
            repeat_times: self.repeat_times.deep_view(),
            time_zone_adjustments: self.time_zone_adjustments@,
        }
    }
}

pub open spec fn repeat_lines_text(repeats: Seq<RepeatTimeView>) -> Seq<char>
    decreases repeats.len(),
{
    if repeats.len() == 0 {
        Seq::empty()
    } else {
        repeat_lines_text(repeats.drop_last()) + repeats.last().text()
    }
}

/// The adjustments with a space between neighbours.
pub open spec fn adjustments_text(adjustments: Seq<TimeZoneAdjustment>) -> Seq<char>
    decreases adjustments.len(),
{
    if adjustments.len() == 0 {
        Seq::empty()
    } else if adjustments.len() == 1 {
        adjustments[0].text()
    } else {
        adjustments_text(adjustments.drop_last()) + seq![' '] + adjustments.last().text()
    }
}

/// The `z=` line, which is written where there is an adjustment.
pub open spec fn zone_line_text(adjustments: Seq<TimeZoneAdjustment>) -> Seq<char> {
    if adjustments.len() > 0 {
        "z="@ + adjustments_text(adjustments) + "\r\n"@
    } else {
        Seq::empty()
    }
}

impl TimeView {
    /// The `t=` line.
    pub open spec fn time_line_text(self) -> Seq<char> {
        "t="@ + decimal(self.start as nat) + seq![' '] + decimal(self.stop as nat) + "\r\n"@
    }

    /// The `t=` line, the `r=` lines and the `z=` line.
    pub open spec fn text(self) -> Seq<char> {
        self.time_line_text() + repeat_lines_text(self.repeat_times) + zone_line_text(
            self.time_zone_adjustments,
        )
    }
}

impl Time {
    pub fn write_to(&self, out: &mut String)
        ensures
            final(out)@ == old(out)@ + self.deep_view().text(),
    {
        let ghost v = self.deep_view();
        push_str(out, "t=");
        push_decimal(out, self.start);
        out.push(' ');
        push_decimal(out, self.stop);
        push_str(out, "\r\n");
        let ghost head = old(out)@ + v.time_line_text();
        assert(out@ =~= head);
        let mut i: usize = 0;
        assert(v.repeat_times.take(0) =~= Seq::<RepeatTimeView>::empty());
        while i < self.repeat_times.len()
            invariant
                i <= self.repeat_times.len(),
                v == self.deep_view(),
                out@ == head + repeat_lines_text(v.repeat_times.take(i as int)),
            decreases self.repeat_times.len() - i,
        {
            assert(v.repeat_times.take(i + 1).drop_last() =~= v.repeat_times.take(i as int));
            assert(v.repeat_times.take(i + 1).last() == self.repeat_times@[i as int].deep_view());
            self.repeat_times[i].write_to(out);
            assert(out@ =~= head + repeat_lines_text(v.repeat_times.take(i + 1)));
            i += 1;
        }
        assert(v.repeat_times.take(i as int) =~= v.repeat_times);
        let ghost middle = out@;
        if self.time_zone_adjustments.len() > 0 {
            push_str(out, "z=");
            let ghost start = out@;
            let ghost all = self.time_zone_adjustments@;
            let mut j: usize = 0;
            assert(all.take(0) =~= Seq::<TimeZoneAdjustment>::empty());
            while j < self.time_zone_adjustments.len()
                invariant
                    j <= self.time_zone_adjustments.len(),
                    all == self.time_zone_adjustments@,
                    out@ == start + adjustments_text(all.take(j as int)),
                decreases self.time_zone_adjustments.len() - j,
            {
                assert(all.take(j + 1).drop_last() =~= all.take(j as int));
                if j > 0 {
                    out.push(' ');
                }
                self.time_zone_adjustments[j].write_to(out);
                assert(out@ =~= start + adjustments_text(all.take(j + 1)));
                j += 1;
            }
            assert(all.take(j as int) =~= all);
            push_str(out, "\r\n");
            assert(out@ =~= middle + zone_line_text(all));
        } else {
            assert(out@ =~= middle + zone_line_text(v.time_zone_adjustments));
        }
        proof {
            lemma_concat_assoc(old(out)@, v.time_line_text(), repeat_lines_text(v.repeat_times));
            lemma_concat_assoc(
                old(out)@,
                v.time_line_text() + repeat_lines_text(v.repeat_times),
                zone_line_text(v.time_zone_adjustments),
            );
        }
    }

    pub fn to_string(&self) -> (r: String)
        ensures
            r@ == self.deep_view().text(),
    {
        let mut out = String::new();
        self.write_to(&mut out);
        out
    }
}

/// The line `<tag>=<text>` where the text is there, and nothing where it is
/// not.
pub open spec fn optional_line(tag: char, text: Option<Seq<char>>) -> Seq<char> {
    match text {
        Some(t) => seq![tag, '='] + t + "\r\n"@,
        None => Seq::empty(),
    }
}

pub fn write_optional_line(out: &mut String, tag: char, text: &Option<String>)
    ensures
        final(out)@ == old(out)@ + optional_line(tag, text.deep_view()),
{
    if let Some(t) = text {
        out.push(tag);
        out.push('=');
        push_str(out, t.as_str());
        push_str(out, "\r\n");
    }
    assert(out@ =~= old(out)@ + optional_line(tag, text.deep_view()));
}

/// The bandwidth with the given kind bound to `value`: the first entry of
/// the same kind gets the new value, and without one a new entry goes to
/// the end.
pub open spec fn put_bandwidth(
    entries: Seq<(BandwidthTypeView, u64)>,
    kind: BandwidthTypeView,
    value: u64,
) -> Seq<(BandwidthTypeView, u64)>
    decreases entries.len(),
{
    if entries.len() == 0 {
        seq![(kind, value)]
    } else if entries[0].0.same(kind) {
        seq![(entries[0].0, value)] + entries.skip(1)
    } else {
        seq![entries[0]] + put_bandwidth(entries.skip(1), kind, value)
    }
}

/// The bandwidths that a run of `b=` lines leaves: one entry per kind, a
/// later line overwriting an earlier one of the same kind.
pub open spec fn collected_bandwidths(lines: Seq<(BandwidthTypeView, u64)>) -> Seq<
    (BandwidthTypeView, u64),
>
    decreases lines.len(),
{
    if lines.len() == 0 {
        Seq::empty()
    } else {
        put_bandwidth(collected_bandwidths(lines.drop_last()), lines.last().0, lines.last().1)
    }
}

/// The `b=` line of one bandwidth.
pub open spec fn bandwidth_line_text(entry: (BandwidthTypeView, u64)) -> Seq<char> {
    "b="@ + entry.0.text() + seq![':'] + decimal(entry.1 as nat) + "\r\n"@
}

pub open spec fn bandwidth_lines_text(entries: Seq<(BandwidthTypeView, u64)>) -> Seq<char>
    decreases entries.len(),
{
    if entries.len() == 0 {
        Seq::empty()
    } else {
        bandwidth_lines_text(entries.drop_last()) + bandwidth_line_text(entries.last())
    }
}

/// No two bandwidths are of the same kind.
pub open spec fn distinct_kinds(entries: Seq<(BandwidthTypeView, u64)>) -> bool {
    forall|a: int, b: int|
        0 <= a < b < entries.len() ==> !(#[trigger] entries[a]).0.same((#[trigger] entries[b]).0)
}

/// Binding a kind changes no kind that is there, and adds the kind at the
/// end where no entry is of the same kind.
pub proof fn lemma_put_bandwidth_kinds(
    entries: Seq<(BandwidthTypeView, u64)>,
    kind: BandwidthTypeView,
    value: u64,
)
    ensures
        put_bandwidth(entries, kind, value).len() >= entries.len(),
        forall|j: int|
            0 <= j < entries.len() ==> (#[trigger] put_bandwidth(entries, kind, value)[j]).0
                == entries[j].0,
        put_bandwidth(entries, kind, value).len() == entries.len() || (put_bandwidth(
            entries,
            kind,
            value,
        ) == entries.push((kind, value)) && forall|j: int|
            0 <= j < entries.len() ==> !(#[trigger] entries[j]).0.same(kind)),
    decreases entries.len(),
{
    if entries.len() > 0 && !entries[0].0.same(kind) {
        let rest = entries.skip(1);
        lemma_put_bandwidth_kinds(rest, kind, value);
        let after = put_bandwidth(entries, kind, value);
        assert(after == seq![entries[0]] + put_bandwidth(rest, kind, value));
        assert forall|j: int| 0 <= j < entries.len() implies (#[trigger] after[j]).0
            == entries[j].0 by {
            if j > 0 {
                assert(after[j] == put_bandwidth(rest, kind, value)[j - 1]);
                assert(rest[j - 1] == entries[j]);
            }
        }
        if put_bandwidth(rest, kind, value).len() != rest.len() {
            assert(after =~= entries.push((kind, value)));
            assert forall|j: int| 0 <= j < entries.len() implies !(#[trigger] entries[j]).0.same(
                kind,
            ) by {
                if j > 0 {
                    assert(rest[j - 1] == entries[j]);
                }
            }
        }
    } else if entries.len() == 0 {
        assert(put_bandwidth(entries, kind, value) =~= entries.push((kind, value)));
    }
}

/// The bandwidths that a run of `b=` lines leaves hold every kind once.
pub proof fn lemma_collected_bandwidths_are_distinct(lines: Seq<(BandwidthTypeView, u64)>)
    ensures
        distinct_kinds(collected_bandwidths(lines)),
    decreases lines.len(),
{
    if lines.len() > 0 {
        let head = collected_bandwidths(lines.drop_last());
        lemma_collected_bandwidths_are_distinct(lines.drop_last());
        lemma_put_bandwidth_kinds(head, lines.last().0, lines.last().1);
        let after = put_bandwidth(head, lines.last().0, lines.last().1);
        assert forall|a: int, b: int| 0 <= a < b < after.len() implies !(#[trigger] after[a]).0.same(
            (#[trigger] after[b]).0,
        ) by {
            if b < head.len() {
                assert(after[a].0 == head[a].0);
                assert(after[b].0 == head[b].0);
            } else {
                assert(after == head.push((lines.last().0, lines.last().1)));
                assert(after[a] == head[a]);
            }
        }
    }
}

pub proof fn lemma_put_bandwidth_at(
    entries: Seq<(BandwidthTypeView, u64)>,
    kind: BandwidthTypeView,
    value: u64,
    i: int,
)
    requires
        0 <= i < entries.len(),
        entries[i].0.same(kind),
        forall|j: int| 0 <= j < i ==> !(#[trigger] entries[j]).0.same(kind),
    ensures
        put_bandwidth(entries, kind, value) =~= entries.update(i, (entries[i].0, value)),
    decreases i,
{
    if i > 0 {
        let rest = entries.skip(1);
        assert(rest[i - 1] == entries[i]);
        assert forall|j: int| 0 <= j < i - 1 implies !(#[trigger] rest[j]).0.same(kind) by {
            assert(rest[j] == entries[j + 1]);
        }
        lemma_put_bandwidth_at(rest, kind, value, i - 1);
        assert(!entries[0].0.same(kind));
    }
}

pub proof fn lemma_put_bandwidth_new(
    entries: Seq<(BandwidthTypeView, u64)>,
    kind: BandwidthTypeView,
    value: u64,
)
    requires
        forall|j: int| 0 <= j < entries.len() ==> !(#[trigger] entries[j]).0.same(kind),
    ensures
        put_bandwidth(entries, kind, value) =~= entries.push((kind, value)),
    decreases entries.len(),
{
    if entries.len() > 0 {
        let rest = entries.skip(1);
        assert forall|j: int| 0 <= j < rest.len() implies !(#[trigger] rest[j]).0.same(kind) by {
            assert(rest[j] == entries[j + 1]);
        }
        lemma_put_bandwidth_new(rest, kind, value);
        assert(!entries[0].0.same(kind));
    }
}

/// Binds a kind of bandwidth to a value.
pub fn set_bandwidth(entries: &mut Vec<(BandwidthType, u64)>, kind: BandwidthType, value: u64)
    ensures
        final(entries).deep_view() == put_bandwidth(
            old(entries).deep_view(),
            kind.deep_view(),
            value,
        ),
{
    let ghost views = entries.deep_view();
    let mut i: usize = 0;
    while i < entries.len()
        invariant
            i <= entries.len(),
            views == entries.deep_view(),
            *entries == *old(entries),
            forall|j: int| 0 <= j < i ==> !(#[trigger] views[j]).0.same(kind.deep_view()),
        decreases entries.len() - i,
    {
        assert(views[i as int] == entries@[i as int].deep_view());
        if entries[i].0 == kind {
            proof {
                lemma_put_bandwidth_at(views, kind.deep_view(), value, i as int);
            }
            let kept = entries[i].0.clone();
            entries.set(i, (kept, value));
            assert(entries.deep_view() =~= views.update(i as int, (views[i as int].0, value)));
            return ;
        }
        i += 1;
    }
    proof {
        lemma_put_bandwidth_new(views, kind.deep_view(), value);
    }
    entries.push((kind, value));
    assert(entries.deep_view() =~= views.push((kind.deep_view(), value)));
}

pub fn write_bandwidths(out: &mut String, entries: &Vec<(BandwidthType, u64)>)
    ensures
        final(out)@ == old(out)@ + bandwidth_lines_text(entries.deep_view()),
{
    let ghost views = entries.deep_view();
    let mut i: usize = 0;
    assert(views.take(0) =~= Seq::<(BandwidthTypeView, u64)>::empty());
    while i < entries.len()
        invariant
            i <= entries.len(),
            views == entries.deep_view(),
            out@ == old(out)@ + bandwidth_lines_text(views.take(i as int)),
        decreases entries.len() - i,
    {
        assert(views.take(i + 1).drop_last() =~= views.take(i as int));
        assert(views.take(i + 1).last() == entries@[i as int].deep_view());
        push_str(out, "b=");
        push_str(out, entries[i].0.as_str());
        out.push(':');
        push_decimal(out, entries[i].1);
        push_str(out, "\r\n");
        assert(out@ =~= old(out)@ + bandwidth_lines_text(views.take(i + 1)));
        i += 1;
    }
    assert(views.take(entries.len() as int) =~= views);
}

/// An `m=` line with the lines of its section.
#[derive(Debug)]
pub struct MediaDescription {
    pub kind: MediaType,
    pub port: u16,
    pub num_ports: Option<u16>,
    pub protocol: TransportProtocol,
    pub formats: Vec<String>,
    pub title: Option<String>,
    pub connection: Option<Connection>,
    pub bandwidths: Vec<(BandwidthType, u64)>,
    pub encryption_key: Option<String>,
    pub attributes: AttributeMap,
}

pub struct MediaDescriptionView {
    pub kind: MediaTypeView,
    pub port: u16,
    pub num_ports: Option<u16>,
    pub protocol: TransportProtocolView,
    pub formats: Seq<Seq<char>>,
    pub title: Option<Seq<char>>,
    pub connection: Option<ConnectionView>,
    pub bandwidths: Seq<(BandwidthTypeView, u64)>,
    pub encryption_key: Option<Seq<char>>,
    pub attributes: Seq<(Seq<char>, AttributeView)>,
}

impl DeepView for MediaDescription {
    type V = MediaDescriptionView;

    open spec fn deep_view(&self) -> MediaDescriptionView {
        MediaDescriptionView {
            kind: self.kind.deep_view(),
            port: self.port,
            num_ports: self.num_ports,
            protocol: self.protocol.deep_view(),
            formats: self.formats.deep_view(),
            title: self.title.deep_view(),
            connection: self.connection.deep_view(),
            bandwidths: self.bandwidths.deep_view(),
            encryption_key: self.encryption_key.deep_view(),
            attributes: self.attributes.deep_view(),
        }
    }
}

pub open spec fn connection_text(connection: Option<ConnectionView>) -> Seq<char> {
    match connection {
        Some(c) => c.text(),
        None => Seq::empty(),
    }
}

impl MediaDescriptionView {
    /// A well-formed media section has at least one format, one bandwidth
    /// for a kind, and well-formed attributes.
    pub open spec fn wf(self) -> bool {
        self.formats.len() > 0 && distinct_kinds(self.bandwidths) && entries_wf(self.attributes)
    }

    pub open spec fn media_line(self) -> Seq<char> {
        "m="@ + self.kind.text() + seq![' '] + decimal(self.port as nat) + (match self.num_ports {
            Some(n) => seq!['/'] + decimal(n as nat),
            None => Seq::empty(),
        }) + seq![' '] + self.protocol.text() + seq![' '] + join(self.formats, seq![' '])
            + "\r\n"@
    }

    pub open spec fn text(self) -> Seq<char> {
        self.media_line() + optional_line('i', self.title) + connection_text(self.connection)
            + bandwidth_lines_text(self.bandwidths) + optional_line('k', self.encryption_key)
            + attribute_lines(self.attributes)
    }
}

impl MediaDescription {
    fn write_media_line(&self, out: &mut String)
        ensures
            final(out)@ == old(out)@ + self.deep_view().media_line(),
    {
        let ghost v = self.deep_view();
        let mut line = String::new();
        push_str(&mut line, "m=");
        push_str(&mut line, self.kind.as_str());
        line.push(' ');
        push_decimal(&mut line, self.port as u64);
        if let Some(n) = self.num_ports {
            line.push('/');
            push_decimal(&mut line, n as u64);
        }
        let ghost s1 = "m="@ + v.kind.text() + seq![' '] + decimal(v.port as nat) + (
        match v.num_ports {
            Some(n) => seq!['/'] + decimal(n as nat),
            None => Seq::empty(),
        });
        assert(line@ =~= s1);
        line.push(' ');
        push_str(&mut line, self.protocol.as_str());
        line.push(' ');
        let ghost s2 = s1 + seq![' '] + v.protocol.text() + seq![' '];
        assert(line@ =~= s2);
        push_joined(&mut line, &self.formats, " ");
        push_str(&mut line, "\r\n");
        proof {
            reveal_strlit(" ");
            assert(" "@ =~= seq![' ']);
        }
        push_str(out, line.as_str());
    }

    pub fn write_to(&self, out: &mut String)
        ensures
            final(out)@ == old(out)@ + self.deep_view().text(),
    {
        let ghost v = self.deep_view();
        let ghost start = out@;
        self.write_media_line(out);
        let ghost t1 = v.media_line();
        write_optional_line(out, 'i', &self.title);
        let ghost t2 = t1 + optional_line('i', v.title);
        proof {
            lemma_concat_assoc(start, t1, optional_line('i', v.title));
        }
        match &self.connection {
            Some(c) => {
                c.write_to(out);
            },
            None => {
                proof {
                    lemma_concat_empty(out@);
                }
            },
        }
        let ghost t3 = t2 + connection_text(v.connection);
        proof {
            lemma_concat_assoc(start, t2, connection_text(v.connection));
        }
        assert(out@ == start + t3);
        write_bandwidths(out, &self.bandwidths);
        let ghost t4 = t3 + bandwidth_lines_text(v.bandwidths);
        proof {
            lemma_concat_assoc(start, t3, bandwidth_lines_text(v.bandwidths));
        }
        write_optional_line(out, 'k', &self.encryption_key);
        let ghost t5 = t4 + optional_line('k', v.encryption_key);
        proof {
            lemma_concat_assoc(start, t4, optional_line('k', v.encryption_key));
        }
        self.attributes.write_to(out);
        proof {
            lemma_concat_assoc(start, t5, attribute_lines(v.attributes));
        }
    }

    pub fn to_string(&self) -> (r: String)
        ensures
            r@ == self.deep_view().text(),
    {
        let mut out = String::new();
        self.write_to(&mut out);
        proof {
            lemma_concat_empty(self.deep_view().text());
        }
        out
    }
}

/// A whole session description.
#[derive(Debug)]
pub struct Session {
    pub origin: Origin,
    pub name: Option<String>,
    pub information: Option<String>,
    pub uri: Option<String>,
    pub email_address: Option<String>,
    pub phone_number: Option<String>,
    pub connection: Option<Connection>,
    pub bandwidths: Vec<(BandwidthType, u64)>,
    pub times: Vec<Time>,
    pub encryption_key: Option<String>,
    pub attributes: AttributeMap,
    pub media_descriptions: Vec<MediaDescription>,
}

pub struct SessionView {
    pub origin: OriginView,
    pub name: Option<Seq<char>>,
    pub information: Option<Seq<char>>,
    pub uri: Option<Seq<char>>,
    pub email_address: Option<Seq<char>>,
    pub phone_number: Option<Seq<char>>,
    pub connection: Option<ConnectionView>,
    pub bandwidths: Seq<(BandwidthTypeView, u64)>,
    pub times: Seq<TimeView>,
    pub encryption_key: Option<Seq<char>>,
    pub attributes: Seq<(Seq<char>, AttributeView)>,
    pub media_descriptions: Seq<MediaDescriptionView>,
}

impl DeepView for Session {
    type V = SessionView;

    open spec fn deep_view(&self) -> SessionView {
        SessionView {
            origin: self.origin.deep_view(),
            name: self.name.deep_view(),
            information: self.information.deep_view(),
            uri: self.uri.deep_view(),
            email_address: self.email_address.deep_view(),
            phone_number: self.phone_number.deep_view(),
            connection: self.connection.deep_view(),
            bandwidths: self.bandwidths.deep_view(),
            times: self.times.deep_view(),
            encryption_key: self.encryption_key.deep_view(),
            attributes: self.attributes.deep_view(),
            media_descriptions: self.media_descriptions.deep_view(),
        }
    }
}

pub open spec fn time_blocks_text(times: Seq<TimeView>) -> Seq<char>
    decreases times.len(),
{
    if times.len() == 0 {
        Seq::empty()
    } else {
        time_blocks_text(times.drop_last()) + times.last().text()
    }
}

pub open spec fn media_sections_text(sections: Seq<MediaDescriptionView>) -> Seq<char>
    decreases sections.len(),
{
    if sections.len() == 0 {
        Seq::empty()
    } else {
        media_sections_text(sections.drop_last()) + sections.last().text()
    }
}

/// The `s=` line; a missing name is written `-`.
pub open spec fn name_line_text(name: Option<Seq<char>>) -> Seq<char> {
    "s="@ + (match name {
        Some(n) => n,
        None => seq!['-'],
    }) + "\r\n"@
}

impl SessionView {
    /// A well-formed session has at least one time block, one bandwidth
    /// for a kind, well-formed attributes and well-formed media sections.
    pub open spec fn wf(self) -> bool {
        &&& self.times.len() > 0
        &&& distinct_kinds(self.bandwidths)
        &&& entries_wf(self.attributes)
        &&& forall|k: int|
            0 <= k < self.media_descriptions.len() ==> (
            #[trigger] self.media_descriptions[k]).wf()
    }

    /// The lines before the time blocks.
    pub open spec fn head_text(self) -> Seq<char> {
        "v=0\r\n"@ + self.origin.text() + name_line_text(self.name) + optional_line(
            'i',
            self.information,
        ) + optional_line('u', self.uri)
            + optional_line('e', self.email_address) + optional_line('p', self.phone_number)
            + connection_text(self.connection) + bandwidth_lines_text(self.bandwidths)
    }

    /// The whole document, its lines in their fixed order.
    pub open spec fn text(self) -> Seq<char> {
        self.head_text() + time_blocks_text(self.times) + optional_line('k', self.encryption_key)
            + attribute_lines(self.attributes) + media_sections_text(self.media_descriptions)
    }
}

pub fn write_time_blocks(out: &mut String, times: &Vec<Time>)
    ensures
        final(out)@ == old(out)@ + time_blocks_text(times.deep_view()),
{
    let ghost views = times.deep_view();
    let mut i: usize = 0;
    assert(views.take(0) =~= Seq::<TimeView>::empty());
    proof {
        lemma_concat_empty(out@);
    }
    while i < times.len()
        invariant
            i <= times.len(),
            views == times.deep_view(),
            out@ == old(out)@ + time_blocks_text(views.take(i as int)),
        decreases times.len() - i,
    {
        assert(views.take(i + 1).drop_last() =~= views.take(i as int));
        assert(views.take(i + 1).last() == times@[i as int].deep_view());
        times[i].write_to(out);
        proof {
            lemma_concat_assoc(
                old(out)@,
                time_blocks_text(views.take(i as int)),
                views[i as int].text(),
            );
        }
        i += 1;
    }
    assert(views.take(i as int) =~= views);
}

pub fn write_media_sections(out: &mut String, sections: &Vec<MediaDescription>)
    ensures
        final(out)@ == old(out)@ + media_sections_text(sections.deep_view()),
{
    let ghost views = sections.deep_view();
    let mut i: usize = 0;
    assert(views.take(0) =~= Seq::<MediaDescriptionView>::empty());
    proof {
        lemma_concat_empty(out@);
    }
    while i < sections.len()
        invariant
            i <= sections.len(),
            views == sections.deep_view(),
            out@ == old(out)@ + media_sections_text(views.take(i as int)),
        decreases sections.len() - i,
    {
        assert(views.take(i + 1).drop_last() =~= views.take(i as int));
        assert(views.take(i + 1).last() == sections@[i as int].deep_view());
        sections[i].write_to(out);
        proof {
            lemma_concat_assoc(
                old(out)@,
                media_sections_text(views.take(i as int)),
                views[i as int].text(),
            );
        }
        i += 1;
    }
    assert(views.take(i as int) =~= views);
}

impl Session {
    fn write_head(&self, out: &mut String)
        ensures
            final(out)@ == old(out)@ + self.deep_view().head_text(),
    {
        let ghost v = self.deep_view();
        let ghost start = out@;
        push_str(out, "v=0\r\n");
        let ghost t0 = "v=0\r\n"@;
        self.origin.write_to(out);
        let ghost t1 = t0 + v.origin.text();
        proof {
            lemma_concat_assoc(start, t0, v.origin.text());
        }
        let mut line = String::new();
        push_str(&mut line, "s=");
        match &self.name {
            Some(n) => {
                push_str(&mut line, n.as_str());
            },
            None => {
                line.push('-');
            },
        }
        push_str(&mut line, "\r\n");
        let ghost name_line = name_line_text(v.name);
        assert(line@ =~= name_line);
        push_str(out, line.as_str());
        let ghost t2 = t1 + name_line;
        proof {
            lemma_concat_assoc(start, t1, name_line);
        }
        write_optional_line(out, 'i', &self.information);
        let ghost t3 = t2 + optional_line('i', v.information);
        proof {
            lemma_concat_assoc(start, t2, optional_line('i', v.information));
        }
        write_optional_line(out, 'u', &self.uri);
        let ghost t4 = t3 + optional_line('u', v.uri);
        proof {
            lemma_concat_assoc(start, t3, optional_line('u', v.uri));
        }
        write_optional_line(out, 'e', &self.email_address);
        let ghost t5 = t4 + optional_line('e', v.email_address);
        proof {
            lemma_concat_assoc(start, t4, optional_line('e', v.email_address));
        }
        write_optional_line(out, 'p', &self.phone_number);
        let ghost t6 = t5 + optional_line('p', v.phone_number);
        proof {
            lemma_concat_assoc(start, t5, optional_line('p', v.phone_number));
        }
        match &self.connection {
            Some(c) => {
                c.write_to(out);
            },
            None => {
                proof {
                    lemma_concat_empty(out@);
                }
            },
        }
        let ghost t7 = t6 + connection_text(v.connection);
        proof {
            lemma_concat_assoc(start, t6, connection_text(v.connection));
        }
        assert(out@ == start + t7);
        write_bandwidths(out, &self.bandwidths);
        proof {
            lemma_concat_assoc(start, t7, bandwidth_lines_text(v.bandwidths));
        }
    }

    pub fn write_to(&self, out: &mut String)
        ensures
            final(out)@ == old(out)@ + self.deep_view().text(),
    {
        let ghost v = self.deep_view();
        let ghost start = out@;
        self.write_head(out);
        let ghost t1 = v.head_text();
        write_time_blocks(out, &self.times);
        let ghost t2 = t1 + time_blocks_text(v.times);
        proof {
            lemma_concat_assoc(start, t1, time_blocks_text(v.times));
        }
        write_optional_line(out, 'k', &self.encryption_key);
        let ghost t3 = t2 + optional_line('k', v.encryption_key);
        proof {
            lemma_concat_assoc(start, t2, optional_line('k', v.encryption_key));
        }
        self.attributes.write_to(out);
        let ghost t4 = t3 + attribute_lines(v.attributes);
        proof {
            lemma_concat_assoc(start, t3, attribute_lines(v.attributes));
        }
        write_media_sections(out, &self.media_descriptions);
        proof {
            lemma_concat_assoc(start, t4, media_sections_text(v.media_descriptions));
        }
    }

    /// The document as text.
    pub fn to_string(&self) -> (r: String)
        ensures
            r@ == self.deep_view().text(),
    {
        let mut out = String::new();
        self.write_to(&mut out);
        proof {
            lemma_concat_empty(self.deep_view().text());
        }
        out
    }
}

/// The letter `tag` and `=` stand at `i`.
pub open spec fn has_line_tag(s: Seq<char>, i: int, tag: char) -> bool {
    has_char(s, i, tag) && has_char(s, i + 1, '=')
}

/// A parser that succeeded moved forward.
pub open spec fn advanced<T>(r: Option<(T, usize)>, pos: usize) -> bool {
    match r {
        Some((_, n)) => pos < n,
        None => true,
    }
}

pub fn at_line_tag(input: &Vec<char>, pos: usize, tag: char) -> (r: bool)
    ensures
        r == has_line_tag(input@, pos as int, tag),
        r ==> pos + 2 <= input.len(),
{
    pos < input.len() && input[pos] == tag && pos + 1 < input.len() && input[pos + 1] == '='
}

/// A line `<tag>=<free text>`: the text and the position after the line.
pub open spec fn text_line(s: Seq<char>, i: int, tag: char) -> Option<(Seq<char>, int)> {
    let e = token_end(s, i + 2, Until::Line);
    if has_line_tag(s, i, tag) && free_text_ok(s, i + 2) {
        Some((s.subrange(i + 2, e), line_end(s, e)->0))
    } else {
        None
    }
}

/// A line that may be missing: without it the position stays.
pub open spec fn optional_text_line(s: Seq<char>, i: int, tag: char) -> (Option<Seq<char>>, int) {
    match text_line(s, i, tag) {
        Some((t, n)) => (Some(t), n),
        None => (None, i),
    }
}

pub fn parse_text_line(input: &Vec<char>, pos: usize, tag: char) -> (r: Option<(String, usize)>)
    requires
        pos <= input.len(),
    ensures
        parsed_as(r, text_line(input@, pos as int, tag)),
        within(r, pos, input@.len()),
        advanced(r, pos),
{
    if !at_line_tag(input, pos, tag) {
        return None;
    }
    let e = find_free_text_end(input, pos + 2)?;
    let next = skip_line_end(input, e)?;
    Some((string_of(input, pos + 2, e), next))
}

pub fn parse_optional_text_line(input: &Vec<char>, pos: usize, tag: char) -> (r: (
    Option<String>,
    usize,
))
    requires
        pos <= input.len(),
    ensures
        r.0.deep_view() == optional_text_line(input@, pos as int, tag).0,
        r.1 == optional_text_line(input@, pos as int, tag).1,
        pos <= r.1 <= input.len(),
{
    match parse_text_line(input, pos, tag) {
        Some((t, n)) => (Some(t), n),
        None => (None, pos),
    }
}

/// The `o=` line: six fields with single spaces between them. A user name
/// of `-` stands for none.
pub open spec fn origin_line(s: Seq<char>, i: int) -> Option<(OriginView, int)> {
    let a = token_end(s, i + 2, Until::Field);
    let b = token_end(s, a + 1, Until::Field);
    let id = unsigned_of(s.subrange(a + 1, b), 10, 0xffff_ffff_ffff_ffff);
    let c = token_end(s, b + 1, Until::Field);
    let version = unsigned_of(s.subrange(b + 1, c), 10, 0xffff_ffff_ffff_ffff);
    let d = token_end(s, c + 1, Until::Field);
    let network = NetworkType::of(s.subrange(c + 1, d));
    let e = token_end(s, d + 1, Until::Field);
    let family = AddressType::of(s.subrange(d + 1, e));
    let f = token_end(s, e + 1, Until::Field);
    if has_line_tag(s, i, 'o') && a > i + 2 && has_char(s, a, ' ') && id is Some && has_char(
        s,
        b,
        ' ',
    ) && version is Some && has_char(s, c, ' ') && d > c + 1 && network is Some && has_char(
        s,
        d,
        ' ',
    ) && e > d + 1 && family is Some && has_char(s, e, ' ') && f > e + 1 && line_end(s, f)
        is Some {
        Some(
            (
                OriginView {
                    username: if s.subrange(i + 2, a) == seq!['-'] {
                        None
                    } else {
                        Some(s.subrange(i + 2, a))
                    },
                    session_id: id->0 as u64,
                    session_version: version->0 as u64,
                    network_type: network->0,
                    address_type: family->0,
                    unicast_address: s.subrange(e + 1, f),
                },
                line_end(s, f)->0,
            ),
        )
    } else {
        None
    }
}

/// The text `input[from..to]` is the single character `c`.
pub fn is_single(input: &Vec<char>, from: usize, to: usize, c: char) -> (r: bool)
    requires
        from <= to <= input.len(),
    ensures
        r == (input@.subrange(from as int, to as int) == seq![c]),
{
    let r = to - from == 1 && input[from] == c;
    proof {
        let part = input@.subrange(from as int, to as int);
        if r {
            assert(part =~= seq![c]);
        } else if to - from == 1 {
            assert(part[0] != seq![c][0]);
        } else {
            assert(part.len() != seq![c].len());
        }
    }
    r
}

pub fn parse_origin_line(input: &Vec<char>, pos: usize) -> (r: Option<(Origin, usize)>)
    requires
        pos <= input.len(),
    ensures
        parsed_as(r, origin_line(input@, pos as int)),
        within(r, pos, input@.len()),
        advanced(r, pos),
{
    if !at_line_tag(input, pos, 'o') {
        return None;
    }
    let a = find_token_end(input, pos + 2, Until::Field);
    if a == pos + 2 || !at_char(input, a, ' ') {
        return None;
    }
    let b = find_token_end(input, a + 1, Until::Field);
    let id = parse_unsigned(input, a + 1, b, 10, 0xffff_ffff_ffff_ffff)?;
    if !at_char(input, b, ' ') {
        return None;
    }
    let c = find_token_end(input, b + 1, Until::Field);
    let version = parse_unsigned(input, b + 1, c, 10, 0xffff_ffff_ffff_ffff)?;
    if !at_char(input, c, ' ') {
        return None;
    }
    let d = find_token_end(input, c + 1, Until::Field);
    if d == c + 1 || !at_char(input, d, ' ') {
        return None;
    }
    let e = find_token_end(input, d + 1, Until::Field);
    if e == d + 1 || !at_char(input, e, ' ') {
        return None;
    }
    let f = find_token_end(input, e + 1, Until::Field);
    if f == e + 1 {
        return None;
    }
    let next = skip_line_end(input, f)?;
    let network = match NetworkType::from_str(string_of(input, c + 1, d).as_str()) {
        Ok(v) => v,
        Err(_) => {
            return None;
        },
    };
    let family = match AddressType::from_str(string_of(input, d + 1, e).as_str()) {
        Ok(v) => v,
        Err(_) => {
            return None;
        },
    };
    let username = if is_single(input, pos + 2, a, '-') {
        None
    } else {
        Some(string_of(input, pos + 2, a))
    };
    Some(
        (
            Origin {
                username,
                session_id: id,
                session_version: version,
                network_type: network,
                address_type: family,
                unicast_address: string_of(input, e + 1, f),
            },
            next,
        ),
    )
}

/// The `s=` line: free text, where a single space or `-` stands for no
/// name.
pub open spec fn name_line(s: Seq<char>, i: int) -> Option<(Option<Seq<char>>, int)> {
    match text_line(s, i, 's') {
        Some((t, n)) => Some(
            (
                if t == seq![' '] || t == seq!['-'] {
                    None
                } else {
                    Some(t)
                },
                n,
            ),
        ),
        None => None,
    }
}

pub fn parse_name_line(input: &Vec<char>, pos: usize) -> (r: Option<(Option<String>, usize)>)
    requires
        pos <= input.len(),
    ensures
        parsed_as(r, name_line(input@, pos as int)),
        within(r, pos, input@.len()),
        advanced(r, pos),
{
    if !at_line_tag(input, pos, 's') {
        return None;
    }
    let e = find_free_text_end(input, pos + 2)?;
    let next = skip_line_end(input, e)?;
    let name = if is_single(input, pos + 2, e, ' ') || is_single(input, pos + 2, e, '-') {
        None
    } else {
        Some(string_of(input, pos + 2, e))
    };
    Some((name, next))
}

/// The `c=` line: network type, address type and address.
pub open spec fn connection_line(s: Seq<char>, i: int) -> Option<(ConnectionView, int)> {
    let a = token_end(s, i + 2, Until::Field);
    let network = NetworkType::of(s.subrange(i + 2, a));
    let b = token_end(s, a + 1, Until::Field);
    let family = AddressType::of(s.subrange(a + 1, b));
    let c = token_end(s, b + 1, Until::Field);
    if has_line_tag(s, i, 'c') && a > i + 2 && network is Some && has_char(s, a, ' ') && b > a + 1
        && family is Some && has_char(s, b, ' ') && c > b + 1 && line_end(s, c) is Some {
        Some(
            (
                ConnectionView {
                    network_type: network->0,
                    address_type: family->0,
                    connection_address: s.subrange(b + 1, c),
                },
                line_end(s, c)->0,
            ),
        )
    } else {
        None
    }
}

pub open spec fn optional_connection_line(s: Seq<char>, i: int) -> (Option<ConnectionView>, int) {
    match connection_line(s, i) {
        Some((c, n)) => (Some(c), n),
        None => (None, i),
    }
}

pub fn parse_connection_line(input: &Vec<char>, pos: usize) -> (r: Option<(Connection, usize)>)
    requires
        pos <= input.len(),
    ensures
        parsed_as(r, connection_line(input@, pos as int)),
        within(r, pos, input@.len()),
        advanced(r, pos),
{
    if !at_line_tag(input, pos, 'c') {
        return None;
    }
    let a = find_token_end(input, pos + 2, Until::Field);
    if a == pos + 2 || !at_char(input, a, ' ') {
        return None;
    }
    let b = find_token_end(input, a + 1, Until::Field);
    if b == a + 1 || !at_char(input, b, ' ') {
        return None;
    }
    let c = find_token_end(input, b + 1, Until::Field);
    if c == b + 1 {
        return None;
    }
    let next = skip_line_end(input, c)?;
    let network = match NetworkType::from_str(string_of(input, pos + 2, a).as_str()) {
        Ok(v) => v,
        Err(_) => {
            return None;
        },
    };
    let family = match AddressType::from_str(string_of(input, a + 1, b).as_str()) {
        Ok(v) => v,
        Err(_) => {
            return None;
        },
    };
    Some(
        (
            Connection {
                network_type: network,
                address_type: family,
                connection_address: string_of(input, b + 1, c),
            },
            next,
        ),
    )
}

pub fn parse_optional_connection_line(input: &Vec<char>, pos: usize) -> (r: (
    Option<Connection>,
    usize,
))
    requires
        pos <= input.len(),
    ensures
        r.0.deep_view() == optional_connection_line(input@, pos as int).0,
        r.1 == optional_connection_line(input@, pos as int).1,
        pos <= r.1 <= input.len(),
{
    match parse_connection_line(input, pos) {
        Some((c, n)) => (Some(c), n),
        None => (None, pos),
    }
}

/// A `b=` line: a kind, a colon and a number.
pub open spec fn bandwidth_line(s: Seq<char>, i: int) -> Option<((BandwidthTypeView, u64), int)> {
    let a = token_end(s, i + 2, Until::Name);
    let b = token_end(s, a + 1, Until::Field);
    let value = unsigned_of(s.subrange(a + 1, b), 10, 0xffff_ffff_ffff_ffff);
    if has_line_tag(s, i, 'b') && a > i + 2 && has_char(s, a, ':') && value is Some && line_end(
        s,
        b,
    ) is Some {
        Some(((BandwidthTypeView::of(s.subrange(i + 2, a)), value->0 as u64), line_end(s, b)->0))
    } else {
        None
    }
}

/// The `b=` lines from `i` on, as they are written, and the position after
/// the last of them.
pub open spec fn bandwidth_run(s: Seq<char>, i: int) -> (Seq<(BandwidthTypeView, u64)>, int)
    decreases s.len() - i,
{
    match bandwidth_line(s, i) {
        Some((b, n)) => if i < n <= s.len() {
            let (rest, m) = bandwidth_run(s, n);
            (seq![b] + rest, m)
        } else {
            (Seq::empty(), i)
        },
        None => (Seq::empty(), i),
    }
}

pub fn parse_bandwidth_line(input: &Vec<char>, pos: usize) -> (r: Option<
    ((BandwidthType, u64), usize),
>)
    requires
        pos <= input.len(),
    ensures
        parsed_as(r, bandwidth_line(input@, pos as int)),
        within(r, pos, input@.len()),
        advanced(r, pos),
{
    if !at_line_tag(input, pos, 'b') {
        return None;
    }
    let a = find_token_end(input, pos + 2, Until::Name);
    if a == pos + 2 || !at_char(input, a, ':') {
        return None;
    }
    let b = find_token_end(input, a + 1, Until::Field);
    let value = parse_unsigned(input, a + 1, b, 10, 0xffff_ffff_ffff_ffff)?;
    let next = skip_line_end(input, b)?;
    match BandwidthType::from_str(string_of(input, pos + 2, a).as_str()) {
        Ok(kind) => Some(((kind, value), next)),
        Err(_) => None,
    }
}

/// Reads the `b=` lines from `pos` on into a map with one entry per kind.
pub fn parse_bandwidths(input: &Vec<char>, pos: usize) -> (r: (Vec<(BandwidthType, u64)>, usize))
    requires
        pos <= input.len(),
    ensures
        r.0.deep_view() == collected_bandwidths(bandwidth_run(input@, pos as int).0),
        r.1 == bandwidth_run(input@, pos as int).1,
        pos <= r.1 <= input.len(),
{
    let mut entries: Vec<(BandwidthType, u64)> = Vec::new();
    let ghost mut lines: Seq<(BandwidthTypeView, u64)> = Seq::empty();
    let mut i: usize = pos;
    assert(entries.deep_view() =~= Seq::<(BandwidthTypeView, u64)>::empty());
    loop
        invariant_except_break
            pos <= i <= input.len(),
            bandwidth_run(input@, pos as int).0 == lines + bandwidth_run(input@, i as int).0,
            bandwidth_run(input@, pos as int).1 == bandwidth_run(input@, i as int).1,
            entries.deep_view() == collected_bandwidths(lines),
        ensures
            pos <= i <= input.len(),
            bandwidth_run(input@, pos as int).0 == lines,
            bandwidth_run(input@, pos as int).1 == i,
            entries.deep_view() == collected_bandwidths(lines),
        decreases input.len() - i,
    {
        match parse_bandwidth_line(input, i) {
            Some(((kind, value), n)) => {
                proof {
                    let line = (kind.deep_view(), value);
                    assert(lines + (seq![line] + bandwidth_run(input@, n as int).0) =~= lines.push(
                        line,
                    ) + bandwidth_run(input@, n as int).0);
                    assert(lines.push(line).drop_last() =~= lines);
                    lines = lines.push(line);
                }
                set_bandwidth(&mut entries, kind, value);
                i = n;
            },
            None => {
                assert(lines + Seq::<(BandwidthTypeView, u64)>::empty() =~= lines);
                break;
            },
        }
    }
    (entries, i)
}

/// The first position from `i` on that holds no decimal digit.
pub open spec fn digits_end(s: Seq<char>, i: int) -> int
    decreases s.len() - i,
{
    if i < 0 || i >= s.len() || !('0' <= s[i] <= '9') {
        i
    } else {
        digits_end(s, i + 1)
    }
}

pub fn find_digits_end(input: &Vec<char>, pos: usize) -> (end: usize)
    requires
        pos <= input.len(),
    ensures
        end == digits_end(input@, pos as int),
        pos <= end <= input.len(),
{
    let mut i: usize = pos;
    while i < input.len() && input[i] >= '0' && input[i] <= '9'
        invariant
            pos <= i <= input.len(),
            digits_end(input@, pos as int) == digits_end(input@, i as int),
        decreases input.len() - i,
    {
        i += 1;
    }
    i
}

/// The number of seconds in the unit that a letter names.
pub open spec fn unit_seconds(c: char) -> Option<nat> {
    if c == 'd' {
        Some(86400)
    } else if c == 'h' {
        Some(3600)
    } else if c == 'm' {
        Some(60)
    } else if c == 's' {
        Some(1)
    } else {
        None
    }
}

/// The unit letter at `i`, if there is one.
pub open spec fn unit_at(s: Seq<char>, i: int) -> Option<nat> {
    if 0 <= i < s.len() {
        unit_seconds(s[i])
    } else {
        None
    }
}

/// A time field without sign: digits, then an optional unit letter. The
/// value is in seconds and fits 64 bits.
pub open spec fn time_field(s: Seq<char>, i: int) -> Option<(u64, int)> {
    let e = digits_end(s, i);
    let number = plain_unsigned_of(s.subrange(i, e), 10, 0xffff_ffff_ffff_ffff);
    let unit = unit_at(s, e);
    let seconds = number.unwrap_or(0) * unit.unwrap_or(1);
    if 0 <= i <= e <= s.len() && number is Some && seconds <= 0xffff_ffff_ffff_ffff {
        Some(
            (
                seconds as u64,
                if unit is Some {
                    e + 1
                } else {
                    e
                },
            ),
        )
    } else {
        None
    }
}

/// A time field with an optional `-` in front. The value is in seconds and
/// fits 64 bits with sign.
pub open spec fn signed_time_field(s: Seq<char>, i: int) -> Option<(i64, int)> {
    let negative = has_char(s, i, '-');
    let b = if negative {
        i + 1
    } else {
        i
    };
    let e = digits_end(s, b);
    let number = plain_unsigned_of(s.subrange(b, e), 10, 0x8000_0000_0000_0000);
    let unit = unit_at(s, e);
    let value = if negative {
        -(number.unwrap_or(0) as int)
    } else {
        number.unwrap_or(0) as int
    };
    let seconds = value * unit.unwrap_or(1);
    if 0 <= i <= b <= e <= s.len() && number is Some && -0x8000_0000_0000_0000 <= value
        <= 0x7fff_ffff_ffff_ffff && -0x8000_0000_0000_0000 <= seconds <= 0x7fff_ffff_ffff_ffff {
        Some(
            (
                seconds as i64,
                if unit is Some {
                    e + 1
                } else {
                    e
                },
            ),
        )
    } else {
        None
    }
}

pub fn unit_of(input: &Vec<char>, pos: usize) -> (r: Option<u32>)
    ensures
        match unit_at(input@, pos as int) {
            Some(n) => r == Some(n as u32),
            None => r is None,
        },
{
    if pos >= input.len() {
        return None;
    }
    let c = input[pos];
    if c == 'd' {
        Some(86400)
    } else if c == 'h' {
        Some(3600)
    } else if c == 'm' {
        Some(60)
    } else if c == 's' {
        Some(1)
    } else {
        None
    }
}

pub fn parse_time_field(input: &Vec<char>, pos: usize) -> (r: Option<(u64, usize)>)
    requires
        pos <= input.len(),
    ensures
        parsed_as(r, time_field(input@, pos as int)),
        within(r, pos, input@.len()),
        advanced(r, pos),
{
    let e = find_digits_end(input, pos);
    let number = parse_digits(input, pos, e, 10, 0xffff_ffff_ffff_ffff)?;
    let (factor, next) = match unit_of(input, e) {
        Some(f) => (f, e + 1),
        None => (1, e),
    };
    assert((number as u128) * (factor as u128) <= 0xffff_ffff_ffff_ffff * 86400) by (nonlinear_arith)
        requires
            number <= 0xffff_ffff_ffff_ffff,
            factor <= 86400,
    ;
    let seconds: u128 = (number as u128) * (factor as u128);
    if seconds > 0xffff_ffff_ffff_ffff {
        return None;
    }
    Some((seconds as u64, next))
}

pub fn parse_signed_time_field(input: &Vec<char>, pos: usize) -> (r: Option<(i64, usize)>)
    requires
        pos <= input.len(),
    ensures
        parsed_as(r, signed_time_field(input@, pos as int)),
        within(r, pos, input@.len()),
        advanced(r, pos),
{
    let negative = at_char(input, pos, '-');
    let b = if negative {
        pos + 1
    } else {
        pos
    };
    let e = find_digits_end(input, b);
    let number = parse_digits(input, b, e, 10, 0x8000_0000_0000_0000)?;
    let value: i128 = if negative {
        -(number as i128)
    } else {
        number as i128
    };
    if value > 0x7fff_ffff_ffff_ffff {
        return None;
    }
    let (factor, next) = match unit_of(input, e) {
        Some(f) => (f, e + 1),
        None => (1, e),
    };
    assert(-0x8000_0000_0000_0000 * 86400 <= value * (factor as i128) <= 0x8000_0000_0000_0000
        * 86400) by (nonlinear_arith)
        requires
            -0x8000_0000_0000_0000 <= value <= 0x8000_0000_0000_0000,
            0 <= factor <= 86400,
    ;
    let seconds: i128 = value * (factor as i128);
    if seconds > 0x7fff_ffff_ffff_ffff || seconds < -0x8000_0000_0000_0000 {
        return None;
    }
    Some((seconds as i64, next))
}

/// The time fields that follow `i`, each led by a single space, and the
/// position after the last of them.
pub open spec fn spaced_time_fields(s: Seq<char>, i: int) -> (Seq<u64>, int)
    decreases s.len() - i,
{
    if has_char(s, i, ' ') {
        match time_field(s, i + 1) {
            Some((v, n)) => if i < n <= s.len() {
                let (rest, m) = spaced_time_fields(s, n);
                (seq![v] + rest, m)
            } else {
                (Seq::empty(), i)
            },
            None => (Seq::empty(), i),
        }
    } else {
        (Seq::empty(), i)
    }
}

pub fn take_spaced_time_fields(input: &Vec<char>, pos: usize) -> (r: (Vec<u64>, usize))
    requires
        pos <= input.len(),
    ensures
        r.0@ == spaced_time_fields(input@, pos as int).0,
        r.1 == spaced_time_fields(input@, pos as int).1,
        pos <= r.1 <= input.len(),
{
    let mut values: Vec<u64> = Vec::new();
    let mut i: usize = pos;
    loop
        invariant_except_break
            pos <= i <= input.len(),
            spaced_time_fields(input@, pos as int).0 == values@ + spaced_time_fields(
                input@,
                i as int,
            ).0,
            spaced_time_fields(input@, pos as int).1 == spaced_time_fields(input@, i as int).1,
        ensures
            pos <= i <= input.len(),
            spaced_time_fields(input@, pos as int).0 == values@,
            spaced_time_fields(input@, pos as int).1 == i,
        decreases input.len() - i,
    {
        let field = if at_char(input, i, ' ') {
            parse_time_field(input, i + 1)
        } else {
            None
        };
        match field {
            Some((v, n)) => {
                let ghost before = values@;
                values.push(v);
                assert(before + (seq![v] + spaced_time_fields(input@, n as int).0) =~= values@
                    + spaced_time_fields(input@, n as int).0);
                i = n;
            },
            None => {
                assert(values@ + Seq::<u64>::empty() =~= values@);
                break;
            },
        }
    }
    (values, i)
}

/// An `r=` line: interval, duration and at least one offset.
pub open spec fn repeat_line(s: Seq<char>, i: int) -> Option<(RepeatTimeView, int)> {
    let interval = time_field(s, i + 2);
    let a = next_of(interval);
    let duration = time_field(s, a + 1);
    let b = next_of(duration);
    let (offsets, c) = spaced_time_fields(s, b);
    if has_line_tag(s, i, 'r') && interval is Some && has_char(s, a, ' ') && duration is Some
        && offsets.len() > 0 && line_end(s, c) is Some {
        Some(
            (
                RepeatTimeView {
                    repeat_interval: value_of(interval),
                    active_duration: value_of(duration),
                    offsets,
                },
                line_end(s, c)->0,
            ),
        )
    } else {
        None
    }
}

pub fn parse_repeat_line(input: &Vec<char>, pos: usize) -> (r: Option<(RepeatTime, usize)>)
    requires
        pos <= input.len(),
    ensures
        parsed_as(r, repeat_line(input@, pos as int)),
        within(r, pos, input@.len()),
        advanced(r, pos),
{
    if !at_line_tag(input, pos, 'r') {
        return None;
    }
    let (repeat_interval, a) = parse_time_field(input, pos + 2)?;
    if !at_char(input, a, ' ') {
        return None;
    }
    let (active_duration, b) = parse_time_field(input, a + 1)?;
    let (offsets, c) = take_spaced_time_fields(input, b);
    if offsets.len() == 0 {
        return None;
    }
    let next = skip_line_end(input, c)?;
    Some((RepeatTime { repeat_interval, active_duration, offsets }, next))
}

/// The `r=` lines from `i` on and the position after the last of them.
pub open spec fn repeat_run(s: Seq<char>, i: int) -> (Seq<RepeatTimeView>, int)
    decreases s.len() - i,
{
    match repeat_line(s, i) {
        Some((r, n)) => if i < n <= s.len() {
            let (rest, m) = repeat_run(s, n);
            (seq![r] + rest, m)
        } else {
            (Seq::empty(), i)
        },
        None => (Seq::empty(), i),
    }
}

pub fn parse_repeat_run(input: &Vec<char>, pos: usize) -> (r: (Vec<RepeatTime>, usize))
    requires
        pos <= input.len(),
    ensures
        r.0.deep_view() == repeat_run(input@, pos as int).0,
        r.1 == repeat_run(input@, pos as int).1,
        pos <= r.1 <= input.len(),
{
    let mut lines: Vec<RepeatTime> = Vec::new();
    let mut i: usize = pos;
    loop
        invariant_except_break
            pos <= i <= input.len(),
            repeat_run(input@, pos as int).0 == lines.deep_view() + repeat_run(input@, i as int).0,
            repeat_run(input@, pos as int).1 == repeat_run(input@, i as int).1,
        ensures
            pos <= i <= input.len(),
            repeat_run(input@, pos as int).0 == lines.deep_view(),
            repeat_run(input@, pos as int).1 == i,
        decreases input.len() - i,
    {
        match parse_repeat_line(input, i) {
            Some((line, n)) => {
                let ghost before = lines.deep_view();
                let ghost v = line.deep_view();
                lines.push(line);
                assert(lines.deep_view() =~= before.push(v));
                assert(before + (seq![v] + repeat_run(input@, n as int).0) =~= lines.deep_view()
                    + repeat_run(input@, n as int).0);
                i = n;
            },
            None => {
                assert(lines.deep_view() + Seq::<RepeatTimeView>::empty() =~= lines.deep_view());
                break;
            },
        }
    }
    (lines, i)
}

/// One adjustment: a time, a space and a signed offset.
pub open spec fn adjustment(s: Seq<char>, i: int) -> Option<(TimeZoneAdjustment, int)> {
    let time = time_field(s, i);
    let a = next_of(time);
    let offset = signed_time_field(s, a + 1);
    if time is Some && has_char(s, a, ' ') && offset is Some {
        Some(
            (
                TimeZoneAdjustment { adjustment_time: value_of(time), offset: value_of(offset) },
                next_of(offset),
            ),
        )
    } else {
        None
    }
}

pub fn parse_adjustment(input: &Vec<char>, pos: usize) -> (r: Option<(TimeZoneAdjustment, usize)>)
    requires
        pos <= input.len(),
    ensures
        parsed_as(r, adjustment(input@, pos as int)),
        within(r, pos, input@.len()),
        advanced(r, pos),
{
    let (adjustment_time, a) = parse_time_field(input, pos)?;
    if !at_char(input, a, ' ') {
        return None;
    }
    let (offset, n) = parse_signed_time_field(input, a + 1)?;
    Some((TimeZoneAdjustment { adjustment_time, offset }, n))
}

/// The adjustments that follow `i`, each led by a single space.
pub open spec fn spaced_adjustments(s: Seq<char>, i: int) -> (Seq<TimeZoneAdjustment>, int)
    decreases s.len() - i,
{
    if has_char(s, i, ' ') {
        match adjustment(s, i + 1) {
            Some((v, n)) => if i < n <= s.len() {
                let (rest, m) = spaced_adjustments(s, n);
                (seq![v] + rest, m)
            } else {
                (Seq::empty(), i)
            },
            None => (Seq::empty(), i),
        }
    } else {
        (Seq::empty(), i)
    }
}

/// The `z=` line: adjustments with single spaces between them.
pub open spec fn zone_line(s: Seq<char>, i: int) -> Option<(Seq<TimeZoneAdjustment>, int)> {
    let first = adjustment(s, i + 2);
    let (more, b) = spaced_adjustments(s, next_of(first));
    if has_line_tag(s, i, 'z') && first is Some && line_end(s, b) is Some {
        Some((seq![value_of(first)] + more, line_end(s, b)->0))
    } else {
        None
    }
}

pub fn parse_zone_line(input: &Vec<char>, pos: usize) -> (r: Option<
    (Vec<TimeZoneAdjustment>, usize),
>)
    requires
        pos <= input.len(),
    ensures
        match (r, zone_line(input@, pos as int)) {
            (Some((v, n)), Some((w, m))) => v@ == w && n == m && pos < n <= input.len(),
            (None, None) => true,
            _ => false,
        },
{
    if !at_line_tag(input, pos, 'z') {
        return None;
    }
    let (first, a) = parse_adjustment(input, pos + 2)?;
    let mut values: Vec<TimeZoneAdjustment> = Vec::new();
    values.push(first);
    let mut i: usize = a;
    loop
        invariant_except_break
            a <= i <= input.len(),
            spaced_adjustments(input@, a as int).0 == values@.skip(1) + spaced_adjustments(
                input@,
                i as int,
            ).0,
            spaced_adjustments(input@, a as int).1 == spaced_adjustments(input@, i as int).1,
            values@.len() >= 1,
            values@[0] == first,
        ensures
            a <= i <= input.len(),
            values@ == seq![first] + spaced_adjustments(input@, a as int).0,
            spaced_adjustments(input@, a as int).1 == i,
        decreases input.len() - i,
    {
        let next = if at_char(input, i, ' ') {
            parse_adjustment(input, i + 1)
        } else {
            None
        };
        match next {
            Some((v, n)) => {
                let ghost before = values@;
                values.push(v);
                assert(before.skip(1) + (seq![v] + spaced_adjustments(input@, n as int).0)
                    =~= values@.skip(1) + spaced_adjustments(input@, n as int).0);
                i = n;
            },
            None => {
                assert(values@ =~= seq![first] + (values@.skip(1) + Seq::<
                    TimeZoneAdjustment,
                >::empty()));
                break;
            },
        }
    }
    let next = skip_line_end(input, i)?;
    Some((values, next))
}

/// A `t=` line with the `r=` lines and the `z=` line that follow it.
pub open spec fn time_block(s: Seq<char>, i: int) -> Option<(TimeView, int)> {
    let a = token_end(s, i + 2, Until::Field);
    let start = unsigned_of(s.subrange(i + 2, a), 10, 0xffff_ffff_ffff_ffff);
    let b = token_end(s, a + 1, Until::Field);
    let stop = unsigned_of(s.subrange(a + 1, b), 10, 0xffff_ffff_ffff_ffff);
    if has_line_tag(s, i, 't') && start is Some && has_char(s, a, ' ') && stop is Some && line_end(
        s,
        b,
    ) is Some {
        let (repeats, c) = repeat_run(s, line_end(s, b)->0);
        let zone = zone_line(s, c);
        Some(
            (
                TimeView {
                    start: start->0 as u64,
                    stop: stop->0 as u64,
                    repeat_times: repeats,
                    time_zone_adjustments: match zone {
                        Some((z, _)) => z,
                        None => Seq::empty(),
                    },
                },
                match zone {
                    Some((_, n)) => n,
                    None => c,
                },
            ),
        )
    } else {
        None
    }
}

pub fn parse_time_block(input: &Vec<char>, pos: usize) -> (r: Option<(Time, usize)>)
    requires
        pos <= input.len(),
    ensures
        parsed_as(r, time_block(input@, pos as int)),
        within(r, pos, input@.len()),
        advanced(r, pos),
{
    if !at_line_tag(input, pos, 't') {
        return None;
    }
    let a = find_token_end(input, pos + 2, Until::Field);
    let start = parse_unsigned(input, pos + 2, a, 10, 0xffff_ffff_ffff_ffff)?;
    if !at_char(input, a, ' ') {
        return None;
    }
    let b = find_token_end(input, a + 1, Until::Field);
    let stop = parse_unsigned(input, a + 1, b, 10, 0xffff_ffff_ffff_ffff)?;
    let p = skip_line_end(input, b)?;
    let (repeat_times, c) = parse_repeat_run(input, p);
    let (time_zone_adjustments, next) = match parse_zone_line(input, c) {
        Some((z, n)) => (z, n),
        None => (Vec::new(), c),
    };
    Some((Time { start, stop, repeat_times, time_zone_adjustments }, next))
}

/// The time blocks from `i` on and the position after the last of them.
pub open spec fn time_run(s: Seq<char>, i: int) -> (Seq<TimeView>, int)
    decreases s.len() - i,
{
    match time_block(s, i) {
        Some((t, n)) => if i < n <= s.len() {
            let (rest, m) = time_run(s, n);
            (seq![t] + rest, m)
        } else {
            (Seq::empty(), i)
        },
        None => (Seq::empty(), i),
    }
}

pub fn parse_time_run(input: &Vec<char>, pos: usize) -> (r: (Vec<Time>, usize))
    requires
        pos <= input.len(),
    ensures
        r.0.deep_view() == time_run(input@, pos as int).0,
        r.1 == time_run(input@, pos as int).1,
        pos <= r.1 <= input.len(),
{
    let mut blocks: Vec<Time> = Vec::new();
    let mut i: usize = pos;
    loop
        invariant_except_break
            pos <= i <= input.len(),
            time_run(input@, pos as int).0 == blocks.deep_view() + time_run(input@, i as int).0,
            time_run(input@, pos as int).1 == time_run(input@, i as int).1,
        ensures
            pos <= i <= input.len(),
            time_run(input@, pos as int).0 == blocks.deep_view(),
            time_run(input@, pos as int).1 == i,
        decreases input.len() - i,
    {
        match parse_time_block(input, i) {
            Some((block, n)) => {
                let ghost before = blocks.deep_view();
                let ghost v = block.deep_view();
                blocks.push(block);
                assert(blocks.deep_view() =~= before.push(v));
                assert(before + (seq![v] + time_run(input@, n as int).0) =~= blocks.deep_view()
                    + time_run(input@, n as int).0);
                i = n;
            },
            None => {
                assert(blocks.deep_view() + Seq::<TimeView>::empty() =~= blocks.deep_view());
                break;
            },
        }
    }
    (blocks, i)
}

/// An `a=` line: the name runs to a colon or the end of the line and is
/// read in lower case; what follows is read by the grammar of that name.
pub open spec fn attribute_at(s: Seq<char>, i: int) -> Option<((Seq<char>, AttributeView), int)> {
    let a = token_end(s, i + 2, Until::Name);
    let name = lower(s.subrange(i + 2, a));
    if has_line_tag(s, i, 'a') && a > i + 2 {
        match attribute_grammar(name, s, a) {
            Some((v, n)) => Some(((name, v), n)),
            None => None,
        }
    } else {
        None
    }
}

/// The `a=` lines from `i` on and the position after the last of them.
pub open spec fn attribute_run(s: Seq<char>, i: int) -> (Seq<(Seq<char>, AttributeView)>, int)
    decreases s.len() - i,
{
    match attribute_at(s, i) {
        Some((a, n)) => if i < n <= s.len() {
            let (rest, m) = attribute_run(s, n);
            (seq![a] + rest, m)
        } else {
            (Seq::empty(), i)
        },
        None => (Seq::empty(), i),
    }
}

pub fn parse_attribute_run(input: &Vec<char>, pos: usize) -> (r: (AttributeMap, usize))
    requires
        pos <= input.len(),
    ensures
        r.0.deep_view() == attribute_run(input@, pos as int).0,
        r.1 == attribute_run(input@, pos as int).1,
        pos <= r.1 <= input.len(),
{
    let mut attributes = AttributeMap::new();
    let mut i: usize = pos;
    loop
        invariant_except_break
            pos <= i <= input.len(),
            attribute_run(input@, pos as int).0 == attributes.deep_view() + attribute_run(
                input@,
                i as int,
            ).0,
            attribute_run(input@, pos as int).1 == attribute_run(input@, i as int).1,
        ensures
            pos <= i <= input.len(),
            attribute_run(input@, pos as int).0 == attributes.deep_view(),
            attribute_run(input@, pos as int).1 == i,
        decreases input.len() - i,
    {
        let mut parsed = None;
        if at_line_tag(input, i, 'a') {
            let a = find_token_end(input, i + 2, Until::Name);
            if a > i + 2 {
                let name = to_lower(string_of(input, i + 2, a).as_str());
                if let Some((attribute, n)) = parse_attribute(name.as_str(), input, a) {
                    parsed = Some((name, attribute, n));
                }
            }
        }
        match parsed {
            Some((name, attribute, n)) => {
                let ghost before = attributes.deep_view();
                let ghost entry = (name@, attribute.deep_view());
                attributes.append_parsed(name, attribute);
                assert(before + (seq![entry] + attribute_run(input@, n as int).0)
                    =~= attributes.deep_view() + attribute_run(input@, n as int).0);
                i = n;
            },
            None => {
                assert(attributes.deep_view() + Seq::<(Seq<char>, AttributeView)>::empty()
                    =~= attributes.deep_view());
                break;
            },
        }
    }
    (attributes, i)
}

/// A media section: the `m=` line, then the optional `i=` and `c=` lines,
/// the `b=` lines, the optional `k=` line and the `a=` lines.
pub open spec fn media_block(s: Seq<char>, i: int) -> Option<(MediaDescriptionView, int)> {
    let a = token_end(s, i + 2, Until::Field);
    let b = token_end(s, a + 1, Until::Slash);
    let port = unsigned_of(s.subrange(a + 1, b), 10, 0xffff);
    let c = token_end(s, b + 1, Until::Field);
    let count = if has_char(s, b, '/') {
        unsigned_of(s.subrange(b + 1, c), 10, 0xffff)
    } else {
        None
    };
    let p = if count is Some {
        c
    } else {
        b
    };
    let d = token_end(s, p + 1, Until::Field);
    let (formats, e) = spaced_fields(s, d);
    if has_line_tag(s, i, 'm') && a > i + 2 && has_char(s, a, ' ') && port is Some && has_char(
        s,
        p,
        ' ',
    ) && d > p + 1 && formats.len() > 0 && line_end(s, e) is Some {
        let (title, q1) = optional_text_line(s, line_end(s, e)->0, 'i');
        let (connection, q2) = optional_connection_line(s, q1);
        let (bandwidths, q3) = bandwidth_run(s, q2);
        let (encryption_key, q4) = optional_text_line(s, q3, 'k');
        let (attributes, q5) = attribute_run(s, q4);
        Some(
            (
                MediaDescriptionView {
                    kind: MediaTypeView::of(s.subrange(i + 2, a)),
                    port: port->0 as u16,
                    num_ports: match count {
                        Some(n) => Some(n as u16),
                        None => None,
                    },
                    protocol: TransportProtocolView::of(s.subrange(p + 1, d)),
                    formats,
                    title,
                    connection,
                    bandwidths: collected_bandwidths(bandwidths),
                    encryption_key,
                    attributes,
                },
                q5,
            ),
        )
    } else {
        None
    }
}

pub fn parse_media_block(input: &Vec<char>, pos: usize) -> (r: Option<(MediaDescription, usize)>)
    requires
        pos <= input.len(),
    ensures
        parsed_as(r, media_block(input@, pos as int)),
        within(r, pos, input@.len()),
        advanced(r, pos),
{
    if !at_line_tag(input, pos, 'm') {
        return None;
    }
    let a = find_token_end(input, pos + 2, Until::Field);
    if a == pos + 2 || !at_char(input, a, ' ') {
        return None;
    }
    let b = find_token_end(input, a + 1, Until::Slash);
    let port = parse_unsigned(input, a + 1, b, 10, 0xffff)?;
    let mut num_ports: Option<u16> = None;
    let mut p = b;
    if at_char(input, b, '/') {
        let c = find_token_end(input, b + 1, Until::Field);
        if let Some(n) = parse_unsigned(input, b + 1, c, 10, 0xffff) {
            num_ports = Some(n as u16);
            p = c;
        }
    }
    if !at_char(input, p, ' ') {
        return None;
    }
    let d = find_token_end(input, p + 1, Until::Field);
    if d == p + 1 {
        return None;
    }
    let (formats, e) = take_spaced_fields(input, d);
    if formats.len() == 0 {
        return None;
    }
    let q0 = skip_line_end(input, e)?;
    let (title, q1) = parse_optional_text_line(input, q0, 'i');
    let (connection, q2) = parse_optional_connection_line(input, q1);
    let (bandwidths, q3) = parse_bandwidths(input, q2);
    let (encryption_key, q4) = parse_optional_text_line(input, q3, 'k');
    let (attributes, q5) = parse_attribute_run(input, q4);
    let kind = match MediaType::from_str(string_of(input, pos + 2, a).as_str()) {
        Ok(v) => v,
        Err(_) => {
            return None;
        },
    };
    let protocol = match TransportProtocol::from_str(string_of(input, p + 1, d).as_str()) {
        Ok(v) => v,
        Err(_) => {
            return None;
        },
    };
    Some(
        (
            MediaDescription {
                kind,
                port: port as u16,
                num_ports,
                protocol,
                formats,
                title,
                connection,
                bandwidths,
                encryption_key,
                attributes,
            },
            q5,
        ),
    )
}

/// The media sections from `i` on and the position after the last of them.
pub open spec fn media_run(s: Seq<char>, i: int) -> (Seq<MediaDescriptionView>, int)
    decreases s.len() - i,
{
    match media_block(s, i) {
        Some((m, n)) => if i < n <= s.len() {
            let (rest, k) = media_run(s, n);
            (seq![m] + rest, k)
        } else {
            (Seq::empty(), i)
        },
        None => (Seq::empty(), i),
    }
}

pub fn parse_media_run(input: &Vec<char>, pos: usize) -> (r: (Vec<MediaDescription>, usize))
    requires
        pos <= input.len(),
    ensures
        r.0.deep_view() == media_run(input@, pos as int).0,
        r.1 == media_run(input@, pos as int).1,
        pos <= r.1 <= input.len(),
{
    let mut sections: Vec<MediaDescription> = Vec::new();
    let mut i: usize = pos;
    loop
        invariant_except_break
            pos <= i <= input.len(),
            media_run(input@, pos as int).0 == sections.deep_view() + media_run(input@, i as int).0,
            media_run(input@, pos as int).1 == media_run(input@, i as int).1,
        ensures
            pos <= i <= input.len(),
            media_run(input@, pos as int).0 == sections.deep_view(),
            media_run(input@, pos as int).1 == i,
        decreases input.len() - i,
    {
        match parse_media_block(input, i) {
            Some((section, n)) => {
                let ghost before = sections.deep_view();
                let ghost v = section.deep_view();
                sections.push(section);
                assert(sections.deep_view() =~= before.push(v));
                assert(before + (seq![v] + media_run(input@, n as int).0) =~= sections.deep_view()
                    + media_run(input@, n as int).0);
                i = n;
            },
            None => {
                assert(sections.deep_view() + Seq::<MediaDescriptionView>::empty()
                    =~= sections.deep_view());
                break;
            },
        }
    }
    (sections, i)
}

/// The attributes that are read are well formed.
pub proof fn lemma_attribute_run_is_well_formed(s: Seq<char>, i: int)
    ensures
        entries_wf(attribute_run(s, i).0),
    decreases s.len() - i,
{
    match attribute_at(s, i) {
        Some((a, n)) => {
            if i < n <= s.len() {
                lemma_attribute_run_is_well_formed(s, n);
                let name = lower(s.subrange(i + 2, token_end(s, i + 2, Until::Name)));
                lemma_attribute_grammar_is_well_formed(name, s, token_end(s, i + 2, Until::Name));
                let rest = attribute_run(s, n).0;
                let all = seq![a] + rest;
                assert forall|j: int| 0 <= j < all.len() implies (#[trigger] all[j]).1.wf() by {
                    if j > 0 {
                        assert(all[j] == rest[j - 1]);
                    }
                }
            }
        },
        None => {},
    }
}

/// The media sections that are read are well formed.
pub proof fn lemma_media_run_is_well_formed(s: Seq<char>, i: int)
    ensures
        forall|k: int| 0 <= k < media_run(s, i).0.len() ==> (#[trigger] media_run(s, i).0[k]).wf(),
    decreases s.len() - i,
{
    match media_block(s, i) {
        Some((m, n)) => {
            if i < n <= s.len() {
                lemma_media_run_is_well_formed(s, n);
                assert(m.wf()) by {
                    assert forall|lines: Seq<(BandwidthTypeView, u64)>| distinct_kinds(
                        #[trigger] collected_bandwidths(lines),
                    ) by {
                        lemma_collected_bandwidths_are_distinct(lines);
                    }
                    assert forall|p: int| entries_wf(#[trigger] attribute_run(s, p).0) by {
                        lemma_attribute_run_is_well_formed(s, p);
                    }
                }
                let rest = media_run(s, n).0;
                let all = seq![m] + rest;
                assert forall|k: int| 0 <= k < all.len() implies (#[trigger] all[k]).wf() by {
                    if k > 0 {
                        assert(all[k] == rest[k - 1]);
                    }
                }
            }
        },
        None => {},
    }
}

/// A session that is read is well formed.
pub proof fn lemma_session_grammar_is_well_formed(d: Seq<char>)
    requires
        session_grammar(d) is Ok,
    ensures
        session_grammar(d)->Ok_0.wf(),
{
    assert forall|lines: Seq<(BandwidthTypeView, u64)>| distinct_kinds(
        #[trigger] collected_bandwidths(lines),
    ) by {
        lemma_collected_bandwidths_are_distinct(lines);
    }
    assert forall|p: int| entries_wf(#[trigger] attribute_run(d, p).0) by {
        lemma_attribute_run_is_well_formed(d, p);
    }
    assert forall|p: int, k: int| 0 <= k < media_run(d, p).0.len() implies (#[trigger] media_run(
        d,
        p,
    ).0[k]).wf() by {
        lemma_media_run_is_well_formed(d, p);
    }
}

/// What the grammar wanted where reading stopped.
#[derive(Debug, Clone, Copy, PartialEq, Eq, Structural)]
pub enum Expected {
    /// The line `v=0`.
    Version,
    /// An `o=` line with its six fields.
    Origin,
    /// An `s=` line.
    Name,
    /// A `t=` line.
    Time,
    /// The end of the text: the line at this place fits nowhere.
    End,
}

/// A document that the grammar refuses: the place of the line at which
/// reading stopped, and what was wanted there.
#[derive(Debug, Clone, Copy, PartialEq, Eq, Structural)]
pub struct GrammarError {
    /// The number of characters before the line.
    pub offset: usize,
    /// The number of the line, counted from one.
    pub line: usize,
    pub expected: Expected,
}

/// The number of line feeds in `s`.
pub open spec fn line_feeds(s: Seq<char>) -> nat
    decreases s.len(),
{
    if s.len() == 0 {
        0
    } else {
        line_feeds(s.drop_last()) + if s.last() == '\n' {
            1nat
        } else {
            0nat
        }
    }
}

pub proof fn lemma_line_feeds_bound(s: Seq<char>)
    ensures
        line_feeds(s) <= s.len(),
    decreases s.len(),
{
    if s.len() > 0 {
        lemma_line_feeds_bound(s.drop_last());
    }
}

/// The number of the line that starts after `before`, counted from one and
/// held at the greatest number that the machine can count to.
pub open spec fn line_number(before: Seq<char>) -> usize {
    if line_feeds(before) + 1 <= usize::MAX {
        (line_feeds(before) + 1) as usize
    } else {
        usize::MAX
    }
}

/// The error for a line that starts at `offset`.
pub open spec fn error_at(s: Seq<char>, offset: int, expected: Expected) -> GrammarError {
    GrammarError { offset: offset as usize, line: line_number(s.take(offset)), expected }
}

impl Expected {
    pub open spec fn text(self) -> Seq<char> {
        match self {
            Expected::Version => "the version line v=0"@,
            Expected::Origin => "an origin line"@,
            Expected::Name => "a session name line"@,
            Expected::Time => "a time line"@,
            Expected::End => "the end of the description"@,
        }
    }

    pub fn as_str(&self) -> (r: &'static str)
        ensures
            r@ == self.text(),
    {
        match self {
            Expected::Version => "the version line v=0",
            Expected::Origin => "an origin line",
            Expected::Name => "a session name line",
            Expected::Time => "a time line",
            Expected::End => "the end of the description",
        }
    }
}

impl GrammarError {
    /// The message for the error.
    pub open spec fn message(self) -> Seq<char> {
        "line "@ + decimal(self.line as nat) + ": expected "@ + self.expected.text()
    }

    pub fn to_string(&self) -> (r: String)
        ensures
            r@ == self.message(),
    {
        let mut out = String::new();
        push_str(&mut out, "line ");
        push_decimal(&mut out, self.line as u64);
        push_str(&mut out, ": expected ");
        push_str(&mut out, self.expected.as_str());
        assert(out@ =~= self.message());
        out
    }
}

/// Builds the error for a line that starts at `offset`.
pub fn make_error(input: &Vec<char>, offset: usize, expected: Expected) -> (r: GrammarError)
    requires
        offset <= input.len(),
    ensures
        r == error_at(input@, offset as int, expected),
{
    let mut line: usize = 1;
    let mut i: usize = 0;
    assert(input@.take(0) =~= Seq::<char>::empty());
    while i < offset
        invariant
            i <= offset <= input.len(),
            line == line_number(input@.take(i as int)),
        decreases offset - i,
    {
        assert(input@.take(i + 1).drop_last() =~= input@.take(i as int));
        if input[i] == '\n' && line < usize::MAX {
            line += 1;
        }
        i += 1;
    }
    GrammarError { offset, line, expected }
}

/// The line `v=0`: the position after it.
pub open spec fn version_line(s: Seq<char>) -> Option<int> {
    if has_char(s, 0, 'v') && has_char(s, 1, '=') && has_char(s, 2, '0') {
        line_end(s, 3)
    } else {
        None
    }
}

/// The four optional text lines and the connection line of a session.
pub open spec fn session_details(s: Seq<char>, i: int) -> (
    Option<Seq<char>>,
    Option<Seq<char>>,
    Option<Seq<char>>,
    Option<Seq<char>>,
    Option<ConnectionView>,
    int,
) {
    let (information, at1) = optional_text_line(s, i, 'i');
    let (uri, at2) = optional_text_line(s, at1, 'u');
    let (email_address, at3) = optional_text_line(s, at2, 'e');
    let (phone_number, at4) = optional_text_line(s, at3, 'p');
    let (connection, at5) = optional_connection_line(s, at4);
    (information, uri, email_address, phone_number, connection, at5)
}

/// The grammar of a whole document. The lines come in a fixed order: the
/// version, the origin, the name, the optional `i=`, `u=`, `e=`, `p=` and
/// `c=` lines, the `b=` lines, at least one time block, the optional `k=`
/// line, the `a=` lines and the media sections; nothing may follow. Where a
/// line does not fit, the document is refused with the place of that line.
pub open spec fn session_grammar(s: Seq<char>) -> Result<SessionView, GrammarError> {
    match version_line(s) {
        None => Err(error_at(s, 0, Expected::Version)),
        Some(at0) => match origin_line(s, at0) {
            None => Err(error_at(s, at0, Expected::Origin)),
            Some((origin, at1)) => match name_line(s, at1) {
                None => Err(error_at(s, at1, Expected::Name)),
                Some((name, at2)) => {
                    let (information, uri, email_address, phone_number, connection, at3) =
                        session_details(s, at2);
                    let (bandwidths, at4) = bandwidth_run(s, at3);
                    let (times, at5) = time_run(s, at4);
                    let (encryption_key, at6) = optional_text_line(s, at5, 'k');
                    let (attributes, at7) = attribute_run(s, at6);
                    let (media_descriptions, at8) = media_run(s, at7);
                    if times.len() == 0 {
                        Err(error_at(s, at4, Expected::Time))
                    } else if at8 != s.len() {
                        Err(error_at(s, at8, Expected::End))
                    } else {
                        Ok(
                            SessionView {
                                origin,
                                name,
                                information,
                                uri,
                                email_address,
                                phone_number,
                                connection,
                                bandwidths: collected_bandwidths(bandwidths),
                                times,
                                encryption_key,
                                attributes,
                                media_descriptions,
                            },
                        )
                    }
                },
            },
        },
    }
}

/// The outcome of reading agrees with the grammar.
pub open spec fn read_as(r: Result<Session, GrammarError>, expected: Result<
    SessionView,
    GrammarError,
>) -> bool {
    match (r, expected) {
        (Ok(session), Ok(view)) => session.deep_view() == view,
        (Err(e), Err(f)) => e == f,
        _ => false,
    }
}

pub fn parse_version_line(input: &Vec<char>) -> (r: Option<usize>)
    ensures
        match version_line(input@) {
            Some(n) => r == Some(n as usize) && n <= input.len(),
            None => r is None,
        },
{
    if at_char(input, 0, 'v') && at_char(input, 1, '=') && at_char(input, 2, '0') {
        skip_line_end(input, 3)
    } else {
        None
    }
}

impl Session {
    /// Reads a whole document.
    pub fn parse(text: &str) -> (r: Result<Session, GrammarError>)
        ensures
            read_as(r, session_grammar(text@)),
            r is Ok ==> r->Ok_0.deep_view().wf(),
    {
        let chars = chars_of(text);
        let input = &chars;
        proof {
            if session_grammar(text@) is Ok {
                lemma_session_grammar_is_well_formed(text@);
            }
        }
        let at0 = match parse_version_line(input) {
            Some(p) => p,
            None => {
                return Err(make_error(input, 0, Expected::Version));
            },
        };
        let (origin, at1) = match parse_origin_line(input, at0) {
            Some(r) => r,
            None => {
                return Err(make_error(input, at0, Expected::Origin));
            },
        };
        let (name, at2) = match parse_name_line(input, at1) {
            Some(r) => r,
            None => {
                return Err(make_error(input, at1, Expected::Name));
            },
        };
        let (information, q1) = parse_optional_text_line(input, at2, 'i');
        let (uri, q2) = parse_optional_text_line(input, q1, 'u');
        let (email_address, q3) = parse_optional_text_line(input, q2, 'e');
        let (phone_number, q4) = parse_optional_text_line(input, q3, 'p');
        let (connection, at3) = parse_optional_connection_line(input, q4);
        let (bandwidths, at4) = parse_bandwidths(input, at3);
        let (times, at5) = parse_time_run(input, at4);
        if times.len() == 0 {
            return Err(make_error(input, at4, Expected::Time));
        }
        let (encryption_key, at6) = parse_optional_text_line(input, at5, 'k');
        let (attributes, at7) = parse_attribute_run(input, at6);
        let (media_descriptions, at8) = parse_media_run(input, at7);
        if at8 != input.len() {
            return Err(make_error(input, at8, Expected::End));
        }
        Ok(
            Session {
                origin,
                name,
                information,
                uri,
                email_address,
                phone_number,
                connection,
                bandwidths,
                times,
                encryption_key,
                attributes,
                media_descriptions,
            },
        )
    }

    /// Reads a whole document; a refusal is given as its message.
    pub fn from_str(text: &str) -> (r: Result<Session, String>)
        ensures
            match session_grammar(text@) {
                Ok(view) => r is Ok && r->Ok_0.deep_view() == view,
                Err(e) => r is Err && r->Err_0@ == e.message(),
            },
    {
        match Session::parse(text) {
            Ok(session) => Ok(session),
            Err(e) => Err(e.to_string()),
        }
    }
}

} // verus!
