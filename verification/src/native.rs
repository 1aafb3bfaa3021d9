//! What is asked of the media engine.
//!
//! The engine that moves the media is not part of this library. The types
//! here hold, as plain values, what a caller asks of it: the properties of
//! a connection, the source groups and the remote candidates. A driver
//! outside the library hands these values to the engine, and hands back
//! what the engine answered (the port that a transport listens on).

use vstd::prelude::*;
use crate::duplicate::Duplicate;
use crate::pairs::{distinct_keys, insert, lemma_put_keeps_distinct, put};

verus! {

/// How much the engine logs.
#[derive(Debug, Clone, Copy, PartialEq, Eq, Structural)]
pub enum LoggingLevel {
    Off,
    Default,
    Debug,
    UltraDebug,
}

impl LoggingLevel {
    /// The place of the level in the order from silent to most verbose.
    pub open spec fn rank(self) -> int {
        match self {
            LoggingLevel::Off => 0,
            LoggingLevel::Default => 1,
            LoggingLevel::Debug => 2,
            LoggingLevel::UltraDebug => 3,
        }
    }

    pub fn at_least(&self, other: LoggingLevel) -> (r: bool)
        ensures
            r == (self.rank() >= other.rank()),
    {
        let mine: u8 = match self {
            LoggingLevel::Off => 0,
            LoggingLevel::Default => 1,
            LoggingLevel::Debug => 2,
            LoggingLevel::UltraDebug => 3,
        };
        let theirs: u8 = match other {
            LoggingLevel::Off => 0,
            LoggingLevel::Default => 1,
            LoggingLevel::Debug => 2,
            LoggingLevel::UltraDebug => 3,
        };
        mine >= theirs
    }
}

/// The three switches of the engine's logger.
#[derive(Debug, Clone, Copy, PartialEq, Eq, Structural)]
pub struct LoggerSwitches {
    pub log: bool,
    pub debug: bool,
    pub ultra_debug: bool,
}

/// The switches to set when the engine is initialised with a logging
/// level: each is on from its own level upwards.
pub fn library_init(logging: LoggingLevel) -> (r: LoggerSwitches)
    ensures
        r.log == (logging.rank() >= 1),
        r.debug == (logging.rank() >= 2),
        r.ultra_debug == (logging.rank() >= 3),
{
    LoggerSwitches {
        log: logging.at_least(LoggingLevel::Default),
        debug: logging.at_least(LoggingLevel::Debug),
        ultra_debug: logging.at_least(LoggingLevel::UltraDebug),
    }
}

/// The range of ports to hand to the engine: no range is given as zero to
/// zero.
pub fn set_port_range(range: Option<(u16, u16)>) -> (r: (u16, u16))
    ensures
        r == match range {
            Some(bounds) => bounds,
            None => (0u16, 0u16),
        },
{
    match range {
        Some(bounds) => bounds,
        None => (0, 0),
    }
}

/// The hash functions that the engine knows for DTLS fingerprints.
#[derive(Debug, Clone, Copy, PartialEq, Eq, Structural)]
pub enum DtlsConnectionHash {
    Sha1,
    Sha224,
    Sha256,
    Sha384,
    Sha512,
    UnknownHash,
}

impl DtlsConnectionHash {
    /// The name of the hash function as the engine's properties spell it.
    pub open spec fn text(self) -> Seq<char> {
        match self {
            DtlsConnectionHash::Sha1 => "SHA-1"@,
            DtlsConnectionHash::Sha224 => "SHA-224"@,
            DtlsConnectionHash::Sha256 => "SHA-256"@,
            DtlsConnectionHash::Sha384 => "SHA-384"@,
            DtlsConnectionHash::Sha512 => "SHA-512"@,
            DtlsConnectionHash::UnknownHash => ""@,
        }
    }

    pub fn as_str(&self) -> (r: &'static str)
        ensures
            r@ == self.text(),
    {
        match self {
            DtlsConnectionHash::Sha1 => "SHA-1",
            DtlsConnectionHash::Sha224 => "SHA-224",
            DtlsConnectionHash::Sha256 => "SHA-256",
            DtlsConnectionHash::Sha384 => "SHA-384",
            DtlsConnectionHash::Sha512 => "SHA-512",
            DtlsConnectionHash::UnknownHash => "",
        }
    }
}

/// The value of a property.
#[derive(Debug, PartialEq, Eq)]
pub enum PropertyValue {
    Int(i32),
    Bool(bool),
    Text(String),
}

pub enum PropertyValueView {
    Int(i32),
    Bool(bool),
    Text(Seq<char>),
}

impl DeepView for PropertyValue {
    type V = PropertyValueView;

    open spec fn deep_view(&self) -> PropertyValueView {
        match self {
            PropertyValue::Int(n) => PropertyValueView::Int(*n),
            PropertyValue::Bool(b) => PropertyValueView::Bool(*b),
            PropertyValue::Text(s) => PropertyValueView::Text(s@),
        }
    }
}

impl Duplicate for PropertyValue {
    fn duplicate(&self) -> (r: Self) {
        match self {
            PropertyValue::Int(n) => PropertyValue::Int(*n),
            PropertyValue::Bool(b) => PropertyValue::Bool(*b),
            PropertyValue::Text(s) => PropertyValue::Text(s.clone()),
        }
    }
}

/// A flat bag of properties: a key has one value, and setting it again
/// replaces the value where the key stands.
#[derive(Debug, PartialEq, Eq)]
pub struct Properties(pub Vec<(String, PropertyValue)>);

impl DeepView for Properties {
    type V = Seq<(Seq<char>, PropertyValueView)>;

    open spec fn deep_view(&self) -> Seq<(Seq<char>, PropertyValueView)> {
        self.0.deep_view()
    }
}

impl Properties {
    /// No key has two values.
    pub open spec fn wf(&self) -> bool {
        distinct_keys(self.deep_view())
    }

    pub fn new() -> (r: Self)
        ensures
            r.deep_view() == Seq::<(Seq<char>, PropertyValueView)>::empty(),
            r.wf(),
    {
        let entries: Vec<(String, PropertyValue)> = Vec::new();
        assert(entries.deep_view() =~= Seq::<(Seq<char>, PropertyValueView)>::empty());
        Properties(entries)
    }

    pub fn set_int(&mut self, key: &str, value: i32)
        ensures
            final(self).deep_view() == put(
                old(self).deep_view(),
                key@,
                PropertyValueView::Int(value),
            ),
            old(self).wf() ==> final(self).wf(),
    {
        proof {
            if self.wf() {
                lemma_put_keeps_distinct(self.deep_view(), key@, PropertyValueView::Int(value));
            }
        }
        insert(&mut self.0, key.to_owned(), PropertyValue::Int(value));
    }

    pub fn set_bool(&mut self, key: &str, value: bool)
        ensures
            final(self).deep_view() == put(
                old(self).deep_view(),
                key@,
                PropertyValueView::Bool(value),
            ),
            old(self).wf() ==> final(self).wf(),
    {
        proof {
            if self.wf() {
                lemma_put_keeps_distinct(self.deep_view(), key@, PropertyValueView::Bool(value));
            }
        }
        insert(&mut self.0, key.to_owned(), PropertyValue::Bool(value));
    }

    pub fn set_string(&mut self, key: &str, value: &str)
        ensures
            final(self).deep_view() == put(
                old(self).deep_view(),
                key@,
                PropertyValueView::Text(value@),
            ),
            old(self).wf() ==> final(self).wf(),
    {
        proof {
            if self.wf() {
                lemma_put_keeps_distinct(self.deep_view(), key@, PropertyValueView::Text(value@));
            }
        }
        insert(&mut self.0, key.to_owned(), PropertyValue::Text(value.to_owned()));
    }
}

impl Default for Properties {
    fn default() -> (r: Self)
        ensures
            r.deep_view() == Seq::<(Seq<char>, PropertyValueView)>::empty(),
            r.wf(),
    {
        Properties::new()
    }
}

impl Clone for Properties {
    fn clone(&self) -> (r: Self)
        ensures
            r.deep_view() == self.deep_view(),
    {
        Properties(self.0.duplicate())
    }
}

/// The kind of media that a source group carries.
#[derive(Debug, Clone, Copy, PartialEq, Eq, Structural)]
pub enum MediaFrameType {
    Unknown,
    Audio,
    Video,
    Text,
}

/// A group of incoming sources, as it is asked of the engine: an absent
/// name is the empty text and an absent source is zero.
#[derive(Debug, PartialEq, Eq)]
pub struct RtpIncomingSourceGroup {
    pub kind: MediaFrameType,
    pub mid: String,
    pub rid: String,
    pub media_ssrc: u32,
    pub rtx_ssrc: u32,
}

pub struct RtpIncomingSourceGroupView {
    pub kind: MediaFrameType,
    pub mid: Seq<char>,
    pub rid: Seq<char>,
    pub media_ssrc: u32,
    pub rtx_ssrc: u32,
}

impl DeepView for RtpIncomingSourceGroup {
    type V = RtpIncomingSourceGroupView;

    open spec fn deep_view(&self) -> RtpIncomingSourceGroupView {
        RtpIncomingSourceGroupView {
            kind: self.kind,
            mid: self.mid@,
            rid: self.rid@,
            media_ssrc: self.media_ssrc,
            rtx_ssrc: self.rtx_ssrc,
        }
    }
}

impl Duplicate for RtpIncomingSourceGroup {
    fn duplicate(&self) -> (r: Self) {
        RtpIncomingSourceGroup {
            kind: self.kind,
            mid: self.mid.clone(),
            rid: self.rid.clone(),
            media_ssrc: self.media_ssrc,
            rtx_ssrc: self.rtx_ssrc,
        }
    }
}

/// A group of outgoing sources, as it is asked of the engine.
#[derive(Debug, PartialEq, Eq)]
pub struct RtpOutgoingSourceGroup {
    pub kind: MediaFrameType,
    pub mid: String,
    pub media_ssrc: u32,
    pub rtx_ssrc: u32,
}

pub struct RtpOutgoingSourceGroupView {
    pub kind: MediaFrameType,
    pub mid: Seq<char>,
    pub media_ssrc: u32,
    pub rtx_ssrc: u32,
}

impl DeepView for RtpOutgoingSourceGroup {
    type V = RtpOutgoingSourceGroupView;

    open spec fn deep_view(&self) -> RtpOutgoingSourceGroupView {
        RtpOutgoingSourceGroupView {
            kind: self.kind,
            mid: self.mid@,
            media_ssrc: self.media_ssrc,
            rtx_ssrc: self.rtx_ssrc,
        }
    }
}

impl Duplicate for RtpOutgoingSourceGroup {
    fn duplicate(&self) -> (r: Self) {
        RtpOutgoingSourceGroup {
            kind: self.kind,
            mid: self.mid.clone(),
            media_ssrc: self.media_ssrc,
            rtx_ssrc: self.rtx_ssrc,
        }
    }
}

/// The text of an optional name: the empty text where there is none.
pub open spec fn name_or_empty(name: Option<&str>) -> Seq<char> {
    match name {
        Some(n) => n@,
        None => Seq::empty(),
    }
}

pub fn text_or_empty(name: Option<&str>) -> (r: String)
    ensures
        r@ == name_or_empty(name),
{
    match name {
        Some(n) => n.to_owned(),
        None => String::new(),
    }
}

/// The number of an optional source: zero where there is none.
pub open spec fn ssrc_or_zero(ssrc: Option<u32>) -> u32 {
    match ssrc {
        Some(n) => n,
        None => 0,
    }
}

/// A connection over a bundle transport, as it is asked of the engine: the
/// user name and properties it is made with, and all that is asked of it
/// afterwards, in order.
#[derive(Debug)]
pub struct RtpBundleTransportConnection {
    pub username: String,
    pub properties: Properties,
    pub remote_properties: Option<Properties>,
    pub local_properties: Option<Properties>,
    pub incoming_source_groups: Vec<RtpIncomingSourceGroup>,
    pub outgoing_source_groups: Vec<RtpOutgoingSourceGroup>,
    pub remote_candidates: Vec<(String, u16)>,
}

pub struct RtpBundleTransportConnectionView {
    pub username: Seq<char>,
    pub properties: Seq<(Seq<char>, PropertyValueView)>,
    pub remote_properties: Option<Seq<(Seq<char>, PropertyValueView)>>,
    pub local_properties: Option<Seq<(Seq<char>, PropertyValueView)>>,
    pub incoming_source_groups: Seq<RtpIncomingSourceGroupView>,
    pub outgoing_source_groups: Seq<RtpOutgoingSourceGroupView>,
    pub remote_candidates: Seq<(Seq<char>, u16)>,
}

impl DeepView for RtpBundleTransportConnection {
    type V = RtpBundleTransportConnectionView;

    open spec fn deep_view(&self) -> RtpBundleTransportConnectionView {
        RtpBundleTransportConnectionView {
            username: self.username@,
            properties: self.properties.deep_view(),
            remote_properties: self.remote_properties.deep_view(),
            local_properties: self.local_properties.deep_view(),
            incoming_source_groups: self.incoming_source_groups.deep_view(),
            outgoing_source_groups: self.outgoing_source_groups.deep_view(),
            remote_candidates: self.remote_candidates.deep_view(),
        }
    }
}

impl RtpBundleTransportConnectionView {
    /// A connection of which nothing was asked yet.
    pub open spec fn fresh(username: Seq<char>, properties: Seq<(Seq<char>, PropertyValueView)>)
        -> Self {
        RtpBundleTransportConnectionView {
            username,
            properties,
            remote_properties: None,
            local_properties: None,
            incoming_source_groups: Seq::empty(),
            outgoing_source_groups: Seq::empty(),
            remote_candidates: Seq::empty(),
        }
    }
}

impl RtpBundleTransportConnection {
    pub fn set_remote_properties(&mut self, properties: &Properties)
        ensures
            final(self).deep_view() == (RtpBundleTransportConnectionView {
                remote_properties: Some(properties.deep_view()),
                ..old(self).deep_view()
            }),
    {
        self.remote_properties = Some(properties.clone());
    }

    pub fn set_local_properties(&mut self, properties: &Properties)
        ensures
            final(self).deep_view() == (RtpBundleTransportConnectionView {
                local_properties: Some(properties.deep_view()),
                ..old(self).deep_view()
            }),
    {
        self.local_properties = Some(properties.clone());
    }

    /// Asks for a group of incoming sources and hands back what was asked.
    pub fn add_incoming_source_group(
        &mut self,
        kind: MediaFrameType,
        mid: Option<&str>,
        rid: Option<&str>,
        media_ssrc: Option<u32>,
        rtx_ssrc: Option<u32>,
    ) -> (r: RtpIncomingSourceGroup)
        ensures
            r.deep_view() == (RtpIncomingSourceGroupView {
                kind,
                mid: name_or_empty(mid),
                rid: name_or_empty(rid),
                media_ssrc: ssrc_or_zero(media_ssrc),
                rtx_ssrc: ssrc_or_zero(rtx_ssrc),
            }),
            final(self).deep_view() == (RtpBundleTransportConnectionView {
                incoming_source_groups: old(self).deep_view().incoming_source_groups.push(
                    r.deep_view(),
                ),
                ..old(self).deep_view()
            }),
    {
        let group = RtpIncomingSourceGroup {
            kind,
            mid: text_or_empty(mid),
            rid: text_or_empty(rid),
            media_ssrc: match media_ssrc {
                Some(n) => n,
                None => 0,
            },
            rtx_ssrc: match rtx_ssrc {
                Some(n) => n,
                None => 0,
            },
        };
        let ghost before = self.incoming_source_groups.deep_view();
        self.incoming_source_groups.push(group.duplicate());
        assert(self.incoming_source_groups.deep_view() =~= before.push(group.deep_view()));
        group
    }

    /// Asks for a group of outgoing sources and hands back what was asked.
    pub fn add_outgoing_source_group(
        &mut self,
        kind: MediaFrameType,
        mid: Option<&str>,
        media_ssrc: u32,
        rtx_ssrc: Option<u32>,
    ) -> (r: RtpOutgoingSourceGroup)
        ensures
            r.deep_view() == (RtpOutgoingSourceGroupView {
                kind,
                mid: name_or_empty(mid),
                media_ssrc,
                rtx_ssrc: ssrc_or_zero(rtx_ssrc),
            }),
            final(self).deep_view() == (RtpBundleTransportConnectionView {
                outgoing_source_groups: old(self).deep_view().outgoing_source_groups.push(
                    r.deep_view(),
                ),
                ..old(self).deep_view()
            }),
    {
        let group = RtpOutgoingSourceGroup {
            kind,
            mid: text_or_empty(mid),
            media_ssrc,
            rtx_ssrc: match rtx_ssrc {
                Some(n) => n,
                None => 0,
            },
        };
        let ghost before = self.outgoing_source_groups.deep_view();
        self.outgoing_source_groups.push(group.duplicate());
        assert(self.outgoing_source_groups.deep_view() =~= before.push(group.deep_view()));
        group
    }

    pub fn add_remote_candidate(&mut self, ip: &str, port: u16)
        ensures
            final(self).deep_view() == (RtpBundleTransportConnectionView {
                remote_candidates: old(self).deep_view().remote_candidates.push((ip@, port)),
                ..old(self).deep_view()
            }),
    {
        let ghost before = self.remote_candidates.deep_view();
        self.remote_candidates.push((ip.to_owned(), port));
        assert(self.remote_candidates.deep_view() =~= before.push((ip@, port)));
    }
}

/// A bundle transport, as it is asked of the engine: the port it is to
/// listen on, where zero leaves the choice to the engine.
#[derive(Debug, Clone, Copy, PartialEq, Eq, Structural)]
pub struct RtpBundleTransport {
    pub port: u16,
}

impl RtpBundleTransport {
    pub fn new(port: Option<u16>) -> (r: Self)
        ensures
            r.port == match port {
                Some(p) => p,
                None => 0u16,
            },
    {
        RtpBundleTransport {
            port: match port {
                Some(p) => p,
                None => 0,
            },
        }
    }

    pub fn get_local_port(&self) -> (r: u16)
        ensures
            r == self.port,
    {
        self.port
    }

    /// A connection over this transport, of which nothing was asked yet.
    pub fn add_ice_transport(&self, username: &str, properties: &Properties) -> (r:
        RtpBundleTransportConnection)
        ensures
            r.deep_view() == RtpBundleTransportConnectionView::fresh(
                username@,
                properties.deep_view(),
            ),
    {
        let incoming_source_groups: Vec<RtpIncomingSourceGroup> = Vec::new();
        let outgoing_source_groups: Vec<RtpOutgoingSourceGroup> = Vec::new();
        let remote_candidates: Vec<(String, u16)> = Vec::new();
        assert(incoming_source_groups.deep_view() =~= Seq::<RtpIncomingSourceGroupView>::empty());
        assert(outgoing_source_groups.deep_view() =~= Seq::<RtpOutgoingSourceGroupView>::empty());
        assert(remote_candidates.deep_view() =~= Seq::<(Seq<char>, u16)>::empty());
        RtpBundleTransportConnection {
            username: username.to_owned(),
            properties: properties.clone(),
            remote_properties: None,
            local_properties: None,
            incoming_source_groups,
            outgoing_source_groups,
            remote_candidates,
        }
    }
}

} // verus!
