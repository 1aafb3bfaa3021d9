//! Small value types that give the numbers and names of a session a meaning.

use vstd::prelude::*;
use vstd::std_specs::cmp::PartialEqSpecImpl;
use vstd::std_specs::convert::FromSpecImpl;
use crate::lexer::{find_token_end, token_end, Until};
use crate::text::{
    chars_of, decimal, hex_pair, join, parse_unsigned, push_decimal, push_hex_pair, unsigned_of,
};

verus! {

/// A token that should have been a number and is not, or is too large.
#[derive(Debug, Clone, Copy, PartialEq, Eq, Structural)]
pub struct InvalidNumber;

/// The bytes of a certificate fingerprint.
#[derive(Debug)]
pub struct CertificateFingerprint(pub Vec<u8>);

impl DeepView for CertificateFingerprint {
    type V = Seq<u8>;

    open spec fn deep_view(&self) -> Seq<u8> {
        self.0@
    }
}

/// The bytes written as the parts of `s` from `i` on, where the parts are
/// separated by colons and each is a hexadecimal number of at most 255,
/// with an optional `+` in front when `signed` is set.
pub open spec fn hex_bytes(s: Seq<char>, i: int, signed: bool) -> Option<Seq<u8>>
    decreases s.len() - i,
{
    let e = token_end(s, i, Until::Colon);
    let part = s.subrange(i, e);
    let byte = if signed {
        unsigned_of(part, 16, 255)
    } else {
        crate::text::plain_unsigned_of(part, 16, 255)
    };
    if 0 <= i <= e <= s.len() && byte is Some {
        if e == s.len() {
            Some(seq![byte->0 as u8])
        } else {
            match hex_bytes(s, e + 1, signed) {
                Some(rest) => Some(seq![byte->0 as u8] + rest),
                None => None,
            }
        }
    } else {
        None
    }
}

/// Two upper-case hexadecimal digits for each byte, with colons between.
pub open spec fn hex_text(bytes: Seq<u8>) -> Seq<char> {
    join(bytes.map_values(|b: u8| hex_pair(b)), seq![':'])
}

/// Reads colon-separated hexadecimal bytes from the whole of `input`.
pub fn parse_hex_bytes(input: &Vec<char>, signed: bool) -> (r: Option<Vec<u8>>)
    ensures
        match hex_bytes(input@, 0, signed) {
            Some(bytes) => r is Some && r->0@ == bytes,
            None => r is None,
        },
{
    let mut bytes: Vec<u8> = Vec::new();
    let mut i: usize = 0;
    loop
        invariant_except_break
            i <= input.len(),
            hex_bytes(input@, 0, signed) == match hex_bytes(input@, i as int, signed) {
                Some(rest) => Some(bytes@ + rest),
                None => None,
            },
        ensures
            match hex_bytes(input@, 0, signed) {
                Some(all) => bytes@ == all,
                None => false,
            },
        decreases input.len() - i,
    {
        let e = find_token_end(input, i, Until::Colon);
        let byte = if signed {
            parse_unsigned(input, i, e, 16, 255)
        } else {
            crate::text::parse_digits(input, i, e, 16, 255)
        };
        match byte {
            None => {
                return None;
            },
            Some(b) => {
                let ghost before = bytes@;
                bytes.push(b as u8);
                if e == input.len() {
                    assert(before + seq![b as u8] =~= bytes@);
                    break;
                }
                proof {
                    match hex_bytes(input@, e + 1, signed) {
                        Some(rest) => {
                            assert(before + (seq![b as u8] + rest) =~= bytes@ + rest);
                        },
                        None => {},
                    }
                }
                i = e + 1;
            },
        }
    }
    Some(bytes)
}

pub fn push_hex_text(out: &mut String, bytes: &Vec<u8>)
    ensures
        final(out)@ == old(out)@ + hex_text(bytes@),
{
    let ghost pairs = bytes@.map_values(|b: u8| hex_pair(b));
    let mut i: usize = 0;
    assert(pairs.take(0) =~= Seq::<Seq<char>>::empty());
    while i < bytes.len()
        invariant
            i <= bytes.len(),
            pairs == bytes@.map_values(|b: u8| hex_pair(b)),
            out@ == old(out)@ + join(pairs.take(i as int), seq![':']),
        decreases bytes.len() - i,
    {
        assert(pairs.take(i + 1).drop_last() =~= pairs.take(i as int));
        assert(pairs.take(i + 1).last() == hex_pair(bytes@[i as int]));
        if i > 0 {
            out.push(':');
        }
        push_hex_pair(out, bytes[i]);
        assert(out@ =~= old(out)@ + join(pairs.take(i + 1), seq![':']));
        i += 1;
    }
    assert(pairs.take(bytes.len() as int) =~= pairs);
}

impl CertificateFingerprint {
    /// Reads bytes written in hexadecimal with colons between them. Each
    /// part may be led by `+`.
    pub fn from_str(s: &str) -> (r: Result<Self, InvalidNumber>)
        ensures
            match hex_bytes(s@, 0, true) {
                Some(bytes) => r is Ok && r->Ok_0.deep_view() == bytes,
                None => r is Err,
            },
    {
        let input = chars_of(s);
        match parse_hex_bytes(&input, true) {
            Some(bytes) => Ok(CertificateFingerprint(bytes)),
            None => Err(InvalidNumber),
        }
    }

    pub fn to_string(&self) -> (r: String)
        ensures
            r@ == hex_text(self.deep_view()),
    {
        let mut out = String::new();
        push_hex_text(&mut out, &self.0);
        out
    }
}

impl Clone for CertificateFingerprint {
    fn clone(&self) -> (r: Self)
        ensures
            r.deep_view() == self.deep_view(),
    {
        CertificateFingerprint(clone_bytes(&self.0))
    }
}

pub fn clone_bytes(bytes: &Vec<u8>) -> (r: Vec<u8>)
    ensures
        r@ == bytes@,
{
    let mut out: Vec<u8> = Vec::new();
    let mut i: usize = 0;
    while i < bytes.len()
        invariant
            i <= bytes.len(),
            out@ == bytes@.take(i as int),
        decreases bytes.len() - i,
    {
        out.push(bytes[i]);
        assert(bytes@.take(i + 1) =~= bytes@.take(i as int).push(bytes@[i as int]));
        i += 1;
    }
    assert(bytes@.take(bytes.len() as int) =~= bytes@);
    out
}

impl PartialEq for CertificateFingerprint {
    fn eq(&self, other: &Self) -> (r: bool) {
        if self.0.len() != other.0.len() {
            return false;
        }
        let mut i: usize = 0;
        while i < self.0.len()
            invariant
                i <= self.0.len(),
                self.0.len() == other.0.len(),
                self.0@.take(i as int) == other.0@.take(i as int),
            decreases self.0.len() - i,
        {
            if self.0[i] != other.0[i] {
                return false;
            }
            assert(self.0@.take(i + 1) =~= self.0@.take(i as int).push(self.0@[i as int]));
            assert(other.0@.take(i + 1) =~= other.0@.take(i as int).push(other.0@[i as int]));
            i += 1;
        }
        assert(self.0@.take(i as int) =~= self.0@);
        assert(other.0@.take(i as int) =~= other.0@);
        true
    }
}

impl Eq for CertificateFingerprint {

}

impl PartialEqSpecImpl for CertificateFingerprint {
    open spec fn obeys_eq_spec() -> bool {
        true
    }

    open spec fn eq_spec(&self, other: &Self) -> bool {
        self.0@ == other.0@
    }
}

/// A synchronisation source identifier.
#[derive(Debug, Clone, Copy, PartialEq, Eq, Structural, Hash)]
pub struct Ssrc(pub u32);

impl DeepView for Ssrc {
    type V = Ssrc;

    open spec fn deep_view(&self) -> Ssrc {
        *self
    }
}

impl Ssrc {
    pub fn from_str(s: &str) -> (r: Result<Self, InvalidNumber>)
        ensures
            match unsigned_of(s@, 10, 0xffff_ffff) {
                Some(n) => r == Ok::<Self, InvalidNumber>(Ssrc(n as u32)),
                None => r is Err,
            },
    {
        let input = chars_of(s);
        assert(input@.subrange(0, input@.len() as int) =~= s@);
        match parse_unsigned(&input, 0, input.len(), 10, 0xffff_ffff) {
            Some(n) => Ok(Ssrc(n as u32)),
            None => Err(InvalidNumber),
        }
    }

    pub fn to_string(&self) -> (r: String)
        ensures
            r@ == decimal(self.0 as nat),
    {
        let mut out = String::new();
        push_decimal(&mut out, self.0 as u64);
        out
    }
}

impl From<u32> for Ssrc {
    fn from(value: u32) -> (r: Self) {
        Ssrc(value)
    }
}

impl FromSpecImpl<u32> for Ssrc {
    open spec fn obeys_from_spec() -> bool {
        true
    }

    open spec fn from_spec(value: u32) -> Self {
        Ssrc(value)
    }
}

/// An RTP payload type.
#[derive(Debug, Clone, Copy, PartialEq, Eq, Structural, Hash)]
pub struct PayloadType(pub u8);

impl DeepView for PayloadType {
    type V = PayloadType;

    open spec fn deep_view(&self) -> PayloadType {
        *self
    }
}

impl PayloadType {
    pub fn from_str(s: &str) -> (r: Result<Self, InvalidNumber>)
        ensures
            match unsigned_of(s@, 10, 255) {
                Some(n) => r == Ok::<Self, InvalidNumber>(PayloadType(n as u8)),
                None => r is Err,
            },
    {
        let input = chars_of(s);
        assert(input@.subrange(0, input@.len() as int) =~= s@);
        match parse_unsigned(&input, 0, input.len(), 10, 255) {
            Some(n) => Ok(PayloadType(n as u8)),
            None => Err(InvalidNumber),
        }
    }

    pub fn to_string(&self) -> (r: String)
        ensures
            r@ == decimal(self.0 as nat),
    {
        let mut out = String::new();
        push_decimal(&mut out, self.0 as u64);
        out
    }
}

/// The identifier of a media section.
#[derive(Debug, Hash)]
pub struct Mid(pub String);

impl DeepView for Mid {
    type V = Seq<char>;

    open spec fn deep_view(&self) -> Seq<char> {
        self.0@
    }
}

impl Mid {
    pub fn from_str(s: &str) -> (r: Result<Self, std::convert::Infallible>)
        ensures
            r is Ok,
            r->Ok_0.deep_view() == s@,
    {
        Ok(Mid(s.to_owned()))
    }

    pub fn to_string(&self) -> (r: String)
        ensures
            r@ == self.deep_view(),
    {
        self.0.clone()
    }

    pub fn borrow(&self) -> (r: &str)
        ensures
            r@ == self.deep_view(),
    {
        self.0.as_str()
    }
}

impl Clone for Mid {
    fn clone(&self) -> (r: Self)
        ensures
            r.deep_view() == self.deep_view(),
    {
        Mid(self.0.clone())
    }
}

impl PartialEq for Mid {
    fn eq(&self, other: &Self) -> (r: bool) {
        self.0 == other.0
    }
}

impl Eq for Mid {

}

impl PartialEqSpecImpl for Mid {
    open spec fn obeys_eq_spec() -> bool {
        true
    }

    open spec fn eq_spec(&self, other: &Self) -> bool {
        self.0@ == other.0@
    }
}

/// The identifier of one encoding of a media source.
#[derive(Debug, Hash)]
pub struct Rid(pub String);

impl DeepView for Rid {
    type V = Seq<char>;

    open spec fn deep_view(&self) -> Seq<char> {
        self.0@
    }
}

impl Rid {
    pub fn from_str(s: &str) -> (r: Result<Self, std::convert::Infallible>)
        ensures
            r is Ok,
            r->Ok_0.deep_view() == s@,
    {
        Ok(Rid(s.to_owned()))
    }

    pub fn to_string(&self) -> (r: String)
        ensures
            r@ == self.deep_view(),
    {
        self.0.clone()
    }

    pub fn borrow(&self) -> (r: &str)
        ensures
            r@ == self.deep_view(),
    {
        self.0.as_str()
    }
}

impl Clone for Rid {
    fn clone(&self) -> (r: Self)
        ensures
            r.deep_view() == self.deep_view(),
    {
        Rid(self.0.clone())
    }
}

impl PartialEq for Rid {
    fn eq(&self, other: &Self) -> (r: bool) {
        self.0 == other.0
    }
}

impl Eq for Rid {

}

impl PartialEqSpecImpl for Rid {
    open spec fn obeys_eq_spec() -> bool {
        true
    }

    open spec fn eq_spec(&self, other: &Self) -> bool {
        self.0@ == other.0@
    }
}

} // verus!
