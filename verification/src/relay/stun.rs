//! STUN messages: how they are framed, and what the attributes of a TURN client hold.
//!
//! The codec takes a message apart into its attributes, puts one together, computes the keyed hash of
//! one, masks addresses, and decodes texts and error codes; which attributes count and what they
//! make of a message is decided here.

use crate::addr::SocketAddr;
use crate::bytes;
use crate::relay;
use crate::text;
use bytecodec::{DecodeExt, EncodeExt};
use stun_codec::net::{SocketAddrDecoder, SocketAddrEncoder};
use stun_codec::rfc5389::attributes::{
    ErrorCodeDecoder, MessageIntegrity, NonceDecoder, Realm, RealmDecoder, Username, UsernameDecoder,
};
use stun_codec::{
    Attribute, AttributeType, Message, MessageClass, MessageDecoder, MessageEncoder, Method,
    RawAttribute, TransactionId,
};
use vstd::prelude::*;
use vstd::string::*;

verus! {

#[derive(Clone, Copy, Debug, PartialEq, Eq, Structural)]
pub enum StunClass {
    Request,
    Indication,
    SuccessResponse,
    ErrorResponse,
}

impl StunClass {
    pub open spec fn text(&self) -> Seq<char> {
        match self {
            StunClass::Request => "Request"@,
            StunClass::Indication => "Indication"@,
            StunClass::SuccessResponse => "SuccessResponse"@,
            StunClass::ErrorResponse => "ErrorResponse"@,
        }
    }

    pub fn name(&self) -> (s: &'static str)
        ensures
            s@ == self.text(),
    {
        match self {
            StunClass::Request => "Request",
            StunClass::Indication => "Indication",
            StunClass::SuccessResponse => "SuccessResponse",
            StunClass::ErrorResponse => "ErrorResponse",
        }
    }
}

/// The methods of TURN.
pub const ALLOCATE: u16 = 0x003;

pub const REFRESH: u16 = 0x004;

pub const SEND: u16 = 0x006;

pub const DATA: u16 = 0x007;

pub const CREATE_PERMISSION: u16 = 0x008;

/// The types of the attributes that a TURN client knows.
pub const USERNAME_ATTR: u16 = 0x0006;

pub const INTEGRITY_ATTR: u16 = 0x0008;

pub const ERROR_ATTR: u16 = 0x0009;

pub const LIFETIME_ATTR: u16 = 0x000D;

pub const PEER_ATTR: u16 = 0x0012;

pub const DATA_ATTR: u16 = 0x0013;

pub const REALM_ATTR: u16 = 0x0014;

pub const NONCE_ATTR: u16 = 0x0015;

pub const RELAYED_ATTR: u16 = 0x0016;

pub const TRANSPORT_ATTR: u16 = 0x0019;

/// The number of bytes that a user name stays under.
pub const USERNAME_LIMIT: usize = 513;

/// The number of characters that a realm or a nonce stays under.
pub const TEXT_LIMIT: usize = 128;

/// A message as it is framed: class, method, transaction, and the attributes with their types, in
/// order.
#[derive(Debug)]
pub struct RawMessage {
    pub class: StunClass,
    pub method: u16,
    pub transaction: [u8; 12],
    pub attrs: Vec<(u16, Vec<u8>)>,
}

/// What a framed message holds.
#[verifier::ext_equal]
pub struct Raw {
    pub class: StunClass,
    pub method: u16,
    pub transaction: Seq<u8>,
    pub attrs: Seq<(u16, Seq<u8>)>,
}

impl View for RawMessage {
    type V = Raw;

    open spec fn view(&self) -> Raw {
        Raw {
            class: self.class,
            method: self.method,
            transaction: self.transaction@,
            attrs: self.attrs@.map_values(|a: (u16, Vec<u8>)| (a.0, a.1@)),
        }
    }
}

/// The message that bytes frame, if they frame one.
pub uninterp spec fn framed(bytes: Seq<u8>) -> Option<Raw>;

/// The bytes that frame a message.
pub uninterp spec fn framing(m: Raw) -> Seq<u8>;

/// The keyed hash over a framed message that a long-term credential gives.
pub uninterp spec fn integrity(
    message: Seq<u8>,
    username: Seq<char>,
    realm: Seq<char>,
    password: Seq<char>,
) -> Seq<u8>;

/// How many bytes attributes take in a message: each has a header of four, and its value is padded
/// to a multiple of four.
pub open spec fn attrs_len(attrs: Seq<(u16, Seq<u8>)>) -> nat
    decreases attrs.len(),
{
    if attrs.len() == 0 {
        0
    } else {
        let n = attrs.last().1.len();
        attrs_len(attrs.drop_last()) + 4 + n + relay::padding(n)
    }
}

/// `stun_codec::MessageDecoder` with `RawAttribute`, which takes every attribute as bytes: the
/// framed message, or the reason why the bytes frame none. Of that text nothing is said.
#[verifier::external_body]
fn stun_decode(buf: &[u8]) -> (r: Result<RawMessage, String>)
    ensures
        match r {
            Ok(m) => framed(buf@) == Some(m@),
            Err(_) => framed(buf@) is None,
        },
{
    let decoded = MessageDecoder::<RawAttribute>::new().decode_from_bytes(buf);
    let result = decoded.map_err(|e| e.to_string())?;
    let msg = result.map_err(|m| format!("broken STUN message: {m:?}"))?;
    let class = match msg.class() {
        MessageClass::Request => StunClass::Request,
        MessageClass::Indication => StunClass::Indication,
        MessageClass::SuccessResponse => StunClass::SuccessResponse,
        MessageClass::ErrorResponse => StunClass::ErrorResponse,
    };
    let attrs = msg.attributes().map(|a| (a.get_type().as_u16(), a.value().to_vec())).collect();
    let transaction = *msg.transaction_id().as_bytes();
    Ok(RawMessage { class, method: msg.method().as_u16(), transaction, attrs })
}

/// `stun_codec::MessageEncoder` with `RawAttribute`. It refuses exactly the messages whose
/// attributes do not fit into 16 bits of length; what it frames, the decoder takes apart into the
/// same message. The codec does so for methods below 16, as those of TURN are. Of the text of a
/// refusal nothing is said.
#[verifier::external_body]
pub(crate) fn stun_encode(m: &RawMessage) -> (r: Result<Vec<u8>, String>)
    requires
        m.method < 0x10,
    ensures
        r is Ok <==> attrs_len(m@.attrs) < 0x1_0000,
        r matches Ok(b) ==> b@ == framing(m@) && framed(b@) == Some(m@),
{
    let class = match m.class {
        StunClass::Request => MessageClass::Request,
        StunClass::Indication => MessageClass::Indication,
        StunClass::SuccessResponse => MessageClass::SuccessResponse,
        StunClass::ErrorResponse => MessageClass::ErrorResponse,
    };
    let method = Method::new(m.method).map_err(|e| e.to_string())?;
    let mut msg = Message::<RawAttribute>::new(class, method, TransactionId::new(m.transaction));
    for (kind, value) in &m.attrs {
        msg.add_attribute(RawAttribute::new(AttributeType::new(*kind), value.clone()));
    }
    MessageEncoder::new().encode_into_bytes(msg).map_err(|e| e.to_string())
}

/// `stun_codec::rfc5389::attributes::MessageIntegrity::new_long_term_credential` on the message
/// that `request` frames. It refuses neither a framed message nor a name and a realm that are short
/// enough; the hash is a function of the message and the credential.
#[verifier::external_body]
fn stun_integrity(request: &[u8], username: &str, realm: &str, password: &str) -> (hash: [u8; 20])
    requires
        framed(request@) is Some,
        username.spec_bytes().len() < USERNAME_LIMIT,
        realm@.len() < TEXT_LIMIT,
    ensures
        hash@ == integrity(request@, username@, realm@, password@),
{
    let decoded = MessageDecoder::<RawAttribute>::new().decode_from_bytes(request);
    let msg = decoded.expect("framed").expect("framed");
    let name = Username::new(username.to_string()).expect("short enough");
    let realm = Realm::new(realm.to_string()).expect("short enough");
    let hash = MessageIntegrity::new_long_term_credential(&msg, &name, &realm, password);
    hash.expect("a framed message").hmac_sha1()
}

/// What addresses are masked with: the magic number of STUN and the transaction.
pub open spec fn mask(transaction: Seq<u8>) -> Seq<u8> {
    seq![0x21u8, 0x12u8, 0xA4u8, 0x42u8] + transaction
}

/// Each byte with the mask's byte at its place.
pub open spec fn masked(s: Seq<u8>, m: Seq<u8>) -> Seq<u8> {
    Seq::new(s.len(), |i: int| s[i] ^ m[i])
}

/// Whether a value has the form of an address: a byte that does not count, the family, a port of
/// two bytes, and an address of four bytes or of sixteen, as the family has it.
pub open spec fn has_address(value: Seq<u8>) -> bool {
    (value.len() == 8 && value[1] == 1) || (value.len() == 20 && value[1] == 2)
}

/// The same value with port and address masked, and with the byte that does not count zero.
pub open spec fn masked_address(value: Seq<u8>, transaction: Seq<u8>) -> Seq<u8> {
    let m = mask(transaction);
    seq![0u8, value[1]] + masked(value.subrange(2, 4), m) + masked(value.skip(4), m)
}

/// `stun_codec::net::socket_addr_xor`, on an address in the format of the codec's
/// `SocketAddrDecoder` and `SocketAddrEncoder`. It masks what was plain and gives back what was
/// masked; it takes exactly the values that have the form of an address.
#[verifier::external_body]
fn xor_address(value: &[u8], transaction: &[u8; 12]) -> (r: Option<Vec<u8>>)
    ensures
        match r {
            Some(v) => has_address(value@) && v@ == masked_address(value@, transaction@),
            None => !has_address(value@),
        },
{
    let address = SocketAddrDecoder::new().decode_from_bytes(value).ok()?;
    let other = stun_codec::net::socket_addr_xor(address, TransactionId::new(*transaction));
    SocketAddrEncoder::new().encode_into_bytes(other).ok()
}

/// An address in that format, unmasked.
pub open spec fn plain_address(a: SocketAddr) -> Seq<u8> {
    match a {
        SocketAddr::V4(ip, port) => seq![0u8, 1u8] + bytes::be_bytes(port as nat, 2)
            + bytes::be_bytes(ip as nat, 4),
        SocketAddr::V6(ip, port, _, _) => seq![0u8, 2u8] + bytes::be_bytes(port as nat, 2)
            + bytes::be_bytes(ip as nat, 16),
    }
}

/// The address that an unmasked value holds.
pub open spec fn address_in(plain: Seq<u8>) -> SocketAddr {
    let port = bytes::be_value(plain.subrange(2, 4)) as u16;
    if plain[1] == 1 {
        SocketAddr::V4(bytes::be_value(plain.skip(4)) as u32, port)
    } else {
        SocketAddr::V6(bytes::be_value(plain.skip(4)) as u128, port, 0, 0)
    }
}

/// A masked address as the value of an attribute.
pub open spec fn address_value(a: SocketAddr, transaction: Seq<u8>) -> Seq<u8> {
    masked_address(plain_address(a), transaction)
}

/// The address that the value of an attribute holds, if it holds one.
pub open spec fn address_of(value: Seq<u8>, transaction: Seq<u8>) -> Option<SocketAddr> {
    if has_address(value) {
        Some(address_in(masked_address(value, transaction)))
    } else {
        None
    }
}

/// What an attribute carries of an address: all but the flow information and the scope of one of
/// the sixth version.
pub open spec fn carried(a: SocketAddr) -> SocketAddr {
    match a {
        SocketAddr::V4(..) => a,
        SocketAddr::V6(ip, port, _, _) => SocketAddr::V6(ip, port, 0, 0),
    }
}

proof fn lemma_masked_twice(s: Seq<u8>, m: Seq<u8>)
    ensures
        masked(masked(s, m), m) == s,
{
    assert forall|i: int| 0 <= i < s.len() implies #[trigger] masked(masked(s, m), m)[i] == s[i] by {
        let (a, b) = (s[i], m[i]);
        assert((a ^ b) ^ b == a) by (bit_vector);
    }
    assert(masked(masked(s, m), m) =~= s);
}

/// A plain address has the form of one, and its parts are found in their places.
proof fn lemma_plain_address(a: SocketAddr)
    ensures
        has_address(plain_address(a)),
        plain_address(a)[0] == 0,
        address_in(plain_address(a)) == carried(a),
{
    let p = plain_address(a);
    bytes::lemma_pow256();
    match a {
        SocketAddr::V4(ip, port) => {
            bytes::lemma_be_bytes_len(port as nat, 2);
            bytes::lemma_be_bytes_len(ip as nat, 4);
            bytes::lemma_be_roundtrip(port as nat, 2);
            bytes::lemma_be_roundtrip(ip as nat, 4);
            assert(p.subrange(2, 4) =~= bytes::be_bytes(port as nat, 2));
            assert(p.skip(4) =~= bytes::be_bytes(ip as nat, 4));
        },
        SocketAddr::V6(ip, port, _, _) => {
            bytes::lemma_be_bytes_len(port as nat, 2);
            bytes::lemma_be_bytes_len(ip as nat, 16);
            bytes::lemma_be_roundtrip(port as nat, 2);
            bytes::lemma_be_roundtrip(ip as nat, 16);
            assert(p.subrange(2, 4) =~= bytes::be_bytes(port as nat, 2));
            assert(p.skip(4) =~= bytes::be_bytes(ip as nat, 16));
        },
    }
}

/// What was written as an address is read as that address, as far as an attribute carries it.
pub proof fn law_address_roundtrip(a: SocketAddr, transaction: Seq<u8>)
    requires
        transaction.len() == 12,
    ensures
        address_of(address_value(a, transaction), transaction) == Some(carried(a)),
{
    let m = mask(transaction);
    let p = plain_address(a);
    let v = address_value(a, transaction);
    lemma_plain_address(a);
    lemma_masked_twice(p.subrange(2, 4), m);
    lemma_masked_twice(p.skip(4), m);
    assert(v.subrange(2, 4) =~= masked(p.subrange(2, 4), m));
    assert(v.skip(4) =~= masked(p.skip(4), m));
    assert(masked_address(v, transaction) =~= p);
}

pub proof fn lemma_address_len(a: SocketAddr, transaction: Seq<u8>)
    ensures
        address_value(a, transaction).len() == (match a {
            SocketAddr::V4(..) => 8nat,
            SocketAddr::V6(..) => 20nat,
        }),
{
    lemma_plain_address(a);
}

/// Writes an address as the value of an attribute.
pub fn write_address(a: SocketAddr, transaction: &[u8; 12]) -> (value: Vec<u8>)
    ensures
        value@ == address_value(a, transaction@),
{
    let mut plain: Vec<u8> = Vec::new();
    plain.push(0);
    match a {
        SocketAddr::V4(ip, port) => {
            plain.push(1);
            bytes::push_be16(&mut plain, port);
            bytes::push_be32(&mut plain, ip);
        },
        SocketAddr::V6(ip, port, _, _) => {
            plain.push(2);
            bytes::push_be16(&mut plain, port);
            bytes::push_be64(&mut plain, (ip / 0x1_0000_0000_0000_0000) as u64);
            bytes::push_be64(&mut plain, (ip % 0x1_0000_0000_0000_0000) as u64);
            proof {
                bytes::lemma_pow256();
                bytes::lemma_be_bytes_split(ip as nat, 8, 8);
            }
        },
    }
    proof {
        assert(plain@ =~= plain_address(a));
        lemma_plain_address(a);
    }
    match xor_address(plain.as_slice(), transaction) {
        Some(value) => value,
        None => plain,
    }
}

/// Reads an address out of the value of an attribute.
pub fn read_address(value: &[u8], transaction: &[u8; 12]) -> (a: Option<SocketAddr>)
    ensures
        a == address_of(value@, transaction@),
{
    match xor_address(value, transaction) {
        Some(plain) => {
            let port: u16 = bytes::read_be16(plain.as_slice(), 2);
            if plain[1] == 1 {
                proof {
                    assert(plain@.subrange(4, 8) =~= plain@.skip(4));
                }
                Some(SocketAddr::V4(bytes::read_be32(plain.as_slice(), 4), port))
            } else {
                let hi: u64 = bytes::read_be64(plain.as_slice(), 4);
                let lo: u64 = bytes::read_be64(plain.as_slice(), 12);
                proof {
                    let ip = plain@.skip(4);
                    bytes::lemma_pow256();
                    bytes::lemma_be_value_split(ip, 8);
                    assert(ip.take(8) =~= plain@.subrange(4, 12));
                    assert(ip.skip(8) =~= plain@.subrange(12, 20));
                    assert(hi * 0x1_0000_0000_0000_0000
                        <= 0xFFFF_FFFF_FFFF_FFFF_0000_0000_0000_0000) by (nonlinear_arith)
                        requires
                            hi <= 0xFFFF_FFFF_FFFF_FFFF,
                    ;
                }
                Some(
                    SocketAddr::V6(hi as u128 * 0x1_0000_0000_0000_0000 + lo as u128, port, 0, 0),
                )
            }
        },
        None => None,
    }
}

/// The text of a realm or a nonce, if the value holds one that is short enough.
pub open spec fn text_of(value: Seq<u8>) -> Option<Seq<char>> {
    if vstd::utf8::valid_utf8(value) && vstd::utf8::decode_utf8(value).len() < TEXT_LIMIT {
        Some(vstd::utf8::decode_utf8(value))
    } else {
        None
    }
}

/// `stun_codec::rfc5389::attributes::RealmDecoder`: the text of a realm, which it takes exactly
/// where the value is UTF-8 of fewer characters than the limit.
#[verifier::external_body]
fn decode_realm(value: &[u8]) -> (s: Option<String>)
    ensures
        text::opt_view(s) == text_of(value@),
{
    RealmDecoder::new().decode_from_bytes(value).ok().map(|realm| realm.text().to_string())
}

/// `stun_codec::rfc5389::attributes::NonceDecoder`: the text of a nonce, which it takes exactly
/// where the value is UTF-8 of fewer characters than the limit.
#[verifier::external_body]
fn decode_nonce(value: &[u8]) -> (s: Option<String>)
    ensures
        text::opt_view(s) == text_of(value@),
{
    NonceDecoder::new().decode_from_bytes(value).ok().map(|nonce| nonce.value().to_string())
}

/// Whether a value holds a user name that is short enough.
pub open spec fn is_username(value: Seq<u8>) -> bool {
    vstd::utf8::valid_utf8(value) && value.len() < USERNAME_LIMIT
}

/// `stun_codec::rfc5389::attributes::UsernameDecoder`: it takes exactly the values that are UTF-8
/// of fewer bytes than the limit.
#[verifier::external_body]
fn decodes_username(value: &[u8]) -> (ok: bool)
    ensures
        ok == is_username(value@),
{
    UsernameDecoder::new().decode_from_bytes(value).is_ok()
}

/// `stun_codec::rfc5389::attributes::Username::new`: it refuses exactly the names that reach the
/// limit. Of the text of a refusal nothing is said.
#[verifier::external_body]
fn username_refusal(name: &str) -> (r: Option<String>)
    ensures
        r is Some <==> name.spec_bytes().len() >= USERNAME_LIMIT,
{
    Username::new(name.to_string()).err().map(|e| e.to_string())
}

/// The error code that the value of an attribute holds: a class from 3 to 5, in the lower bits of
/// the third byte, is the hundreds; a text follows.
pub open spec fn error_of(value: Seq<u8>) -> Option<u16> {
    if value.len() >= 4 && 3 <= value[2] % 8 <= 5 && value[3] < 100 && vstd::utf8::valid_utf8(
        value.skip(4),
    ) {
        Some(((value[2] % 8) * 100 + value[3]) as u16)
    } else {
        None
    }
}

/// `stun_codec::rfc5389::attributes::ErrorCodeDecoder`: the code, from the class and the number of
/// the value; it takes exactly the values of that form.
#[verifier::external_body]
fn decode_error(value: &[u8]) -> (code: Option<u16>)
    ensures
        code == error_of(value@),
{
    ErrorCodeDecoder::new().decode_from_bytes(value).ok().map(|error| error.code())
}

/// A message with what a TURN client reads of it.
#[derive(Debug)]
pub struct StunMessage {
    pub class: StunClass,
    pub method: u16,
    pub realm: Option<String>,
    pub nonce: Option<String>,
    pub error_code: Option<u16>,
    pub relayed: Option<SocketAddr>,
    /// In seconds.
    pub lifetime: Option<u32>,
    pub peer: Option<SocketAddr>,
    pub data: Option<Vec<u8>>,
}

/// What a TURN client reads of a message.
#[verifier::ext_equal]
pub struct Fields {
    pub class: StunClass,
    pub method: u16,
    pub realm: Option<Seq<char>>,
    pub nonce: Option<Seq<char>>,
    pub error_code: Option<u16>,
    pub relayed: Option<SocketAddr>,
    pub lifetime: Option<u32>,
    pub peer: Option<SocketAddr>,
    pub data: Option<Seq<u8>>,
}

impl View for StunMessage {
    type V = Fields;

    open spec fn view(&self) -> Fields {
        Fields {
            class: self.class,
            method: self.method,
            realm: text::opt_view(self.realm),
            nonce: text::opt_view(self.nonce),
            error_code: self.error_code,
            relayed: self.relayed,
            lifetime: self.lifetime,
            peer: self.peer,
            data: match self.data {
                Some(d) => Some(d@),
                None => None,
            },
        }
    }
}

/// The earlier one of two values.
pub open spec fn earlier<T>(a: Option<T>, b: T) -> Option<T> {
    match a {
        Some(v) => Some(v),
        None => Some(b),
    }
}

/// The fields after one more attribute. The first of a type counts; one of a known type that holds
/// no value of that type breaks the message.
pub open spec fn with_attr(f: Fields, transaction: Seq<u8>, kind: u16, value: Seq<u8>) -> Option<
    Fields,
> {
    if kind == USERNAME_ATTR {
        if is_username(value) {
            Some(f)
        } else {
            None
        }
    } else if kind == INTEGRITY_ATTR {
        if value.len() == 20 {
            Some(f)
        } else {
            None
        }
    } else if kind == TRANSPORT_ATTR {
        if value.len() == 4 {
            Some(f)
        } else {
            None
        }
    } else if kind == REALM_ATTR {
        match text_of(value) {
            Some(s) => Some(Fields { realm: earlier(f.realm, s), ..f }),
            None => None,
        }
    } else if kind == NONCE_ATTR {
        match text_of(value) {
            Some(s) => Some(Fields { nonce: earlier(f.nonce, s), ..f }),
            None => None,
        }
    } else if kind == ERROR_ATTR {
        match error_of(value) {
            Some(c) => Some(Fields { error_code: earlier(f.error_code, c), ..f }),
            None => None,
        }
    } else if kind == LIFETIME_ATTR {
        if value.len() == 4 {
            Some(Fields { lifetime: earlier(f.lifetime, bytes::be_value(value) as u32), ..f })
        } else {
            None
        }
    } else if kind == RELAYED_ATTR {
        match address_of(value, transaction) {
            Some(a) => Some(Fields { relayed: earlier(f.relayed, a), ..f }),
            None => None,
        }
    } else if kind == PEER_ATTR {
        match address_of(value, transaction) {
            Some(a) => Some(Fields { peer: earlier(f.peer, a), ..f }),
            None => None,
        }
    } else if kind == DATA_ATTR {
        Some(Fields { data: earlier(f.data, value), ..f })
    } else {
        Some(f)
    }
}

/// The fields that attributes give; none when one of them breaks the message.
pub open spec fn fields_of(class: StunClass, method: u16, transaction: Seq<u8>, attrs: Seq<
    (u16, Seq<u8>),
>) -> Option<Fields>
    decreases attrs.len(),
{
    if attrs.len() == 0 {
        Some(
            Fields {
                class,
                method,
                realm: None,
                nonce: None,
                error_code: None,
                relayed: None,
                lifetime: None,
                peer: None,
                data: None,
            },
        )
    } else {
        match fields_of(class, method, transaction, attrs.drop_last()) {
            Some(f) => with_attr(f, transaction, attrs.last().0, attrs.last().1),
            None => None,
        }
    }
}

/// What a TURN client reads of a framed message; nothing when it is broken.
pub open spec fn fields_in(m: Raw) -> Option<Fields> {
    fields_of(m.class, m.method, m.transaction, m.attrs)
}

/// What a TURN client reads of a datagram; nothing when it frames no message or a broken one.
pub open spec fn fields_in_bytes(buf: Seq<u8>) -> Option<Fields> {
    match framed(buf) {
        Some(m) => fields_in(m),
        None => None,
    }
}

impl StunMessage {
    fn take_attr(self, transaction: &[u8; 12], kind: u16, value: &[u8]) -> (r: Option<StunMessage>)
        ensures
            match r {
                Some(m) => with_attr(self@, transaction@, kind, value@) == Some(m@),
                None => with_attr(self@, transaction@, kind, value@) is None,
            },
    {
        let mut m = self;
        if kind == USERNAME_ATTR {
            if !decodes_username(value) {
                return None;
            }
        } else if kind == INTEGRITY_ATTR {
            if value.len() != 20 {
                return None;
            }
        } else if kind == TRANSPORT_ATTR {
            if value.len() != 4 {
                return None;
            }
        } else if kind == REALM_ATTR {
            match decode_realm(value) {
                Some(s) => {
                    if m.realm.is_none() {
                        m.realm = Some(s);
                    }
                },
                None => {
                    return None;
                },
            }
        } else if kind == NONCE_ATTR {
            match decode_nonce(value) {
                Some(s) => {
                    if m.nonce.is_none() {
                        m.nonce = Some(s);
                    }
                },
                None => {
                    return None;
                },
            }
        } else if kind == ERROR_ATTR {
            match decode_error(value) {
                Some(c) => {
                    if m.error_code.is_none() {
                        m.error_code = Some(c);
                    }
                },
                None => {
                    return None;
                },
            }
        } else if kind == LIFETIME_ATTR {
            if value.len() != 4 {
                return None;
            }
            proof {
                assert(value@.subrange(0, 4) =~= value@);
            }
            let seconds: u32 = bytes::read_be32(value, 0);
            if m.lifetime.is_none() {
                m.lifetime = Some(seconds);
            }
        } else if kind == RELAYED_ATTR {
            match read_address(value, transaction) {
                Some(a) => {
                    if m.relayed.is_none() {
                        m.relayed = Some(a);
                    }
                },
                None => {
                    return None;
                },
            }
        } else if kind == PEER_ATTR {
            match read_address(value, transaction) {
                Some(a) => {
                    if m.peer.is_none() {
                        m.peer = Some(a);
                    }
                },
                None => {
                    return None;
                },
            }
        } else if kind == DATA_ATTR {
            if m.data.is_none() {
                m.data = Some(bytes::copy_bytes(value));
            }
        }
        Some(m)
    }
}

/// Reads what a TURN client needs of a framed message; nothing when it is broken.
pub fn read_message(raw: &RawMessage) -> (r: Option<StunMessage>)
    ensures
        match r {
            Some(m) => fields_in(raw@) == Some(m@),
            None => fields_in(raw@) is None,
        },
{
    let ghost all = raw@.attrs;
    let mut m = StunMessage {
        class: raw.class,
        method: raw.method,
        realm: None,
        nonce: None,
        error_code: None,
        relayed: None,
        lifetime: None,
        peer: None,
        data: None,
    };
    let mut i: usize = 0;
    proof {
        assert(all.take(0) =~= Seq::empty());
    }
    while i < raw.attrs.len()
        invariant
            all == raw@.attrs,
            i <= raw.attrs@.len(),
            fields_of(raw.class, raw.method, raw.transaction@, all.take(i as int)) == Some(m@),
        decreases raw.attrs@.len() - i,
    {
        let ghost part = all.take(i + 1);
        proof {
            assert(part.drop_last() =~= all.take(i as int));
            assert(part.last() == (raw.attrs@[i as int].0, raw.attrs@[i as int].1@));
        }
        match m.take_attr(&raw.transaction, raw.attrs[i].0, raw.attrs[i].1.as_slice()) {
            Some(next) => {
                m = next;
            },
            None => {
                proof {
                    lemma_broken_stays(raw@, i + 1);
                }
                return None;
            },
        }
        i += 1;
    }
    proof {
        assert(all.take(i as int) =~= all);
    }
    Some(m)
}

proof fn lemma_broken_stays(m: Raw, n: int)
    requires
        0 <= n <= m.attrs.len(),
        fields_of(m.class, m.method, m.transaction, m.attrs.take(n)) is None,
    ensures
        fields_in(m) is None,
    decreases m.attrs.len() - n,
{
    if n < m.attrs.len() {
        assert(m.attrs.take(n + 1).drop_last() =~= m.attrs.take(n));
        lemma_broken_stays(m, n + 1);
    } else {
        assert(m.attrs.take(n) =~= m.attrs);
    }
}

/// Reads what a TURN client needs of a datagram. The error says why it holds no message.
pub fn parse(buf: &[u8]) -> (r: Result<StunMessage, String>)
    ensures
        match r {
            Ok(m) => fields_in_bytes(buf@) == Some(m@),
            Err(_) => fields_in_bytes(buf@) is None,
        },
{
    match stun_decode(buf) {
        Ok(raw) => match read_message(&raw) {
            Some(m) => Ok(m),
            None => Err("broken STUN message".to_owned()),
        },
        Err(e) => Err(e),
    }
}

/// Who asks: what authenticates a request.
pub struct Credentials {
    pub username: Seq<char>,
    pub password: Seq<char>,
    pub realm: Seq<char>,
    pub nonce: Seq<char>,
}

/// Whether a request can carry these credentials.
pub open spec fn fits(c: Credentials) -> bool {
    &&& vstd::utf8::encode_utf8(c.username).len() < USERNAME_LIMIT
    &&& c.realm.len() < TEXT_LIMIT
    &&& c.nonce.len() < TEXT_LIMIT
}

/// A request with one attribute of its own and with who asks.
pub open spec fn claimed(
    method: u16,
    transaction: Seq<u8>,
    first: (u16, Seq<u8>),
    c: Credentials,
) -> Raw {
    Raw {
        class: StunClass::Request,
        method,
        transaction,
        attrs: seq![
            first,
            (USERNAME_ATTR, vstd::utf8::encode_utf8(c.username)),
            (REALM_ATTR, vstd::utf8::encode_utf8(c.realm)),
            (NONCE_ATTR, vstd::utf8::encode_utf8(c.nonce)),
        ],
    }
}

/// The same request with the keyed hash of all that precedes it.
pub open spec fn authenticated(
    method: u16,
    transaction: Seq<u8>,
    first: (u16, Seq<u8>),
    c: Credentials,
) -> Raw {
    let m = claimed(method, transaction, first, c);
    Raw {
        attrs: m.attrs.push(
            (INTEGRITY_ATTR, integrity(framing(m), c.username, c.realm, c.password)),
        ),
        ..m
    }
}

proof fn lemma_utf8_len(s: Seq<char>)
    ensures
        vstd::utf8::encode_utf8(s).len() <= 4 * s.len(),
    decreases s.len(),
{
    if s.len() > 0 {
        lemma_utf8_len(s.drop_first());
    }
}

/// Frames a request of this method with one short attribute of its own, authenticated with a
/// long-term credential. Fails for credentials that no request can carry.
pub fn authenticate(
    method: u16,
    transaction: [u8; 12],
    kind: u16,
    value: Vec<u8>,
    username: &str,
    password: &str,
    realm: &str,
    nonce: &str,
) -> (r: Result<Vec<u8>, String>)
    requires
        method < 0x10,
        value@.len() <= 20,
    ensures
        ({
            let c = Credentials {
                username: username@,
                password: password@,
                realm: realm@,
                nonce: nonce@,
            };
            let m = authenticated(method, transaction@, (kind, value@), c);
            match r {
                Ok(b) => fits(c) && b@ == framing(m) && framed(b@) == Some(m),
                Err(_) => !fits(c),
            }
        }),
{
    let ghost c = Credentials {
        username: username@,
        password: password@,
        realm: realm@,
        nonce: nonce@,
    };
    if let Some(refusal) = username_refusal(username) {
        return Err(refusal);
    }
    if realm.unicode_len() >= TEXT_LIMIT || nonce.unicode_len() >= TEXT_LIMIT {
        return Err("realm or nonce too long".to_owned());
    }
    let ghost first = (kind, value@);
    let mut attrs: Vec<(u16, Vec<u8>)> = Vec::new();
    attrs.push((kind, value));
    attrs.push((USERNAME_ATTR, bytes::copy_bytes(username.as_bytes())));
    attrs.push((REALM_ATTR, bytes::copy_bytes(realm.as_bytes())));
    attrs.push((NONCE_ATTR, bytes::copy_bytes(nonce.as_bytes())));
    let mut m = RawMessage { class: StunClass::Request, method, transaction, attrs };
    proof {
        lemma_utf8_len(realm@);
        lemma_utf8_len(nonce@);
        assert(m@ =~= claimed(method, transaction@, first, c));
        lemma_claimed_len(method, transaction@, first, c);
    }
    let head: Vec<u8> = stun_encode(&m)?;
    let hash: [u8; 20] = stun_integrity(head.as_slice(), username, realm, password);
    m.attrs.push((INTEGRITY_ATTR, bytes::copy_bytes(hash.as_slice())));
    proof {
        assert(m@ =~= authenticated(method, transaction@, first, c));
        let attrs = m@.attrs;
        assert(attrs.drop_last() =~= claimed(method, transaction@, first, c).attrs);
        assert(attrs.last().1.len() == 20);
    }
    stun_encode(&m)
}

proof fn lemma_claimed_len(
    method: u16,
    transaction: Seq<u8>,
    first: (u16, Seq<u8>),
    c: Credentials,
)
    requires
        fits(c),
        first.1.len() <= 20,
    ensures
        attrs_len(claimed(method, transaction, first, c).attrs) < 0x2000,
{
    lemma_utf8_len(c.realm);
    lemma_utf8_len(c.nonce);
    let a = claimed(method, transaction, first, c).attrs;
    reveal_with_fuel(attrs_len, 5);
    assert(a.drop_last().drop_last().drop_last().drop_last().len() == 0);
    assert(a.drop_last().last() == a[2]);
    assert(a.drop_last().drop_last().last() == a[1]);
    assert(a.drop_last().drop_last().drop_last().last() == a[0]);
}

/// A request that is authenticated is what was asked for, in its transaction, with who asks, and
/// with the keyed hash of all that precedes it at the end.
pub proof fn law_request_says_who_asks(
    method: u16,
    transaction: [u8; 12],
    kind: u16,
    value: Vec<u8>,
    username: &str,
    password: &str,
    realm: &str,
    nonce: &str,
    r: Result<Vec<u8>, String>,
)
    requires
        method < 0x10,
        value@.len() <= 20,
        call_ensures(
            authenticate,
            (method, transaction, kind, value, username, password, realm, nonce),
            r,
        ),
    ensures
        r is Ok <==> username.spec_bytes().len() < 513 && realm@.len() < 128 && nonce@.len() < 128,
        r matches Ok(b) ==> {
            &&& framed(b@) matches Some(m)
            &&& m.class == StunClass::Request && m.method == method && m.transaction == transaction@
            &&& m.attrs.len() == 5
            &&& m.attrs[0] == (kind, value@)
            &&& m.attrs[1] == (0x0006u16, username.spec_bytes())
            &&& m.attrs[2] == (0x0014u16, realm.spec_bytes())
            &&& m.attrs[3] == (0x0015u16, nonce.spec_bytes())
            &&& m.attrs[4] == (
                0x0008u16,
                integrity(
                    framing(Raw { attrs: m.attrs.take(4), ..m }),
                    username@,
                    realm@,
                    password@,
                ),
            )
        },
{
    if let Ok(b) = r {
        let m = framed(b@)->0;
        let c = Credentials {
            username: username@,
            password: password@,
            realm: realm@,
            nonce: nonce@,
        };
        let head = claimed(method, transaction@, (kind, value@), c);
        assert(m.attrs.take(4) =~= head.attrs);
    }
}

/// An address goes into an attribute and comes out of it as it went in, and in the attribute the
/// address does not stand in the clear: its bytes are those of the address, each masked by the
/// magic number and the transaction.
pub proof fn law_address_is_masked(
    a: SocketAddr,
    transaction: &[u8; 12],
    value: Vec<u8>,
    v: &[u8],
    r: Option<SocketAddr>,
)
    requires
        call_ensures(write_address, (a, transaction), value),
        v@ == value@,
        call_ensures(read_address, (v, transaction), r),
    ensures
        match a {
            SocketAddr::V4(ip, port) => {
                &&& r == Some(a)
                &&& value@.len() == 8 && value@[0] == 0 && value@[1] == 1
                &&& value@[2] == ((port / 256) as u8) ^ 0x21u8
                &&& value@[4] == ((ip / 0x100_0000) as u8) ^ 0x21u8
            },
            SocketAddr::V6(ip, port, _, _) => {
                &&& r == Some(SocketAddr::V6(ip, port, 0, 0))
                &&& value@.len() == 20 && value@[0] == 0 && value@[1] == 2
                &&& value@[2] == ((port / 256) as u8) ^ 0x21u8
            },
        },
{
    law_address_roundtrip(a, transaction@);
    lemma_plain_address(a);
    lemma_address_len(a, transaction@);
    let p = plain_address(a);
    reveal_with_fuel(bytes::be_bytes, 5);
    match a {
        SocketAddr::V4(ip, port) => {
            assert(p.subrange(2, 4)[0] == (port / 256) as u8);
            assert(p.skip(4)[0] == p[4]);
            assert(p[4] == bytes::be_bytes(ip as nat, 4)[0]);
        },
        SocketAddr::V6(ip, port, _, _) => {
            assert(p[2] == bytes::be_bytes(port as nat, 2)[0]);
        },
    }
}

/// Whether a client's view of a message holds what an attribute of this type says.
pub open spec fn reads(f: Fields, transaction: Seq<u8>, kind: u16, value: Seq<u8>) -> bool {
    &&& kind == 0x0014 ==> f.realm == Some(vstd::utf8::decode_utf8(value))
    &&& kind == 0x0015 ==> f.nonce == Some(vstd::utf8::decode_utf8(value))
    &&& kind == 0x0009 ==> f.error_code is Some && f.error_code->0 == (value[2] % 8) * 100 + value[3]
    &&& kind == 0x000D ==> f.lifetime is Some && f.lifetime->0 == bytes::be_value(value)
    &&& kind == 0x0012 ==> f.peer is Some && f.peer == address_of(value, transaction)
    &&& kind == 0x0016 ==> f.relayed is Some && f.relayed == address_of(value, transaction)
    &&& kind == 0x0013 ==> f.data == Some(value)
}

/// Whether a client's view of a message holds nothing of attributes of this type.
pub open spec fn reads_none(f: Fields, kind: u16) -> bool {
    &&& kind == 0x0014 ==> f.realm is None
    &&& kind == 0x0015 ==> f.nonce is None
    &&& kind == 0x0009 ==> f.error_code is None
    &&& kind == 0x000D ==> f.lifetime is None
    &&& kind == 0x0012 ==> f.peer is None
    &&& kind == 0x0016 ==> f.relayed is None
    &&& kind == 0x0013 ==> f.data is None
}

/// What the client reads of a message is what its attributes say: of each type the first one, and
/// nothing where there is none; class and method are the message's own.
pub proof fn law_first_attribute_counts(raw: &RawMessage, r: Option<StunMessage>, i: int, kind: u16)
    requires
        call_ensures(read_message, (raw,), r),
        r is Some,
        0 <= i < raw.attrs@.len(),
        forall|j: int| 0 <= j < i ==> (#[trigger] raw.attrs@[j]).0 != raw.attrs@[i].0,
        forall|j: int| 0 <= j < raw.attrs@.len() ==> (#[trigger] raw.attrs@[j]).0 != kind,
    ensures
        r matches Some(m) && {
            &&& m@.class == raw.class && m@.method == raw.method
            &&& reads(m@, raw.transaction@, raw.attrs@[i].0, raw.attrs@[i].1@)
            &&& reads_none(m@, kind)
        },
{
    let all = raw@.attrs;
    assert(all[i] == (raw.attrs@[i].0, raw.attrs@[i].1@));
    assert forall|j: int| 0 <= j < i implies (#[trigger] all[j]).0 != all[i].0 by {
        assert(raw.attrs@[j].0 != raw.attrs@[i].0);
    }
    assert forall|j: int| 0 <= j < all.len() implies (#[trigger] all[j]).0 != kind by {
        assert(raw.attrs@[j].0 != kind);
    }
    lemma_first_is_read(raw.class, raw.method, raw.transaction@, all, i);
    lemma_none_is_read(raw.class, raw.method, raw.transaction@, all, kind);
}

proof fn lemma_none_is_read(
    class: StunClass,
    method: u16,
    transaction: Seq<u8>,
    attrs: Seq<(u16, Seq<u8>)>,
    kind: u16,
)
    requires
        fields_of(class, method, transaction, attrs) is Some,
        forall|j: int| 0 <= j < attrs.len() ==> (#[trigger] attrs[j]).0 != kind,
    ensures
        fields_of(class, method, transaction, attrs) matches Some(f) && reads_none(f, kind) && f.class
            == class && f.method == method,
    decreases attrs.len(),
{
    if attrs.len() > 0 {
        let rest = attrs.drop_last();
        assert forall|j: int| 0 <= j < rest.len() implies (#[trigger] rest[j]).0 != kind by {
            assert(rest[j] == attrs[j]);
        }
        lemma_none_is_read(class, method, transaction, rest, kind);
        assert(attrs[attrs.len() - 1].0 != kind);
    }
}

proof fn lemma_first_is_read(
    class: StunClass,
    method: u16,
    transaction: Seq<u8>,
    attrs: Seq<(u16, Seq<u8>)>,
    i: int,
)
    requires
        fields_of(class, method, transaction, attrs) is Some,
        0 <= i < attrs.len(),
        forall|j: int| 0 <= j < i ==> (#[trigger] attrs[j]).0 != attrs[i].0,
    ensures
        fields_of(class, method, transaction, attrs) matches Some(f) && reads(
            f,
            transaction,
            attrs[i].0,
            attrs[i].1,
        ),
    decreases attrs.len(),
{
    let rest = attrs.drop_last();
    let kind = attrs[i].0;
    if i == attrs.len() - 1 {
        assert forall|j: int| 0 <= j < rest.len() implies (#[trigger] rest[j]).0 != kind by {
            assert(rest[j] == attrs[j]);
        }
        lemma_none_is_read(class, method, transaction, rest, kind);
        let value = attrs[i].1;
        if kind == 0x000D && value.len() == 4 {
            bytes::lemma_pow256();
            bytes::lemma_be_value_roundtrip(value);
        }
    } else {
        assert(rest[i] == attrs[i]);
        assert forall|j: int| 0 <= j < i implies (#[trigger] rest[j]).0 != rest[i].0 by {
            assert(rest[j] == attrs[j]);
        }
        lemma_first_is_read(class, method, transaction, rest, i);
    }
}

/// Whether an attribute of a type that the client knows has the form of that type; one of another
/// type has any.
pub open spec fn has_form(kind: u16, value: Seq<u8>) -> bool {
    &&& kind == 0x0006 ==> vstd::utf8::valid_utf8(value) && value.len() < 513
    &&& kind == 0x0008 ==> value.len() == 20
    &&& kind == 0x0019 ==> value.len() == 4
    &&& kind == 0x000D ==> value.len() == 4
    &&& kind == 0x0014 || kind == 0x0015 ==> vstd::utf8::valid_utf8(value) && vstd::utf8::decode_utf8(
        value,
    ).len() < 128
    &&& kind == 0x0009 ==> value.len() >= 4 && 3 <= value[2] % 8 <= 5 && value[3] < 100
        && vstd::utf8::valid_utf8(value.skip(4))
    &&& kind == 0x0012 || kind == 0x0016 ==> (value.len() == 8 && value[1] == 1) || (value.len() == 20
        && value[1] == 2)
}

/// A message is read exactly when all its attributes have the form of their types.
pub proof fn law_malformed_attributes_break(raw: &RawMessage, r: Option<StunMessage>)
    requires
        call_ensures(read_message, (raw,), r),
    ensures
        r is Some <==> forall|i: int|
            0 <= i < raw.attrs@.len() ==> has_form((#[trigger] raw.attrs@[i]).0, raw.attrs@[i].1@),
{
    let all = raw@.attrs;
    lemma_forms(raw.class, raw.method, raw.transaction@, all);
    if r is Some {
        assert forall|i: int| 0 <= i < raw.attrs@.len() implies has_form(
            (#[trigger] raw.attrs@[i]).0,
            raw.attrs@[i].1@,
        ) by {
            assert(all[i] == (raw.attrs@[i].0, raw.attrs@[i].1@));
        }
    }
    if forall|i: int|
        0 <= i < raw.attrs@.len() ==> has_form((#[trigger] raw.attrs@[i]).0, raw.attrs@[i].1@) {
        assert forall|i: int| 0 <= i < all.len() implies has_form((#[trigger] all[i]).0, all[i].1) by {
            assert(all[i] == (raw.attrs@[i].0, raw.attrs@[i].1@));
        }
    }
}

proof fn lemma_forms(
    class: StunClass,
    method: u16,
    transaction: Seq<u8>,
    attrs: Seq<(u16, Seq<u8>)>,
)
    ensures
        fields_of(class, method, transaction, attrs) is Some <==> forall|i: int|
            0 <= i < attrs.len() ==> has_form((#[trigger] attrs[i]).0, attrs[i].1),
    decreases attrs.len(),
{
    if attrs.len() > 0 {
        let rest = attrs.drop_last();
        let n = attrs.len() - 1;
        lemma_forms(class, method, transaction, rest);
        if fields_of(class, method, transaction, attrs) is Some {
            assert forall|i: int| 0 <= i < attrs.len() implies has_form(
                (#[trigger] attrs[i]).0,
                attrs[i].1,
            ) by {
                if i < n {
                    assert(rest[i] == attrs[i]);
                }
            }
        }
        if forall|i: int| 0 <= i < attrs.len() ==> has_form((#[trigger] attrs[i]).0, attrs[i].1) {
            assert forall|i: int| 0 <= i < rest.len() implies has_form(
                (#[trigger] rest[i]).0,
                rest[i].1,
            ) by {
                assert(rest[i] == attrs[i]);
            }
            assert(has_form(attrs[n].0, attrs[n].1));
        }
    }
}

/// A datagram is read exactly when it frames a message whose attributes have the form of their
/// types, and then as that message.
pub proof fn law_datagram_is_read(
    buf: &[u8],
    r: Result<StunMessage, String>,
    raw: &RawMessage,
    m: Option<StunMessage>,
)
    requires
        call_ensures(parse, (buf,), r),
        call_ensures(read_message, (raw,), m),
    ensures
        framed(buf@) is None ==> r is Err,
        framed(buf@) == Some(raw@) ==> (r is Ok <==> m is Some),
        framed(buf@) == Some(raw@) && m is Some ==> (r->Ok_0)@ == (m->0)@,
{
}

} // verus!
