//! Wake-on-LAN: hardware addresses and the magic packet.
//!
//! The magic packet is six bytes 0xFF and the hardware address sixteen times. It is broadcast in
//! the local network, so a device in the sleeping one's network has to send it.

use crate::text;
use vstd::prelude::*;

verus! {

/// Whether `c` is a hexadecimal digit.
pub open spec fn is_hex(c: char) -> bool {
    ||| '0' <= c && c <= '9'
    ||| 'A' <= c && c <= 'F'
    ||| 'a' <= c && c <= 'f'
}

/// The value of a hexadecimal digit.
pub open spec fn hex_value(c: char) -> int {
    if '0' <= c && c <= '9' {
        c as int - '0' as int
    } else if 'A' <= c && c <= 'F' {
        c as int - 'A' as int + 10
    } else {
        c as int - 'a' as int + 10
    }
}

/// The hexadecimal digits of a text, in order.
pub open spec fn hex_digits(s: Seq<char>) -> Seq<char> {
    s.filter(|c: char| is_hex(c))
}

/// The address that a text spells: its hexadecimal digits, which must be twelve, in pairs.
pub open spec fn mac_of(s: Seq<char>) -> Option<Seq<u8>> {
    let h = hex_digits(s);
    if h.len() == 12 {
        Some(
            Seq::new(
                6,
                |i: int| (16 * hex_value(h[2 * i]) + hex_value(h[2 * i + 1])) as u8,
            ),
        )
    } else {
        None
    }
}

fn hex_digit(c: char) -> (r: Option<u8>)
    ensures
        match r {
            Some(d) => is_hex(c) && d as int == hex_value(c) && d < 16,
            None => !is_hex(c),
        },
{
    let n: u32 = c as u32;
    if 48 <= n && n <= 57 {
        Some((n - 48) as u8)
    } else if 65 <= n && n <= 70 {
        Some((n - 65) as u8 + 10)
    } else if 97 <= n && n <= 102 {
        Some((n - 97) as u8 + 10)
    } else {
        None
    }
}

/// Reads a hardware address: twelve hexadecimal digits, whatever stands between them.
pub fn parse_mac(s: &str) -> (r: Option<[u8; 6]>)
    ensures
        match r {
            Some(mac) => mac_of(s@) == Some(mac@),
            None => mac_of(s@) is None,
        },
{
    let v: Vec<char> = text::to_chars(s);
    let mut digits: Vec<u8> = Vec::new();
    let mut i: usize = 0;
    proof {
        reveal(Seq::filter);
        assert(v@.take(0) =~= Seq::empty());
    }
    while i < v.len()
        invariant
            v@ == s@,
            i <= v@.len(),
            digits@.len() == hex_digits(v@.take(i as int)).len(),
            forall|j: int|
                0 <= j < digits@.len() ==> #[trigger] digits@[j] < 16 && digits@[j] as int
                    == hex_value(hex_digits(v@.take(i as int))[j]),
        decreases v@.len() - i,
    {
        let ghost before = hex_digits(v@.take(i as int));
        let c: char = v[i];
        proof {
            reveal(Seq::filter);
            assert(v@.take(i + 1).drop_last() =~= v@.take(i as int));
            assert(v@.take(i + 1).last() == c);
        }
        match hex_digit(c) {
            Some(d) => {
                digits.push(d);
                assert(hex_digits(v@.take(i + 1)) == before.push(c));
            },
            None => {
                assert(hex_digits(v@.take(i + 1)) == before);
            },
        }
        i += 1;
    }
    proof {
        assert(v@.take(i as int) =~= v@);
    }
    if digits.len() != 12 {
        return None;
    }
    let mut mac: [u8; 6] = [0u8; 6];
    let mut k: usize = 0;
    while k < 6
        invariant
            v@ == s@,
            k <= 6,
            digits@.len() == 12,
            hex_digits(s@).len() == 12,
            forall|j: int|
                0 <= j < 12 ==> #[trigger] digits@[j] < 16 && digits@[j] as int == hex_value(
                    hex_digits(s@)[j],
                ),
            forall|j: int| 0 <= j < k ==> mac@[j] == 16 * digits@[2 * j] + digits@[2 * j + 1],
        decreases 6 - k,
    {
        let hi: u8 = digits[2 * k];
        let lo: u8 = digits[2 * k + 1];
        mac[k] = hi * 16 + lo;
        k += 1;
    }
    proof {
        let h = hex_digits(s@);
        assert forall|j: int| 0 <= j < 6 implies mac@[j] == (16 * hex_value(h[2 * j]) + hex_value(
            h[2 * j + 1],
        )) as u8 by {
            assert(mac@[j] == 16 * digits@[2 * j] + digits@[2 * j + 1]);
        }
        assert(mac@ =~= mac_of(s@)->0);
    }
    Some(mac)
}

/// The hexadecimal digit with this value, in upper case.
pub open spec fn hex_char(d: int) -> char {
    if d < 10 {
        (48 + d) as char
    } else {
        (55 + d) as char
    }
}

/// The two digits of a byte.
pub open spec fn hex_pair(b: u8) -> Seq<char> {
    seq![hex_char(b as int / 16), hex_char(b as int % 16)]
}

/// The pairs of all bytes with a colon between them.
pub open spec fn colon_hex(mac: Seq<u8>) -> Seq<char>
    decreases mac.len(),
{
    if mac.len() == 0 {
        Seq::empty()
    } else if mac.len() == 1 {
        hex_pair(mac[0])
    } else {
        colon_hex(mac.drop_last()) + seq![':'] + hex_pair(mac.last())
    }
}

fn push_hex(s: &mut String, d: u8)
    requires
        d < 16,
    ensures
        final(s)@ == old(s)@.push(hex_char(d as int)),
{
    let c: u8 = if d < 10 {
        d + 48
    } else {
        d + 55
    };
    s.push(c as char);
}

/// The canonical form of an address: pairs of upper-case digits with colons between them.
pub fn format_mac(mac: [u8; 6]) -> (s: String)
    ensures
        s@ == colon_hex(mac@),
{
    let mut s: String = String::new();
    let mut i: usize = 0;
    while i < 6
        invariant
            i <= 6,
            s@ == colon_hex(mac@.take(i as int)),
        decreases 6 - i,
    {
        let ghost before = s@;
        proof {
            assert(mac@.take(i + 1).drop_last() =~= mac@.take(i as int));
        }
        if i > 0 {
            s.push(':');
        }
        let b: u8 = mac[i];
        push_hex(&mut s, b / 16);
        push_hex(&mut s, b % 16);
        i += 1;
        proof {
            assert(s@ =~= colon_hex(mac@.take(i as int)));
        }
    }
    proof {
        assert(mac@.take(6) =~= mac@);
    }
    s
}

proof fn lemma_hex_char(d: int)
    requires
        0 <= d < 16,
    ensures
        is_hex(hex_char(d)),
        hex_value(hex_char(d)) == d,
        !is_hex(':'),
{
}

proof fn lemma_colon_hex_digits(mac: Seq<u8>)
    ensures
        hex_digits(colon_hex(mac)) == Seq::new(
            2 * mac.len(),
            |i: int| hex_char(if i % 2 == 0 { mac[i / 2] as int / 16 } else { mac[i / 2] as int % 16 }),
        ),
    decreases mac.len(),
{
    let p = |c: char| is_hex(c);
    reveal(Seq::filter);
    reveal_with_fuel(Seq::filter, 4);
    let want = Seq::new(
        2 * mac.len(),
        |i: int| hex_char(if i % 2 == 0 { mac[i / 2] as int / 16 } else { mac[i / 2] as int % 16 }),
    );
    if mac.len() == 0 {
        assert(hex_digits(colon_hex(mac)) =~= want);
    } else {
        let b = mac.last();
        let pair = hex_pair(b);
        lemma_hex_char(b as int / 16);
        lemma_hex_char(b as int % 16);
        assert(pair.drop_last() =~= seq![hex_char(b as int / 16)]);
        assert(pair.drop_last().drop_last() =~= Seq::<char>::empty());
        assert(pair.filter(p) =~= pair);
        if mac.len() == 1 {
            assert(hex_digits(colon_hex(mac)) =~= want);
        } else {
            let rest = mac.drop_last();
            lemma_colon_hex_digits(rest);
            assert(seq![':'].drop_last() =~= Seq::<char>::empty());
            assert(seq![':'].filter(p) =~= Seq::<char>::empty());
            Seq::filter_distributes_over_add(colon_hex(rest) + seq![':'], pair, p);
            Seq::filter_distributes_over_add(colon_hex(rest), seq![':'], p);
            assert(hex_digits(colon_hex(mac)) =~= want);
        }
    }
}

/// Reading the canonical form of an address gives the address back.
pub proof fn law_mac_roundtrip(mac: Seq<u8>)
    requires
        mac.len() == 6,
    ensures
        mac_of(colon_hex(mac)) == Some(mac),
{
    lemma_colon_hex_digits(mac);
    let h = hex_digits(colon_hex(mac));
    assert forall|i: int| 0 <= i < 6 implies (16 * hex_value(h[2 * i]) + hex_value(h[2 * i + 1]))
        as u8 == mac[i] by {
        assert((2 * i) / 2 == i && (2 * i + 1) / 2 == i);
        lemma_hex_char(mac[i] as int / 16);
        lemma_hex_char(mac[i] as int % 16);
    }
    assert(mac_of(colon_hex(mac))->0 =~= mac);
}

/// The magic packet of an address.
pub open spec fn magic(mac: Seq<u8>) -> Seq<u8> {
    Seq::new(
        102,
        |i: int|
            if i < 6 {
                0xFFu8
            } else {
                mac[i % 6]
            },
    )
}

/// The packet is six bytes 0xFF, and sixteen times the address.
pub proof fn law_magic_shape(mac: Seq<u8>)
    requires
        mac.len() == 6,
    ensures
        magic(mac).take(6) == seq![0xFFu8, 0xFFu8, 0xFFu8, 0xFFu8, 0xFFu8, 0xFFu8],
        forall|k: int|
            0 <= k < 16 ==> #[trigger] magic(mac).subrange(6 + k * 6, 12 + k * 6) == mac,
{
    assert(magic(mac).take(6) =~= seq![0xFFu8, 0xFFu8, 0xFFu8, 0xFFu8, 0xFFu8, 0xFFu8]);
    assert forall|k: int| 0 <= k < 16 implies #[trigger] magic(mac).subrange(6 + k * 6, 12 + k * 6)
        == mac by {
        assert(magic(mac).subrange(6 + k * 6, 12 + k * 6) =~= mac);
    }
}

/// The magic packet that wakes the device with this address.
pub fn magic_packet(mac: [u8; 6]) -> (p: [u8; 102])
    ensures
        p@ == magic(mac@),
{
    let mut p: [u8; 102] = [0xFFu8; 102];
    let mut i: usize = 6;
    while i < 102
        invariant
            6 <= i <= 102,
            forall|j: int| 0 <= j < 6 ==> p@[j] == 0xFF,
            forall|j: int| 6 <= j < i ==> p@[j] == mac@[j % 6],
        decreases 102 - i,
    {
        p[i] = mac[i % 6];
        i += 1;
    }
    proof {
        assert(p@ =~= magic(mac@));
    }
    p
}

/// Wakes the device whose address is written in `mac`: hands its magic packet to `send`, which
/// says whether it went out. False, with nothing sent, when `mac` is no address: `send` need not
/// take anything but that packet.
pub fn send_wol_str<F: FnOnce([u8; 102]) -> bool>(mac: &str, send: F) -> (sent: bool)
    requires
        forall|p: [u8; 102]|
            (mac_of(mac@) matches Some(m) && p@ == magic(m)) ==> #[trigger] send.requires((p,)),
    ensures
        match mac_of(mac@) {
            Some(m) => exists|p: [u8; 102]| p@ == magic(m) && #[trigger] send.ensures((p,), sent),
            None => !sent,
        },
{
    match parse_mac(mac) {
        Some(m) => {
            let p: [u8; 102] = magic_packet(m);
            send(p)
        },
        None => false,
    }
}

/// The interface types of Ethernet and Wi-Fi, and the state of an interface that is up.
pub const IF_TYPE_ETHERNET: u32 = 6;

pub const IF_TYPE_WIFI: u32 = 71;

pub const OPER_STATUS_UP: i32 = 1;

/// What the system says of a network adapter.
#[derive(Debug)]
pub struct Adapter {
    pub kind: u32,
    pub status: i32,
    pub address: Vec<u8>,
}

/// Whether an adapter's address can be reported: a wired or wireless one that is up, with an
/// address of six bytes that are not all zero.
pub open spec fn usable(kind: u32, status: i32, address: Seq<u8>) -> bool {
    &&& kind == IF_TYPE_ETHERNET || kind == IF_TYPE_WIFI
    &&& status == OPER_STATUS_UP
    &&& address.len() == 6
    &&& exists|i: int| 0 <= i < 6 && #[trigger] address[i] != 0
}

fn is_usable(a: &Adapter) -> (r: bool)
    ensures
        r == usable(a.kind, a.status, a.address@),
{
    if (a.kind != IF_TYPE_ETHERNET && a.kind != IF_TYPE_WIFI) || a.status != OPER_STATUS_UP
        || a.address.len() != 6 {
        return false;
    }
    let mut i: usize = 0;
    while i < 6
        invariant
            i <= 6,
            a.address@.len() == 6,
            a.kind == IF_TYPE_ETHERNET || a.kind == IF_TYPE_WIFI,
            a.status == OPER_STATUS_UP,
            forall|j: int| 0 <= j < i ==> a.address@[j] == 0,
        decreases 6 - i,
    {
        if a.address[i] != 0 {
            return true;
        }
        i += 1;
    }
    false
}

/// Whether none of the first `n` adapters is usable.
pub open spec fn none_usable(adapters: Seq<Adapter>, n: int) -> bool {
    forall|j: int|
        0 <= j < n ==> !usable(
            (#[trigger] adapters[j]).kind,
            adapters[j].status,
            adapters[j].address@,
        )
}

/// The address to report for this device: that of the first usable adapter.
pub fn local_mac(adapters: &Vec<Adapter>) -> (r: Option<String>)
    ensures
        match r {
            Some(s) => exists|i: int|
                {
                    &&& 0 <= i < adapters@.len()
                    &&& usable(
                        (#[trigger] adapters@[i]).kind,
                        adapters@[i].status,
                        adapters@[i].address@,
                    )
                    &&& s@ == colon_hex(adapters@[i].address@)
                    &&& none_usable(adapters@, i)
                },
            None => none_usable(adapters@, adapters@.len() as int),
        },
{
    let mut i: usize = 0;
    while i < adapters.len()
        invariant
            i <= adapters@.len(),
            forall|j: int|
                0 <= j < i ==> !usable(
                    (#[trigger] adapters@[j]).kind,
                    adapters@[j].status,
                    adapters@[j].address@,
                ),
        decreases adapters@.len() - i,
    {
        let a: &Adapter = &adapters[i];
        if is_usable(a) {
            let m: [u8; 6] = [
                a.address[0],
                a.address[1],
                a.address[2],
                a.address[3],
                a.address[4],
                a.address[5],
            ];
            proof {
                assert(m@ =~= a.address@);
            }
            return Some(format_mac(m));
        }
        i += 1;
    }
    None
}

/// The digit with this value, in lower case.
pub open spec fn lower_hex(d: int) -> char {
    if d < 10 {
        (48 + d) as char
    } else {
        (87 + d) as char
    }
}

/// The address in lower-case digits, with nothing between them.
pub open spec fn bare_hex(mac: Seq<u8>) -> Seq<char> {
    Seq::new(
        2 * mac.len(),
        |i: int| lower_hex(if i % 2 == 0 { mac[i / 2] as int / 16 } else { mac[i / 2] as int % 16 }),
    )
}

/// An address is read whatever case its digits have and whatever stands between them: the canonical
/// form and bare lower-case digits are the same address.
pub proof fn law_address_is_read(
    mac: [u8; 6],
    formatted: String,
    s: &str,
    r: Option<[u8; 6]>,
    bare: &str,
    b: Option<[u8; 6]>,
)
    requires
        call_ensures(format_mac, (mac,), formatted),
        s@ == formatted@,
        call_ensures(parse_mac, (s,), r),
        bare@ == bare_hex(mac@),
        call_ensures(parse_mac, (bare,), b),
    ensures
        r matches Some(m) && m@ == mac@,
        b matches Some(m) && m@ == mac@,
        formatted@.len() == 17,
        forall|i: int| 0 <= i < 5 ==> #[trigger] formatted@[3 * i + 2] == ':',
{
    law_mac_roundtrip(mac@);
    lemma_bare_digits(bare@, mac@);
    let h = hex_digits(bare@);
    assert forall|i: int| 0 <= i < 6 implies (16 * hex_value(h[2 * i]) + hex_value(h[2 * i + 1]))
        as u8 == mac@[i] by {
        assert((2 * i) / 2 == i && (2 * i + 1) / 2 == i);
    }
    assert(mac_of(bare@)->0 =~= mac@);
    lemma_colons(mac@);
}

proof fn lemma_bare_digits(s: Seq<char>, mac: Seq<u8>)
    requires
        s == bare_hex(mac),
    ensures
        hex_digits(s) == s,
{
    let p = |c: char| is_hex(c);
    assert forall|i: int| 0 <= i < s.len() implies p(#[trigger] s[i]) by {}
    lemma_filter_all(s, p);
}

proof fn lemma_filter_all(s: Seq<char>, p: spec_fn(char) -> bool)
    requires
        forall|i: int| 0 <= i < s.len() ==> p(#[trigger] s[i]),
    ensures
        s.filter(p) == s,
    decreases s.len(),
{
    reveal(Seq::filter);
    if s.len() > 0 {
        let rest = s.drop_last();
        assert forall|i: int| 0 <= i < rest.len() implies p(#[trigger] rest[i]) by {
            assert(rest[i] == s[i]);
        }
        lemma_filter_all(rest, p);
        assert(p(s[s.len() - 1]));
        assert(rest.push(s.last()) =~= s);
    } else {
        assert(s.filter(p) =~= s);
    }
}

proof fn lemma_colons(mac: Seq<u8>)
    requires
        mac.len() >= 1,
    ensures
        colon_hex(mac).len() == 3 * mac.len() - 1,
        forall|i: int| 0 <= i < mac.len() - 1 ==> #[trigger] colon_hex(mac)[3 * i + 2] == ':',
    decreases mac.len(),
{
    if mac.len() > 1 {
        let rest = mac.drop_last();
        lemma_colons(rest);
        assert forall|i: int| 0 <= i < mac.len() - 1 implies #[trigger] colon_hex(mac)[3 * i + 2]
            == ':' by {
            if i < rest.len() - 1 {
                assert(colon_hex(mac)[3 * i + 2] == colon_hex(rest)[3 * i + 2]);
            }
        }
    }
}

/// The packet that goes out wakes just that device: six bytes 0xFF, and sixteen times its address.
/// Two addresses have two packets.
pub proof fn law_packet_names_the_device(
    a: [u8; 6],
    p: [u8; 102],
    b: [u8; 6],
    q: [u8; 102],
    k: int,
    i: int,
)
    requires
        call_ensures(magic_packet, (a,), p),
        call_ensures(magic_packet, (b,), q),
        0 <= k < 16,
        0 <= i < 6,
    ensures
        p@[i] == 0xFF,
        p@[6 + 6 * k + i] == a@[i],
        p@ == q@ ==> a@ == b@,
{
    assert((6 + 6 * k + i) % 6 == i);
    if p@ == q@ {
        assert forall|j: int| 0 <= j < 6 implies a@[j] == b@[j] by {
            assert(p@[6 + j] == a@[j] && q@[6 + j] == b@[j]);
        }
        assert(a@ =~= b@);
    }
}

/// The address that is reported belongs to a wired or wireless adapter that is up and has an
/// address, and is that of the first such one; there is one to report whenever there is such an
/// adapter.
pub proof fn law_reported_address(adapters: &Vec<Adapter>, r: Option<String>, i: int)
    requires
        call_ensures(local_mac, (adapters,), r),
        0 <= i < adapters@.len(),
        adapters@[i].kind == 6 || adapters@[i].kind == 71,
        adapters@[i].status == 1,
        adapters@[i].address@.len() == 6,
        adapters@[i].address@[0] != 0,
        forall|j: int|
            0 <= j < i ==> (#[trigger] adapters@[j]).status != 1 || adapters@[j].address@.len() != 6 || (
            adapters@[j].kind != 6 && adapters@[j].kind != 71),
    ensures
        r matches Some(t) && t@ == colon_hex(adapters@[i].address@),
{
    let a = adapters@[i];
    assert(usable(a.kind, a.status, a.address@)) by {
        assert(a.address@[0] != 0);
    }
    assert forall|j: int| 0 <= j < i implies !usable(
        (#[trigger] adapters@[j]).kind,
        adapters@[j].status,
        adapters@[j].address@,
    ) by {}
    match r {
        Some(t) => {
            let k = choose|k: int|
                {
                    &&& 0 <= k < adapters@.len()
                    &&& usable(
                        (#[trigger] adapters@[k]).kind,
                        adapters@[k].status,
                        adapters@[k].address@,
                    )
                    &&& t@ == colon_hex(adapters@[k].address@)
                    &&& none_usable(adapters@, k)
                };
            if k > i {
                assert(!usable(adapters@[i].kind, adapters@[i].status, adapters@[i].address@));
            }
            assert(k == i);
        },
        None => {
            assert(!usable(adapters@[i].kind, adapters@[i].status, adapters@[i].address@));
        },
    }
}

/// Who is asked to wake a device by its address hands its packet to the network, and says whether
/// that went out; a text that is no address wakes nothing.
pub proof fn law_device_is_woken<F: FnOnce([u8; 102]) -> bool>(
    mac: [u8; 6],
    written: String,
    s: &str,
    send: F,
    sent: bool,
    p: [u8; 102],
    blank: &str,
    other: F,
    nothing: bool,
)
    requires
        call_ensures(format_mac, (mac,), written),
        s@ == written@,
        call_ensures(send_wol_str::<F>, (s, send), sent),
        call_ensures(magic_packet, (mac,), p),
        blank@.len() < 12,
        call_ensures(send_wol_str::<F>, (blank, other), nothing),
    ensures
        exists|q: [u8; 102]| q@ == p@ && #[trigger] send.ensures((q,), sent),
        !nothing,
{
    law_mac_roundtrip(mac@);
    let h = hex_digits(blank@);
    lemma_fewer_digits(blank@);
}

proof fn lemma_fewer_digits(s: Seq<char>)
    ensures
        hex_digits(s).len() <= s.len(),
    decreases s.len(),
{
    reveal(Seq::filter);
    if s.len() > 0 {
        lemma_fewer_digits(s.drop_last());
    }
}

/// An adapter's address is reported exactly when it is a wired or wireless one that is up, and the
/// address has six bytes that are not all zero; it is then reported in the canonical form.
pub proof fn law_single_adapter(
    adapters: &Vec<Adapter>,
    r: Option<String>,
    mac: [u8; 6],
    written: String,
)
    requires
        adapters@.len() == 1,
        call_ensures(local_mac, (adapters,), r),
        call_ensures(format_mac, (mac,), written),
    ensures
        ({
            let a = adapters@[0];
            &&& r is Some <==> (a.kind == 6 || a.kind == 71) && a.status == 1 && a.address@.len() == 6 && (
            a.address@[0] != 0 || a.address@[1] != 0 || a.address@[2] != 0 || a.address@[3] != 0
                || a.address@[4] != 0 || a.address@[5] != 0)
            &&& r is Some && mac@ == a.address@ ==> (r->0)@ == written@
        }),
{
    let a = adapters@[0];
    let some = a.address@[0] != 0 || a.address@[1] != 0 || a.address@[2] != 0 || a.address@[3] != 0
        || a.address@[4] != 0 || a.address@[5] != 0;
    if some && a.address@.len() == 6 {
        assert(exists|i: int| 0 <= i < 6 && #[trigger] a.address@[i] != 0);
    }
    if r is None {
        assert(none_usable(adapters@, 1));
        assert(!usable(adapters@[0].kind, adapters@[0].status, adapters@[0].address@));
    }
}

} // verus!
