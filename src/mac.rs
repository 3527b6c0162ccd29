//! Hardware addresses: parsing from text and encoding the magic packet.
use vstd::prelude::*;
use crate::text::chars_of;

verus! {

/// Number of octets in a hardware address.
pub const MAC_LEN: usize = 6;

/// Number of times the address is repeated in a magic packet.
pub const MAC_REPEATS: usize = 16;

/// A six-octet link-layer address.
#[derive(Clone, Copy, Debug, PartialEq, Eq)]
pub struct MacAddress {
    pub octets: [u8; 6],
}

impl View for MacAddress {
    type V = Seq<u8>;

    open spec fn view(&self) -> Seq<u8> {
        self.octets@
    }
}

/// Why a hardware address could not be read.
#[derive(Clone, Copy, Debug, PartialEq, Eq, Structural)]
pub enum AddressError {
    /// A group is not hexadecimal, does not fit an octet, or there are not six groups.
    InvalidAddressFormat,
}

pub open spec fn is_separator(c: char) -> bool {
    c == ':' || c == '-'
}

pub open spec fn is_hex_digit(c: char) -> bool {
    ('0' <= c && c <= '9') || ('a' <= c && c <= 'f') || ('A' <= c && c <= 'F')
}

pub open spec fn hex_digit_value(c: char) -> nat {
    if '0' <= c && c <= '9' {
        (c as nat - '0' as nat) as nat
    } else if 'a' <= c && c <= 'f' {
        (c as nat - 'a' as nat + 10) as nat
    } else {
        (c as nat - 'A' as nat + 10) as nat
    }
}

/// Value of a string of hexadecimal digits, most significant first.
pub open spec fn hex_value(t: Seq<char>) -> nat
    decreases t.len(),
{
    if t.len() == 0 {
        0
    } else {
        hex_value(t.drop_last()) * 16 + hex_digit_value(t.last())
    }
}

/// The octet a group denotes: one or more hex digits whose value fits a byte.
pub open spec fn group_octet(t: Seq<char>) -> Option<u8> {
    if t.len() > 0 && (forall|i: int| 0 <= i < t.len() ==> is_hex_digit(#[trigger] t[i]))
        && hex_value(t) < 256 {
        Some(hex_value(t) as u8)
    } else {
        None
    }
}

/// One step of the group scanner.
pub open spec fn scan_step(st: (Seq<Seq<char>>, Seq<char>), c: char) -> (
    Seq<Seq<char>>,
    Seq<char>,
) {
    let (done, cur) = st;
    if is_separator(c) {
        if cur.len() > 0 {
            (done.push(cur), Seq::empty())
        } else {
            (done, Seq::empty())
        }
    } else {
        (done, cur.push(c))
    }
}

/// Scanning state after reading `s`: the non-empty groups already closed by a
/// separator, and the group still open.
pub open spec fn scan_groups(s: Seq<char>) -> (Seq<Seq<char>>, Seq<char>)
    decreases s.len(),
{
    if s.len() == 0 {
        (Seq::empty(), Seq::empty())
    } else {
        scan_step(scan_groups(s.drop_last()), s.last())
    }
}

/// The non-empty groups of `s` between separators, in order.
pub open spec fn groups(s: Seq<char>) -> Seq<Seq<char>> {
    let (done, cur) = scan_groups(s);
    if cur.len() > 0 {
        done.push(cur)
    } else {
        done
    }
}

/// The address that the text `s` denotes, if any: exactly six groups, each a
/// hexadecimal octet.
pub open spec fn parse_mac_spec(s: Seq<char>) -> Option<Seq<u8>> {
    let g = groups(s);
    if g.len() == 6 && (forall|i: int| 0 <= i < 6 ==> (#[trigger] group_octet(g[i])) is Some) {
        Some(Seq::new(6, |i: int| group_octet(g[i])->0))
    } else {
        None
    }
}

/// `m` written `n` times in a row.
pub open spec fn repeat_bytes(m: Seq<u8>, n: nat) -> Seq<u8>
    decreases n,
{
    if n == 0 {
        Seq::empty()
    } else {
        repeat_bytes(m, (n - 1) as nat) + m
    }
}

/// The magic packet for address `m`: six 0xFF bytes, then `m` sixteen times.
pub open spec fn magic_packet(m: Seq<u8>) -> Seq<u8> {
    Seq::new(6, |i: int| 0xFFu8) + repeat_bytes(m, 16)
}

fn is_separator_char(c: char) -> (r: bool)
    ensures
        r == is_separator(c),
{
    c == ':' || c == '-'
}

/// Splits `s` into its non-empty groups between `:` and `-` separators.
pub fn split_groups(s: &Vec<char>) -> (r: Vec<Vec<char>>)
    ensures
        r@.len() == groups(s@).len(),
        forall|i: int| 0 <= i < r@.len() ==> (#[trigger] r@[i])@ == groups(s@)[i],
{
    let mut done: Vec<Vec<char>> = Vec::new();
    let mut cur: Vec<char> = Vec::new();
    let mut i: usize = 0;
    while i < s.len()
        invariant
            i <= s@.len(),
            scan_groups(s@.take(i as int)).1 == cur@,
            done@.len() == scan_groups(s@.take(i as int)).0.len(),
            forall|k: int| 0 <= k < done@.len() ==> (#[trigger] done@[k])@
                == scan_groups(s@.take(i as int)).0[k],
        decreases s@.len() - i,
    {
        let c = s[i];
        assert(s@.take(i + 1).drop_last() == s@.take(i as int));
        if is_separator_char(c) {
            if cur.len() > 0 {
                done.push(cur);
            }
            cur = Vec::new();
        } else {
            cur.push(c);
        }
        i = i + 1;
    }
    assert(s@.take(s@.len() as int) == s@);
    if cur.len() > 0 {
        done.push(cur);
    }
    done
}

proof fn lemma_hex_value_prefix(t: Seq<char>, k: int)
    requires
        0 <= k <= t.len(),
    ensures
        hex_value(t.take(k)) <= hex_value(t),
    decreases t.len() - k,
{
    if k < t.len() {
        lemma_hex_value_prefix(t, k + 1);
        assert(t.take(k + 1).drop_last() == t.take(k));
    } else {
        assert(t.take(k) == t);
    }
}

/// Value of one hexadecimal digit character.
fn hex_digit(c: char) -> (r: Option<u8>)
    ensures
        r is Some <==> is_hex_digit(c),
        r is Some ==> r->0 as nat == hex_digit_value(c) && r->0 < 16,
{
    if '0' <= c && c <= '9' {
        Some((c as u32 - '0' as u32) as u8)
    } else if 'a' <= c && c <= 'f' {
        Some((c as u32 - 'a' as u32 + 10) as u8)
    } else if 'A' <= c && c <= 'F' {
        Some((c as u32 - 'A' as u32 + 10) as u8)
    } else {
        None
    }
}

/// Reads one group as a hexadecimal octet.
pub fn parse_octet(t: &Vec<char>) -> (r: Option<u8>)
    ensures
        r == group_octet(t@),
{
    if t.len() == 0 {
        return None;
    }
    let mut acc: u32 = 0;
    let mut i: usize = 0;
    while i < t.len()
        invariant
            0 < t@.len(),
            i <= t@.len(),
            acc as nat == hex_value(t@.take(i as int)),
            acc < 256,
            forall|k: int| 0 <= k < i ==> is_hex_digit(#[trigger] t@[k]),
        decreases t@.len() - i,
    {
        assert(t@.take(i + 1).drop_last() == t@.take(i as int));
        match hex_digit(t[i]) {
            None => {
                assert(!is_hex_digit(t@[i as int]));
                return None;
            },
            Some(d) => {
                acc = acc * 16 + d as u32;
                if acc >= 256 {
                    proof {
                        if forall|k: int| 0 <= k < t@.len() ==> is_hex_digit(#[trigger] t@[k]) {
                            lemma_hex_value_prefix(t@, i + 1);
                        }
                    }
                    return None;
                }
            },
        }
        i = i + 1;
    }
    assert(t@.take(t@.len() as int) == t@);
    Some(acc as u8)
}

/// Reads a hardware address written as six hexadecimal groups separated by
/// `:` or `-`.
pub fn parse_mac(s: &str) -> (r: Result<MacAddress, AddressError>)
    ensures
        parse_mac_spec(s@) is Some ==> r is Ok && r->Ok_0@ == parse_mac_spec(s@)->0,
        parse_mac_spec(s@) is None ==> r == Err::<MacAddress, AddressError>(
            AddressError::InvalidAddressFormat,
        ),
{
    let cs = chars_of(s);
    let gs = split_groups(&cs);
    if gs.len() != MAC_LEN {
        return Err(AddressError::InvalidAddressFormat);
    }
    let mut octets: [u8; 6] = [0u8; 6];
    let mut i: usize = 0;
    while i < MAC_LEN
        invariant
            i <= 6,
            gs@.len() == 6,
            groups(s@).len() == 6,
            forall|k: int| 0 <= k < gs@.len() ==> (#[trigger] gs@[k])@ == groups(s@)[k],
            forall|k: int| 0 <= k < i ==> (#[trigger] group_octet(groups(s@)[k])) is Some
                && octets@[k] == group_octet(groups(s@)[k])->0,
        decreases 6 - i,
    {
        match parse_octet(&gs[i]) {
            None => {
                assert(group_octet(groups(s@)[i as int]) is None);
                return Err(AddressError::InvalidAddressFormat);
            },
            Some(b) => {
                octets[i] = b;
            },
        }
        i = i + 1;
    }
    let m = MacAddress { octets };
    assert(m@ =~= parse_mac_spec(s@)->0);
    Ok(m)
}

/// Builds the magic packet for `mac`: six 0xFF bytes, then the address sixteen
/// times, 102 bytes in all.
pub fn encode(mac: &MacAddress) -> (r: Vec<u8>)
    ensures
        r@ == magic_packet(mac@),
        r@.len() == 102,
        forall|i: int| 0 <= i < 6 ==> r@[i] == 0xFFu8,
        forall|k: int, j: int|
            0 <= k < 16 && 0 <= j < 6 ==> #[trigger] r@[6 + 6 * k + j] == mac@[j],
{
    let mut packet: Vec<u8> = Vec::new();
    let mut h: usize = 0;
    while h < MAC_LEN
        invariant
            h <= 6,
            packet@ == Seq::new(h as nat, |i: int| 0xFFu8),
        decreases 6 - h,
    {
        packet.push(0xFFu8);
        h = h + 1;
        assert(packet@ =~= Seq::new(h as nat, |i: int| 0xFFu8));
    }
    let mut n: usize = 0;
    while n < MAC_REPEATS
        invariant
            n <= 16,
            packet@ == Seq::new(6, |i: int| 0xFFu8) + repeat_bytes(mac@, n as nat),
        decreases 16 - n,
    {
        let mut j: usize = 0;
        while j < MAC_LEN
            invariant
                j <= 6,
                n < 16,
                packet@ == Seq::new(6, |i: int| 0xFFu8) + repeat_bytes(mac@, n as nat)
                    + mac@.take(j as int),
            decreases 6 - j,
        {
            packet.push(mac.octets[j]);
            assert(mac@.take(j + 1) == mac@.take(j as int).push(mac@[j as int]));
            j = j + 1;
        }
        assert(mac@.take(6) == mac@);
        assert(repeat_bytes(mac@, (n + 1) as nat) == repeat_bytes(mac@, n as nat) + mac@);
        n = n + 1;
    }
    proof {
        lemma_magic_packet_layout(mac@);
    }
    packet
}

proof fn lemma_repeat_bytes(m: Seq<u8>, n: nat)
    requires
        m.len() == 6,
    ensures
        repeat_bytes(m, n).len() == 6 * n,
        forall|k: int, j: int|
            0 <= k < n && 0 <= j < 6 ==> #[trigger] repeat_bytes(m, n)[6 * k + j] == m[j],
    decreases n,
{
    if n > 0 {
        lemma_repeat_bytes(m, (n - 1) as nat);
        let prev = repeat_bytes(m, (n - 1) as nat);
        assert forall|k: int, j: int| 0 <= k < n && 0 <= j < 6 implies #[trigger] repeat_bytes(
            m,
            n,
        )[6 * k + j] == m[j] by {
            if k < n - 1 {
                assert(prev[6 * k + j] == m[j]);
            } else {
                assert(6 * k + j - prev.len() == j);
            }
        }
    }
}

/// Every magic packet is 102 bytes long, starts with six 0xFF bytes, and
/// carries the address at bytes `6 + 6k .. 12 + 6k` for each `k` below 16.
pub proof fn lemma_magic_packet_layout(m: Seq<u8>)
    requires
        m.len() == 6,
    ensures
        magic_packet(m).len() == 102,
        forall|i: int| 0 <= i < 6 ==> magic_packet(m)[i] == 0xFFu8,
        forall|k: int, j: int|
            0 <= k < 16 && 0 <= j < 6 ==> #[trigger] magic_packet(m)[6 + 6 * k + j] == m[j],
{
    lemma_repeat_bytes(m, 16);
    let r = repeat_bytes(m, 16);
    assert forall|k: int, j: int| 0 <= k < 16 && 0 <= j < 6 implies #[trigger] magic_packet(m)[6
        + 6 * k + j] == m[j] by {
        assert(r[6 * k + j] == m[j]);
    }
}

/// `s` and `t` differ at most in which separator stands at each place.
pub open spec fn same_but_separators(s: Seq<char>, t: Seq<char>) -> bool {
    &&& s.len() == t.len()
    &&& forall|i: int|
        0 <= i < s.len() ==> (is_separator(#[trigger] s[i]) <==> is_separator(t[i]))
            && (!is_separator(s[i]) ==> s[i] == t[i])
}

proof fn lemma_scan_separators(s: Seq<char>, t: Seq<char>)
    requires
        same_but_separators(s, t),
    ensures
        scan_groups(s) == scan_groups(t),
    decreases s.len(),
{
    if s.len() > 0 {
        let (s0, t0) = (s.drop_last(), t.drop_last());
        assert(same_but_separators(s0, t0)) by {
            assert forall|i: int| 0 <= i < s0.len() implies (is_separator(#[trigger] s0[i])
                <==> is_separator(t0[i])) && (!is_separator(s0[i]) ==> s0[i] == t0[i]) by {
                assert(s0[i] == s[i] && t0[i] == t[i]);
            }
        }
        lemma_scan_separators(s0, t0);
        assert(is_separator(s[s.len() - 1]) <==> is_separator(t[t.len() - 1]));
    }
}

/// Whether the groups of an address are separated by `:` or by `-`, in any
/// mix, does not change the address it denotes (or that it denotes none).
pub proof fn lemma_separator_choice(s: Seq<char>, t: Seq<char>)
    requires
        same_but_separators(s, t),
    ensures
        parse_mac_spec(s) == parse_mac_spec(t),
{
    lemma_scan_separators(s, t);
}

/// The upper-case hexadecimal digit for `d`, below 16.
pub open spec fn hex_char(d: nat) -> char {
    if d < 10 {
        ('0' as nat + d) as char
    } else {
        ('A' as nat + d - 10) as char
    }
}

/// An octet as two hexadecimal digits.
pub open spec fn octet_text(b: u8) -> Seq<char> {
    seq![hex_char(b as nat / 16), hex_char(b as nat % 16)]
}

/// The first `n` octets of `m`, each as two hex digits, separated by `sep`.
pub open spec fn mac_text(m: Seq<u8>, sep: char, n: nat) -> Seq<char>
    decreases n,
{
    if n <= 1 {
        octet_text(m[0])
    } else {
        mac_text(m, sep, (n - 1) as nat) + seq![sep] + octet_text(m[n - 1])
    }
}

proof fn lemma_hex_value_push(t: Seq<char>, c: char)
    ensures
        hex_value(t.push(c)) == hex_value(t) * 16 + hex_digit_value(c),
{
    assert(t.push(c).drop_last() =~= t);
}

proof fn lemma_octet_text_reads_back(b: u8)
    ensures
        group_octet(octet_text(b)) == Some(b),
{
    let t = octet_text(b);
    let (h, l) = (b as nat / 16, b as nat % 16);
    assert(h < 16 && l < 16 && h * 16 + l == b as nat);
    assert(is_hex_digit(t[0]) && hex_digit_value(t[0]) == h);
    assert(is_hex_digit(t[1]) && hex_digit_value(t[1]) == l);
    let e = Seq::<char>::empty();
    lemma_hex_value_push(e, t[0]);
    lemma_hex_value_push(e.push(t[0]), t[1]);
    assert(e.push(t[0]).push(t[1]) =~= t);
    assert(hex_value(t) == h * 16 + l);
}

proof fn lemma_scan_push(s: Seq<char>, c: char)
    ensures
        scan_groups(s.push(c)) == scan_step(scan_groups(s), c),
{
    assert(s.push(c).drop_last() =~= s);
}

proof fn lemma_scan_mac_text(m: Seq<u8>, sep: char, n: nat)
    requires
        is_separator(sep),
        1 <= n <= m.len(),
    ensures
        scan_groups(mac_text(m, sep, n)).1 == octet_text(m[n - 1]),
        scan_groups(mac_text(m, sep, n)).0 == Seq::new((n - 1) as nat, |i: int| octet_text(m[i])),
    decreases n,
{
    let t = octet_text(m[n - 1]);
    assert(!is_separator(t[0]) && !is_separator(t[1]));
    if n == 1 {
        let e = Seq::<char>::empty();
        lemma_scan_push(e, t[0]);
        lemma_scan_push(e.push(t[0]), t[1]);
        assert(e.push(t[0]).push(t[1]) =~= t);
        assert(scan_groups(t).1 =~= t);
        assert(scan_groups(t).0 =~= Seq::new(0, |i: int| octet_text(m[i])));
    } else {
        lemma_scan_mac_text(m, sep, (n - 1) as nat);
        let p = mac_text(m, sep, (n - 1) as nat);
        let q = p.push(sep);
        let r = q.push(t[0]);
        assert(mac_text(m, sep, n) =~= r.push(t[1]));
        lemma_scan_push(p, sep);
        lemma_scan_push(q, t[0]);
        lemma_scan_push(r, t[1]);
        assert(scan_groups(r.push(t[1])).1 =~= t);
        assert(scan_groups(r.push(t[1])).0 =~= Seq::new((n - 1) as nat, |i: int| octet_text(m[i])));
    }
}

/// Writing an address as six two-digit hex groups, all separated by `:` or
/// all by `-`, and reading the text back gives the same six octets.
pub proof fn lemma_text_round_trip(m: Seq<u8>, sep: char)
    requires
        m.len() == 6,
        is_separator(sep),
    ensures
        parse_mac_spec(mac_text(m, sep, 6)) == Some(m),
{
    lemma_scan_mac_text(m, sep, 6);
    let g = groups(mac_text(m, sep, 6));
    assert(g =~= Seq::new(6, |i: int| octet_text(m[i])));
    assert forall|i: int| 0 <= i < 6 implies (#[trigger] group_octet(g[i])) == Some(m[i]) by {
        lemma_octet_text_reads_back(m[i]);
    }
    assert(Seq::new(6, |i: int| group_octet(g[i])->0) =~= m);
}

/// Text with no six groups, or with a group that is not a hexadecimal octet,
/// is no address; neither is the empty text.
pub proof fn lemma_malformed_rejected(s: Seq<char>)
    requires
        groups(s).len() != 6 || exists|i: int|
            0 <= i < groups(s).len() && (#[trigger] group_octet(groups(s)[i])) is None,
    ensures
        parse_mac_spec(s) is None,
{
}

/// The empty text has no groups, so it is no address.
pub proof fn lemma_empty_rejected()
    ensures
        groups(Seq::<char>::empty()).len() == 0,
        parse_mac_spec(Seq::<char>::empty()) is None,
{
}

/// Reads the hardware address `mac` and builds its magic packet.
pub fn create_magic_packet(mac: &str) -> (r: Result<Vec<u8>, AddressError>)
    ensures
        match parse_mac_spec(mac@) {
            Some(m) => r is Ok && r->Ok_0@ == magic_packet(m),
            None => r == Err::<Vec<u8>, AddressError>(AddressError::InvalidAddressFormat),
        },
{
    match parse_mac(mac) {
        Ok(m) => Ok(encode(&m)),
        Err(e) => Err(e),
    }
}

} // verus!
