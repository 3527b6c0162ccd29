//! The device registry: built once from raw configuration entries, then read.
use vstd::prelude::*;
use crate::mac::{MacAddress, parse_mac, parse_mac_spec};
use crate::text::chars_of;

verus! {

/// Verification delay used when an entry gives none, or one that is not a number.
pub const DEFAULT_TIMEOUT_SECS: u64 = 30;

/// One configuration entry as read: all fields still text.
pub struct RawDevice {
    pub name: String,
    pub hardware_address: String,
    pub network_address: String,
    pub timeout: Option<String>,
}

/// A validated device: its hardware address has been read.
pub struct DeviceRecord {
    pub name: String,
    pub mac: MacAddress,
    pub network_address: String,
    pub timeout_secs: u64,
}

/// What a device record holds, as plain values.
pub struct DeviceView {
    pub name: Seq<char>,
    pub mac: Seq<u8>,
    pub network_address: Seq<char>,
    pub timeout_secs: u64,
}

impl View for DeviceRecord {
    type V = DeviceView;

    open spec fn view(&self) -> DeviceView {
        DeviceView {
            name: self.name@,
            mac: self.mac@,
            network_address: self.network_address@,
            timeout_secs: self.timeout_secs,
        }
    }
}

pub open spec fn is_decimal_digit(c: char) -> bool {
    '0' <= c && c <= '9'
}

/// Value of a string of decimal digits, most significant first.
pub open spec fn decimal_value(t: Seq<char>) -> nat
    decreases t.len(),
{
    if t.len() == 0 {
        0
    } else {
        decimal_value(t.drop_last()) * 10 + (t.last() as nat - '0' as nat) as nat
    }
}

/// `t` without its leading `+`, if it has one.
pub open spec fn unsigned_digits(t: Seq<char>) -> Seq<char> {
    if t.len() > 0 && t[0] == '+' {
        t.drop_first()
    } else {
        t
    }
}

/// The unsigned number that `t` spells, if any: an optional `+`, then one or
/// more decimal digits whose value fits in 64 bits.
pub open spec fn parse_u64_spec(t: Seq<char>) -> Option<u64> {
    let d = unsigned_digits(t);
    if d.len() > 0 && (forall|i: int| 0 <= i < d.len() ==> is_decimal_digit(#[trigger] d[i]))
        && decimal_value(d) <= u64::MAX {
        Some(decimal_value(d) as u64)
    } else {
        None
    }
}

/// The verification delay an entry asks for: its timeout field read as a
/// number, or the default when it is absent or not a number.
pub open spec fn timeout_spec(t: Option<Seq<char>>) -> u64 {
    match t {
        Some(s) => match parse_u64_spec(s) {
            Some(v) => v,
            None => DEFAULT_TIMEOUT_SECS,
        },
        None => DEFAULT_TIMEOUT_SECS,
    }
}

/// The record that a raw entry yields, or none when its hardware address is malformed.
pub open spec fn record_of(r: RawDevice) -> Option<DeviceView> {
    match parse_mac_spec(r.hardware_address@) {
        Some(m) => Some(
            DeviceView {
                name: r.name@,
                mac: m,
                network_address: r.network_address@,
                timeout_secs: timeout_spec(
                    match r.timeout {
                        Some(t) => Some(t@),
                        None => None,
                    },
                ),
            },
        ),
        None => None,
    }
}

/// The records built from `raws`: one per well-formed entry, in order; the
/// malformed ones are left out.
pub open spec fn build_spec(raws: Seq<RawDevice>) -> Seq<DeviceView>
    decreases raws.len(),
{
    if raws.len() == 0 {
        Seq::empty()
    } else {
        let prev = build_spec(raws.drop_last());
        match record_of(raws.last()) {
            Some(d) => prev.push(d),
            None => prev,
        }
    }
}

/// The names of the malformed entries of `raws`, in order.
pub open spec fn rejected_spec(raws: Seq<RawDevice>) -> Seq<Seq<char>>
    decreases raws.len(),
{
    if raws.len() == 0 {
        Seq::empty()
    } else {
        let prev = rejected_spec(raws.drop_last());
        match record_of(raws.last()) {
            Some(d) => prev,
            None => prev.push(raws.last().name@),
        }
    }
}

pub open spec fn distinct_names(raws: Seq<RawDevice>) -> bool {
    forall|i: int, j: int|
        0 <= i < raws.len() && 0 <= j < raws.len() && i != j ==> #[trigger] raws[i].name@
            != #[trigger] raws[j].name@
}

pub open spec fn unique_names(ds: Seq<DeviceView>) -> bool {
    forall|i: int, j: int|
        0 <= i < ds.len() && 0 <= j < ds.len() && i != j ==> #[trigger] ds[i].name
            != #[trigger] ds[j].name
}

/// Reads an unsigned decimal number: an optional `+`, then digits.
pub fn parse_u64(t: &Vec<char>) -> (r: Option<u64>)
    ensures
        r == parse_u64_spec(t@),
{
    let start: usize = if t.len() > 0 && t[0] == '+' {
        1
    } else {
        0
    };
    let ghost d = unsigned_digits(t@);
    assert(d == t@.skip(start as int));
    if start >= t.len() {
        return None;
    }
    let mut acc: u128 = 0;
    let mut i: usize = start;
    while i < t.len()
        invariant
            start <= i <= t@.len(),
            start < t@.len(),
            d == unsigned_digits(t@),
            d == t@.skip(start as int),
            acc as nat == decimal_value(d.take(i - start)),
            acc <= u64::MAX,
            forall|k: int| 0 <= k < i - start ==> is_decimal_digit(#[trigger] d[k]),
        decreases t@.len() - i,
    {
        let c = t[i];
        assert(d.take(i - start + 1).drop_last() == d.take(i - start));
        assert(d[i - start] == c);
        if !('0' <= c && c <= '9') {
            assert(!is_decimal_digit(d[i - start]));
            return None;
        }
        assert(d.take(i - start + 1).last() == c);
        acc = acc * 10 + (c as u32 - '0' as u32) as u128;
        assert(acc as nat == decimal_value(d.take(i - start + 1)));
        if acc > u64::MAX as u128 {
            proof {
                if forall|k: int| 0 <= k < d.len() ==> is_decimal_digit(#[trigger] d[k]) {
                    lemma_decimal_value_prefix(d, i - start + 1);
                }
            }
            return None;
        }
        i = i + 1;
    }
    assert(d.take(d.len() as int) == d);
    Some(acc as u64)
}

proof fn lemma_decimal_value_prefix(t: Seq<char>, k: int)
    requires
        0 <= k <= t.len(),
        forall|i: int| 0 <= i < t.len() ==> is_decimal_digit(#[trigger] t[i]),
    ensures
        decimal_value(t.take(k)) <= decimal_value(t),
    decreases t.len() - k,
{
    if k < t.len() {
        lemma_decimal_value_prefix(t, k + 1);
        assert(t.take(k + 1).drop_last() == t.take(k));
    } else {
        assert(t.take(k) == t);
    }
}

/// The verification delay for a raw timeout field.
pub fn parse_timeout(t: &Option<String>) -> (r: u64)
    ensures
        r == timeout_spec(
            match t {
                Some(s) => Some(s@),
                None => None,
            },
        ),
{
    match t {
        Some(s) => match parse_u64(&chars_of(s.as_str())) {
            Some(v) => v,
            None => DEFAULT_TIMEOUT_SECS,
        },
        None => DEFAULT_TIMEOUT_SECS,
    }
}

/// Devices by name, each name at most once.
pub struct DeviceRegistry {
    devices: Vec<DeviceRecord>,
}

impl View for DeviceRegistry {
    type V = Seq<DeviceView>;

    closed spec fn view(&self) -> Seq<DeviceView> {
        self.devices@.map_values(|d: DeviceRecord| d@)
    }
}

/// Whether some device of `ds` is called `name`.
pub open spec fn has_name(ds: Seq<DeviceView>, name: Seq<char>) -> bool {
    exists|i: int| 0 <= i < ds.len() && (#[trigger] ds[i]).name == name
}

/// The device of `ds` called `name`; meaningful when there is one.
pub open spec fn device_named(ds: Seq<DeviceView>, name: Seq<char>) -> DeviceView {
    ds[choose|i: int| 0 <= i < ds.len() && (#[trigger] ds[i]).name == name]
}

/// With unique names, a device of `ds` called `name` is the one `device_named` picks.
pub proof fn lemma_device_named(ds: Seq<DeviceView>, d: DeviceView)
    requires
        unique_names(ds),
        ds.contains(d),
    ensures
        device_named(ds, d.name) == d,
{
    let j = choose|j: int| 0 <= j < ds.len() && ds[j] == d;
    assert(ds[j].name == d.name);
    let i = choose|i: int| 0 <= i < ds.len() && (#[trigger] ds[i]).name == d.name;
    assert(i == j);
}

impl DeviceRegistry {
    pub open spec fn wf(&self) -> bool {
        unique_names(self@)
    }

    /// Builds the registry from configuration entries, leaving out each entry
    /// whose hardware address is malformed. Also returns the names of the
    /// entries left out.
    pub fn build(raws: &Vec<RawDevice>) -> (r: (DeviceRegistry, Vec<String>))
        requires
            distinct_names(raws@),
        ensures
            r.0.wf(),
            r.0@ == build_spec(raws@),
            r.1@.map_values(|n: String| n@) == rejected_spec(raws@),
    {
        let mut devices: Vec<DeviceRecord> = Vec::new();
        let mut rejected: Vec<String> = Vec::new();
        let mut i: usize = 0;
        while i < raws.len()
            invariant
                i <= raws@.len(),
                distinct_names(raws@),
                devices@.map_values(|d: DeviceRecord| d@) == build_spec(raws@.take(i as int)),
                rejected@.map_values(|n: String| n@) == rejected_spec(raws@.take(i as int)),
            decreases raws@.len() - i,
        {
            let raw = &raws[i];
            assert(raws@.take(i + 1).drop_last() == raws@.take(i as int));
            assert(raws@.take(i + 1).last() == raws@[i as int]);
            match parse_mac(raw.hardware_address.as_str()) {
                Ok(mac) => {
                    let d = DeviceRecord {
                        name: raw.name.clone(),
                        mac,
                        network_address: raw.network_address.clone(),
                        timeout_secs: parse_timeout(&raw.timeout),
                    };
                    devices.push(d);
                    assert(devices@.map_values(|d: DeviceRecord| d@) =~= build_spec(
                        raws@.take(i + 1),
                    ));
                },
                Err(_) => {
                    rejected.push(raw.name.clone());
                    assert(rejected@.map_values(|n: String| n@) =~= rejected_spec(
                        raws@.take(i + 1),
                    ));
                },
            }
            i = i + 1;
        }
        assert(raws@.take(raws@.len() as int) == raws@);
        proof {
            lemma_build_names(raws@);
        }
        (DeviceRegistry { devices }, rejected)
    }

    /// The device called exactly `name`, if there is one.
    pub fn lookup(&self, name: &str) -> (r: Option<&DeviceRecord>)
        requires
            self.wf(),
        ensures
            r is Some <==> has_name(self@, name@),
            r is Some ==> r->0@.name == name@ && self@.contains(r->0@),
    {
        let key = name.to_owned();
        let mut i: usize = 0;
        while i < self.devices.len()
            invariant
                i <= self.devices@.len(),
                key@ == name@,
                forall|k: int| 0 <= k < i ==> (#[trigger] self.devices@[k])@.name != name@,
            decreases self.devices@.len() - i,
        {
            if self.devices[i].name == key {
                assert(self@[i as int] == self.devices@[i as int]@);
                return Some(&self.devices[i]);
            }
            i = i + 1;
        }
        assert forall|k: int| 0 <= k < self@.len() implies (#[trigger] self@[k]).name != name@ by {
            assert(self@[k] == self.devices@[k]@);
        }
        None
    }

    /// The names of all devices, in registry order.
    pub fn names(&self) -> (r: Vec<String>)
        ensures
            r@.len() == self@.len(),
            forall|k: int| 0 <= k < r@.len() ==> (#[trigger] r@[k])@ == self@[k].name,
    {
        let mut out: Vec<String> = Vec::new();
        let mut i: usize = 0;
        while i < self.devices.len()
            invariant
                i <= self.devices@.len(),
                self@.len() == self.devices@.len(),
                out@.len() == i,
                forall|k: int| 0 <= k < i ==> (#[trigger] out@[k])@ == self@[k].name,
            decreases self.devices@.len() - i,
        {
            let n = self.devices[i].name.clone();
            assert(self@[i as int] == self.devices@[i as int]@);
            out.push(n);
            i = i + 1;
        }
        out
    }

    /// The network addresses of all devices, in registry order.
    pub fn network_addresses(&self) -> (r: Vec<String>)
        ensures
            r@.len() == self@.len(),
            forall|k: int| 0 <= k < r@.len() ==> (#[trigger] r@[k])@ == self@[k].network_address,
    {
        let mut out: Vec<String> = Vec::new();
        let mut i: usize = 0;
        while i < self.devices.len()
            invariant
                i <= self.devices@.len(),
                self@.len() == self.devices@.len(),
                out@.len() == i,
                forall|k: int| 0 <= k < i ==> (#[trigger] out@[k])@ == self@[k].network_address,
            decreases self.devices@.len() - i,
        {
            let a = self.devices[i].network_address.clone();
            assert(self@[i as int] == self.devices@[i as int]@);
            out.push(a);
            i = i + 1;
        }
        out
    }

    /// Number of devices.
    pub fn len(&self) -> (r: usize)
        ensures
            r == self@.len(),
    {
        self.devices.len()
    }
}

/// Every name in the registry built from `raws` is the name of an entry of
/// `raws`, and no name occurs twice when the entries' names are distinct.
proof fn lemma_build_names(raws: Seq<RawDevice>)
    requires
        distinct_names(raws),
    ensures
        unique_names(build_spec(raws)),
        forall|i: int|
            0 <= i < build_spec(raws).len() ==> exists|j: int|
                0 <= j < raws.len() && (#[trigger] build_spec(raws)[i]).name == raws[j].name@,
    decreases raws.len(),
{
    if raws.len() > 0 {
        let pre = raws.drop_last();
        assert(distinct_names(pre)) by {
            assert forall|i: int, j: int|
                0 <= i < pre.len() && 0 <= j < pre.len() && i != j implies #[trigger] pre[i].name@
                != #[trigger] pre[j].name@ by {
                assert(pre[i] == raws[i] && pre[j] == raws[j]);
            }
        }
        lemma_build_names(pre);
        let prev = build_spec(pre);
        let cur = build_spec(raws);
        assert forall|i: int|
            0 <= i < cur.len() implies exists|j: int|
                0 <= j < raws.len() && (#[trigger] cur[i]).name == raws[j].name@ by {
            if i < prev.len() {
                let j = choose|j: int| 0 <= j < pre.len() && prev[i].name == pre[j].name@;
                assert(raws[j] == pre[j]);
            } else {
                assert(cur[i].name == raws[raws.len() - 1].name@);
            }
        }
        assert forall|i: int, j: int|
            0 <= i < cur.len() && 0 <= j < cur.len() && i != j implies #[trigger] cur[i].name
            != #[trigger] cur[j].name by {
            if i < prev.len() && j < prev.len() {
            } else if i < prev.len() {
                let k = choose|k: int| 0 <= k < pre.len() && prev[i].name == pre[k].name@;
                assert(raws[k] == pre[k]);
                assert(cur[j].name == raws[raws.len() - 1].name@);
            } else if j < prev.len() {
                let k = choose|k: int| 0 <= k < pre.len() && prev[j].name == pre[k].name@;
                assert(raws[k] == pre[k]);
                assert(cur[i].name == raws[raws.len() - 1].name@);
            }
        }
    }
}

/// Whether the entry `r` is well formed: its hardware address can be read.
pub open spec fn is_well_formed(r: RawDevice) -> bool {
    parse_mac_spec(r.hardware_address@) is Some
}

proof fn lemma_build_all_valid(raws: Seq<RawDevice>)
    requires
        forall|i: int| 0 <= i < raws.len() ==> is_well_formed(#[trigger] raws[i]),
    ensures
        build_spec(raws).len() == raws.len(),
    decreases raws.len(),
{
    if raws.len() > 0 {
        let pre = raws.drop_last();
        assert forall|i: int| 0 <= i < pre.len() implies is_well_formed(#[trigger] pre[i]) by {
            assert(pre[i] == raws[i]);
        }
        lemma_build_all_valid(pre);
        assert(is_well_formed(raws[raws.len() - 1]));
    }
}

/// Building from entries of which exactly one is malformed yields one device
/// fewer than there are entries, and reports that one entry as left out.
pub proof fn lemma_build_skips_malformed(raws: Seq<RawDevice>, bad: int)
    requires
        0 <= bad < raws.len(),
        !is_well_formed(raws[bad]),
        forall|i: int| 0 <= i < raws.len() && i != bad ==> is_well_formed(#[trigger] raws[i]),
    ensures
        build_spec(raws).len() == raws.len() - 1,
        rejected_spec(raws) == seq![raws[bad].name@],
    decreases raws.len(),
{
    let pre = raws.drop_last();
    if bad == raws.len() - 1 {
        assert forall|i: int| 0 <= i < pre.len() implies is_well_formed(#[trigger] pre[i]) by {
            assert(pre[i] == raws[i]);
        }
        lemma_build_all_valid(pre);
        lemma_rejected_none(pre);
    } else {
        assert(pre[bad] == raws[bad]);
        assert forall|i: int| 0 <= i < pre.len() && i != bad implies is_well_formed(
            #[trigger] pre[i],
        ) by {
            assert(pre[i] == raws[i]);
        }
        lemma_build_skips_malformed(pre, bad);
        assert(is_well_formed(raws[raws.len() - 1]));
    }
}

proof fn lemma_rejected_none(raws: Seq<RawDevice>)
    requires
        forall|i: int| 0 <= i < raws.len() ==> is_well_formed(#[trigger] raws[i]),
    ensures
        rejected_spec(raws) == Seq::<Seq<char>>::empty(),
    decreases raws.len(),
{
    if raws.len() > 0 {
        let pre = raws.drop_last();
        assert forall|i: int| 0 <= i < pre.len() implies is_well_formed(#[trigger] pre[i]) by {
            assert(pre[i] == raws[i]);
        }
        lemma_rejected_none(pre);
        assert(is_well_formed(raws[raws.len() - 1]));
    }
}

} // verus!
