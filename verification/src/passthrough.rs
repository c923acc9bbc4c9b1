//! Persistent vfio-pci passthrough claims, keyed by PCI address (BDF).
//!
//! Claims are per device: each claimed address gets a udev rule that sets
//! `driver_override=vfio-pci`, so only vfio-pci may bind it at boot. The
//! older vendor:device pair form is kept as a mirror (`ids`) derived from
//! the claims on every save, so an older engine rolled back onto the state
//! still works; pairs found without claims, or diverging from them, are
//! resolved against the live PCI bus to every matching device.
use vstd::prelude::*;

use crate::backup::{path_segments, segments};
use crate::scan::{trim_chars, trim_seq};
use crate::sorting::{
    all_keys, insert_key, key_lt, key_views, lemma_key_lt_asymmetric, lemma_key_lt_irreflexive,
    lemma_key_widths, lemma_take_contains, strictly_sorted,
};
use crate::text::{
    char_is_ascii_hex, chars_of, is_ascii_hex, lower_chars, lower_seq, push_chars, push_lit,
    seq_eq, string_of,
};

verus! {

/// One PCI vendor:device identifier (4 lowercase hex digits each).
#[derive(Clone, Debug, PartialEq, Eq, PartialOrd, Ord, Hash)]
pub struct DeviceId {
    pub vendor: String,
    pub device: String,
}

/// One claimed PCI device.
#[derive(Clone, Debug, PartialEq, Eq, PartialOrd, Ord, Hash)]
pub struct PassthroughEntry {
    /// Full BDF address, e.g. `0000:06:00.1`.
    pub address: String,
    /// Vendor ID recorded at claim time.
    pub vendor: String,
    /// Device ID recorded at claim time.
    pub device: String,
}

/// Persistent passthrough configuration.
pub struct PassthroughConfig {
    /// Per-device claims (authoritative).
    pub devices: Vec<PassthroughEntry>,
    /// Legacy vendor:device mirror of the claims.
    pub ids: Vec<DeviceId>,
}

impl Default for PassthroughConfig {
    fn default() -> (c: Self)
        ensures
            c.devices@.len() == 0,
            c.ids@.len() == 0,
    {
        PassthroughConfig { devices: Vec::new(), ids: Vec::new() }
    }
}

pub struct PassthroughUpdate {
    /// BDF addresses to claim.
    pub addresses: Vec<String>,
    /// Legacy pair form, resolved to every matching live device; ignored
    /// when `addresses` is not empty.
    pub ids: Vec<DeviceId>,
}

impl Default for PassthroughUpdate {
    fn default() -> (u: Self)
        ensures
            u.addresses@.len() == 0,
            u.ids@.len() == 0,
    {
        PassthroughUpdate { addresses: Vec::new(), ids: Vec::new() }
    }
}

/// A live PCI device as the claim resolution sees it.
pub struct PciInventoryEntry {
    pub address: String,
    pub vendor: String,
    pub device: String,
}

pub open spec fn device_key(d: DeviceId) -> Seq<Seq<char>> {
    seq![d.vendor@, d.device@]
}

pub open spec fn device_keys(v: Seq<DeviceId>) -> Seq<Seq<Seq<char>>> {
    v.map_values(|d: DeviceId| device_key(d))
}

pub open spec fn entry_key(e: PassthroughEntry) -> Seq<Seq<char>> {
    seq![e.address@, e.vendor@, e.device@]
}

pub open spec fn entry_keys(v: Seq<PassthroughEntry>) -> Seq<Seq<Seq<char>>> {
    v.map_values(|e: PassthroughEntry| entry_key(e))
}

// ── ordered sets ────────────────────────────────────────────────

/// `s` lists the keys of `ks` in order, each once: what collecting into a
/// `BTreeSet` and back gives.
pub open spec fn is_sorted_set_of(s: Seq<Seq<Seq<char>>>, ks: Seq<Seq<Seq<char>>>) -> bool {
    &&& strictly_sorted(s)
    &&& forall|x: Seq<Seq<char>>| s.contains(x) <==> ks.contains(x)
}

pub open spec fn sorted_set(ks: Seq<Seq<Seq<char>>>) -> Seq<Seq<Seq<char>>> {
    choose|s: Seq<Seq<Seq<char>>>| is_sorted_set_of(s, ks)
}

proof fn lemma_sorted_prefix_equal(s: Seq<Seq<Seq<char>>>, t: Seq<Seq<Seq<char>>>, i: int)
    requires
        strictly_sorted(s),
        strictly_sorted(t),
        forall|x: Seq<Seq<char>>| s.contains(x) <==> t.contains(x),
        0 <= i < s.len(),
        i < t.len(),
    ensures
        forall|j: int| 0 <= j <= i ==> s[j] == t[j],
    decreases i,
{
    if i > 0 {
        lemma_sorted_prefix_equal(s, t, i - 1);
    }
    if s[i] != t[i] {
        assert(s.contains(s[i]));
        assert(t.contains(t[i]));
        let a = choose|j: int| 0 <= j < t.len() && t[j] == s[i];
        let b = choose|j: int| 0 <= j < s.len() && s[j] == t[i];
        if a < i {
            assert(s[a] == t[a]);
            assert(key_lt(s[a], s[i]));
            lemma_key_lt_irreflexive(s[i]);
        } else if b < i {
            assert(s[b] == t[b]);
            assert(key_lt(t[b], t[i]));
            lemma_key_lt_irreflexive(t[i]);
        } else {
            assert(a > i && b > i);
            assert(key_lt(t[i], t[a]));
            assert(key_lt(s[i], s[b]));
            lemma_key_lt_asymmetric(t[i], s[i]);
        }
    }
}

/// Two ordered listings of the same keys are the same.
proof fn lemma_sorted_set_unique(s: Seq<Seq<Seq<char>>>, t: Seq<Seq<Seq<char>>>)
    requires
        strictly_sorted(s),
        strictly_sorted(t),
        forall|x: Seq<Seq<char>>| s.contains(x) <==> t.contains(x),
    ensures
        s == t,
{
    if s.len() > 0 && t.len() > 0 {
        let m = if s.len() < t.len() {
            s.len()
        } else {
            t.len()
        };
        lemma_sorted_prefix_equal(s, t, m - 1);
    }
    if s.len() < t.len() {
        assert(t.contains(t[s.len() as int]));
        let j = choose|j: int| 0 <= j < s.len() && s[j] == t[s.len() as int];
        assert(t[j] == s[j]);
        assert(key_lt(t[j], t[s.len() as int]));
        lemma_key_lt_irreflexive(t[j]);
    } else if t.len() < s.len() {
        assert(s.contains(s[t.len() as int]));
        let j = choose|j: int| 0 <= j < t.len() && t[j] == s[t.len() as int];
        assert(t[j] == s[j]);
        assert(key_lt(s[j], s[t.len() as int]));
        lemma_key_lt_irreflexive(s[j]);
    }
    assert(s =~= t);
}

proof fn lemma_sorted_set_is(s: Seq<Seq<Seq<char>>>, ks: Seq<Seq<Seq<char>>>)
    requires
        is_sorted_set_of(s, ks),
    ensures
        sorted_set(ks) == s,
{
    let c = sorted_set(ks);
    assert(is_sorted_set_of(c, ks));
    lemma_sorted_set_unique(c, s);
}

fn keys_to_device_ids(set: &Vec<Vec<Vec<char>>>) -> (r: Vec<DeviceId>)
    requires
        forall|k: int| 0 <= k < set@.len() ==> (#[trigger] set@[k]).len() == 2,
    ensures
        device_keys(r@) == all_keys(set@),
{
    let mut out: Vec<DeviceId> = Vec::new();
    let n = set.len();
    for k in 0..n
        invariant
            n == set@.len(),
            forall|j: int| 0 <= j < set@.len() ==> (#[trigger] set@[j]).len() == 2,
            device_keys(out@) == all_keys(set@).take(k as int),
    {
        let ghost before = out@;
        assert(set@[k as int].len() == 2);
        let d = DeviceId { vendor: string_of(&set[k][0]), device: string_of(&set[k][1]) };
        out.push(d);
        assert(key_views(set@[k as int]) =~= seq![set@[k as int]@[0]@, set@[k as int]@[1]@]);
        assert(device_keys(out@) =~= device_keys(before).push(device_key(d)));
        assert(all_keys(set@).take(k + 1) =~= all_keys(set@).take(k as int).push(
            key_views(set@[k as int]),
        ));
    }
    assert(all_keys(set@).take(n as int) =~= all_keys(set@));
    out
}

fn keys_to_entries(set: &Vec<Vec<Vec<char>>>) -> (r: Vec<PassthroughEntry>)
    requires
        forall|k: int| 0 <= k < set@.len() ==> (#[trigger] set@[k]).len() == 3,
    ensures
        entry_keys(r@) == all_keys(set@),
{
    let mut out: Vec<PassthroughEntry> = Vec::new();
    let n = set.len();
    for k in 0..n
        invariant
            n == set@.len(),
            forall|j: int| 0 <= j < set@.len() ==> (#[trigger] set@[j]).len() == 3,
            entry_keys(out@) == all_keys(set@).take(k as int),
    {
        let ghost before = out@;
        assert(set@[k as int].len() == 3);
        let e = PassthroughEntry {
            address: string_of(&set[k][0]),
            vendor: string_of(&set[k][1]),
            device: string_of(&set[k][2]),
        };
        out.push(e);
        assert(key_views(set@[k as int]) =~= seq![
            set@[k as int]@[0]@,
            set@[k as int]@[1]@,
            set@[k as int]@[2]@,
        ]);
        assert(entry_keys(out@) =~= entry_keys(before).push(entry_key(e)));
        assert(all_keys(set@).take(k + 1) =~= all_keys(set@).take(k as int).push(
            key_views(set@[k as int]),
        ));
    }
    assert(all_keys(set@).take(n as int) =~= all_keys(set@));
    out
}

// ── identifiers ─────────────────────────────────────────────────

impl DeviceId {
    /// The `vendor:device` form that `vfio-pci.ids` takes.
    pub fn to_vfio_id(&self) -> (r: String)
        ensures
            r@ == self.vendor@ + seq![':'] + self.device@,
    {
        let mut out = self.vendor.clone();
        out.push(':');
        out.append(self.device.as_str());
        out
    }
}

pub open spec fn spec_is_hex4(s: Seq<char>) -> bool {
    s.len() == 4 && forall|i: int| 0 <= i < s.len() ==> is_ascii_hex(#[trigger] s[i])
}

fn hex4_chars(s: &Vec<char>) -> (r: bool)
    ensures
        r == spec_is_hex4(s@),
{
    if s.len() != 4 {
        return false;
    }
    for i in 0..4
        invariant
            s@.len() == 4,
            forall|j: int| 0 <= j < i ==> is_ascii_hex(#[trigger] s@[j]),
    {
        if !char_is_ascii_hex(s[i]) {
            return false;
        }
    }
    true
}

/// Four hex digits. (Hex digits are one byte each, so four characters and
/// four bytes agree.)
pub fn is_hex4(s: &str) -> (r: bool)
    ensures
        r == spec_is_hex4(s@),
{
    let c = chars_of(s);
    hex4_chars(&c)
}

pub open spec fn bdf_char_ok(i: int, c: char) -> bool {
    if i == 4 || i == 7 {
        c == ':'
    } else if i == 10 {
        c == '.'
    } else {
        is_ascii_hex(c)
    }
}

/// `dddd:bb:dd.f`: a full PCI address with domain, in hex. (All of its
/// characters are one byte each, so twelve characters and twelve bytes
/// agree.)
pub open spec fn spec_is_bdf(s: Seq<char>) -> bool {
    s.len() == 12 && forall|i: int| 0 <= i < 12 ==> bdf_char_ok(i, #[trigger] s[i])
}

fn bdf_chars(s: &Vec<char>) -> (r: bool)
    ensures
        r == spec_is_bdf(s@),
{
    if s.len() != 12 {
        return false;
    }
    for i in 0..12
        invariant
            s@.len() == 12,
            forall|j: int| 0 <= j < i ==> bdf_char_ok(j, #[trigger] s@[j]),
    {
        let c = s[i];
        let ok = if i == 4 || i == 7 {
            c == ':'
        } else if i == 10 {
            c == '.'
        } else {
            char_is_ascii_hex(c)
        };
        if !ok {
            assert(!bdf_char_ok(i as int, s@[i as int]));
            return false;
        }
    }
    true
}

pub fn is_bdf(s: &str) -> (r: bool)
    ensures
        r == spec_is_bdf(s@),
{
    let c = chars_of(s);
    bdf_chars(&c)
}

/// A sysfs `vendor`/`device` file's text as an identifier: trimmed, without
/// a `0x` prefix, lowercase.
pub open spec fn spec_pci_id_field(raw: Seq<char>) -> Seq<char> {
    let t = trim_seq(raw);
    lower_seq(
        if t.len() >= 2 && t[0] == '0' && t[1] == 'x' {
            t.skip(2)
        } else {
            t
        },
    )
}

pub fn pci_id_field(raw: &str) -> (r: String)
    ensures
        r@ == spec_pci_id_field(raw@),
{
    let c = chars_of(raw);
    let t = trim_chars(&c);
    let body = if t.len() >= 2 && t[0] == '0' && t[1] == 'x' {
        let mut b: Vec<char> = Vec::new();
        let n = t.len();
        for i in 2..n
            invariant
                n == t@.len(),
                2 <= n,
                b@ == t@.subrange(2, i as int),
        {
            b.push(t[i]);
            assert(b@ =~= t@.subrange(2, i + 1));
        }
        assert(b@ =~= t@.skip(2));
        b
    } else {
        t
    };
    let l = lower_chars(&body);
    string_of(&l)
}

// ── the legacy mirror ───────────────────────────────────────────

pub open spec fn normalized_key(d: DeviceId) -> Seq<Seq<char>> {
    seq![lower_seq(d.vendor@), lower_seq(d.device@)]
}

pub open spec fn normalizable(d: DeviceId) -> bool {
    spec_is_hex4(lower_seq(d.vendor@)) && spec_is_hex4(lower_seq(d.device@))
}

/// The lowercased pairs of `ids` that are four hex digits each.
pub open spec fn normalized_keys(ids: Seq<DeviceId>) -> Seq<Seq<Seq<char>>>
    decreases ids.len(),
{
    if ids.len() == 0 {
        Seq::empty()
    } else {
        let rest = normalized_keys(ids.drop_last());
        if normalizable(ids.last()) {
            rest.push(normalized_key(ids.last()))
        } else {
            rest
        }
    }
}

proof fn lemma_normalized_keys_len2(ids: Seq<DeviceId>)
    ensures
        forall|k: int|
            0 <= k < normalized_keys(ids).len() ==> (#[trigger] normalized_keys(ids)[k]).len()
                == 2,
    decreases ids.len(),
{
    if ids.len() > 0 {
        lemma_normalized_keys_len2(ids.drop_last());
        let rest = normalized_keys(ids.drop_last());
        assert forall|k: int| 0 <= k < normalized_keys(ids).len() implies (
        #[trigger] normalized_keys(ids)[k]).len() == 2 by {
            if k < rest.len() {
                assert(normalized_keys(ids)[k] == rest[k]);
            }
        }
    }
}

/// Sorts, dedupes and lowercases identifiers, dropping any that are not
/// four hex digits each.
pub fn normalize_ids(ids: Vec<DeviceId>) -> (r: Vec<DeviceId>)
    ensures
        device_keys(r@) == sorted_set(normalized_keys(ids@)),
{
    let mut set: Vec<Vec<Vec<char>>> = Vec::new();
    let n = ids.len();
    for i in 0..n
        invariant
            n == ids@.len(),
            strictly_sorted(all_keys(set@)),
            forall|x: Seq<Seq<char>>|
                all_keys(set@).contains(x) <==> normalized_keys(ids@.take(i as int)).contains(x),
    {
        assert(ids@.take(i + 1).drop_last() =~= ids@.take(i as int));
        assert(ids@.take(i + 1).last() == ids@[i as int]);
        let v = lower_chars(&chars_of(ids[i].vendor.as_str()));
        let d = lower_chars(&chars_of(ids[i].device.as_str()));
        if hex4_chars(&v) && hex4_chars(&d) {
            let k = vec![v, d];
            assert(key_views(k) =~= normalized_key(ids@[i as int]));
            insert_key(&mut set, k);
        }
        let ghost nk = normalized_keys(ids@.take(i + 1));
        let ghost pk = normalized_keys(ids@.take(i as int));
        assert forall|x: Seq<Seq<char>>| nk.contains(x) <==> (pk.contains(x) || (normalizable(
            ids@[i as int],
        ) && x == normalized_key(ids@[i as int]))) by {
            if normalizable(ids@[i as int]) {
                assert(nk =~= pk.push(normalized_key(ids@[i as int])));
                if nk.contains(x) {
                    let j = choose|j: int| 0 <= j < nk.len() && nk[j] == x;
                    if j < pk.len() {
                        assert(pk[j] == x);
                    }
                }
                if pk.contains(x) {
                    let j = choose|j: int| 0 <= j < pk.len() && pk[j] == x;
                    assert(nk[j] == x);
                }
                if x == normalized_key(ids@[i as int]) {
                    assert(nk[pk.len() as int] == x);
                }
            }
        }
    }
    assert(ids@.take(n as int) =~= ids@);
    proof {
        lemma_normalized_keys_len2(ids@);
        assert forall|k: int| 0 <= k < set@.len() implies (#[trigger] set@[k]).len() == 2 by {
            assert(all_keys(set@)[k] == key_views(set@[k]));
            assert(all_keys(set@).contains(all_keys(set@)[k]));
            let j = choose|j: int|
                0 <= j < normalized_keys(ids@).len() && normalized_keys(ids@)[j] == all_keys(
                    set@,
                )[k];
            assert(normalized_keys(ids@)[j].len() == 2);
        }
    }
    let r = keys_to_device_ids(&set);
    proof {
        lemma_sorted_set_is(all_keys(set@), normalized_keys(ids@));
    }
    r
}

pub open spec fn pair_keys(devices: Seq<PassthroughEntry>) -> Seq<Seq<Seq<char>>> {
    devices.map_values(|e: PassthroughEntry| seq![e.vendor@, e.device@])
}

/// The legacy mirror of claims: their vendor:device pairs, sorted, each once.
pub fn derive_ids(devices: &Vec<PassthroughEntry>) -> (r: Vec<DeviceId>)
    ensures
        device_keys(r@) == sorted_set(pair_keys(devices@)),
{
    let mut set: Vec<Vec<Vec<char>>> = Vec::new();
    let n = devices.len();
    for i in 0..n
        invariant
            n == devices@.len(),
            strictly_sorted(all_keys(set@)),
            forall|x: Seq<Seq<char>>|
                all_keys(set@).contains(x) <==> pair_keys(devices@).take(i as int).contains(x),
            forall|k: int| 0 <= k < set@.len() ==> (#[trigger] set@[k]).len() == 2,
    {
        let ghost before = set@;
        let k = vec![chars_of(devices[i].vendor.as_str()), chars_of(devices[i].device.as_str())];
        assert(key_views(k) =~= pair_keys(devices@)[i as int]);
        insert_key(&mut set, k);
        let ghost nk = pair_keys(devices@).take(i + 1);
        let ghost pk = pair_keys(devices@).take(i as int);
        assert(nk =~= pk.push(pair_keys(devices@)[i as int]));
        assert forall|x: Seq<Seq<char>>| nk.contains(x) <==> (pk.contains(x) || x == pair_keys(
            devices@,
        )[i as int]) by {
            if nk.contains(x) {
                let j = choose|j: int| 0 <= j < nk.len() && nk[j] == x;
                if j < pk.len() {
                    assert(pk[j] == x);
                }
            }
            if pk.contains(x) {
                let j = choose|j: int| 0 <= j < pk.len() && pk[j] == x;
                assert(nk[j] == x);
            }
            if x == pair_keys(devices@)[i as int] {
                assert(nk[pk.len() as int] == x);
            }
        }
        assert forall|k2: int| 0 <= k2 < set@.len() implies (#[trigger] set@[k2]).len() == 2 by {
            assert(all_keys(set@)[k2] == key_views(set@[k2]));
            assert(all_keys(set@).contains(all_keys(set@)[k2]));
            if all_keys(before).contains(all_keys(set@)[k2]) {
                let j = choose|j: int|
                    0 <= j < all_keys(before).len() && all_keys(before)[j] == all_keys(set@)[k2];
                assert(all_keys(before)[j] == key_views(before[j]));
            }
        }
    }
    assert(pair_keys(devices@).take(n as int) =~= pair_keys(devices@));
    let r = keys_to_device_ids(&set);
    proof {
        lemma_sorted_set_is(all_keys(set@), pair_keys(devices@));
    }
    r
}

// ── resolving pairs ─────────────────────────────────────────────

pub open spec fn inventory_key(e: PciInventoryEntry) -> Seq<Seq<char>> {
    seq![e.address@, e.vendor@, e.device@]
}

/// The live devices whose vendor:device pair is among `wanted`, in
/// inventory order, as claims.
pub open spec fn spec_resolve(wanted: Seq<Seq<Seq<char>>>, inv: Seq<PciInventoryEntry>) -> Seq<
    Seq<Seq<char>>,
>
    decreases inv.len(),
{
    if inv.len() == 0 {
        Seq::empty()
    } else {
        let rest = spec_resolve(wanted, inv.drop_last());
        let e = inv.last();
        if wanted.contains(seq![e.vendor@, e.device@]) {
            rest.push(inventory_key(e))
        } else {
            rest
        }
    }
}

fn pair_listed(ids: &Vec<DeviceId>, v: &String, d: &String) -> (r: bool)
    ensures
        r == device_keys(ids@).contains(seq![v@, d@]),
{
    let n = ids.len();
    for i in 0..n
        invariant
            n == ids@.len(),
            forall|j: int| 0 <= j < i ==> device_keys(ids@)[j] != seq![v@, d@],
    {
        assert(device_keys(ids@)[i as int] == seq![ids@[i as int].vendor@, ids@[i as int].device@]);
        if ids[i].vendor == *v && ids[i].device == *d {
            return true;
        }
        assert(device_keys(ids@)[i as int] != seq![v@, d@]) by {
            if device_keys(ids@)[i as int] == seq![v@, d@] {
                assert(device_keys(ids@)[i as int][0] == v@);
                assert(device_keys(ids@)[i as int][1] == d@);
            }
        }
    }
    false
}

/// Every live device matching one of the pairs, claimed — the semantics
/// the pair-based mechanism had.
pub fn resolve_pairs(ids: &Vec<DeviceId>, inventory: &Vec<PciInventoryEntry>) -> (r: Vec<
    PassthroughEntry,
>)
    ensures
        entry_keys(r@) == spec_resolve(device_keys(ids@), inventory@),
{
    let mut out: Vec<PassthroughEntry> = Vec::new();
    let n = inventory.len();
    for i in 0..n
        invariant
            n == inventory@.len(),
            entry_keys(out@) == spec_resolve(device_keys(ids@), inventory@.take(i as int)),
    {
        assert(inventory@.take(i + 1).drop_last() =~= inventory@.take(i as int));
        assert(inventory@.take(i + 1).last() == inventory@[i as int]);
        let e = &inventory[i];
        if pair_listed(ids, &e.vendor, &e.device) {
            let ghost before = out@;
            let c = PassthroughEntry {
                address: e.address.clone(),
                vendor: e.vendor.clone(),
                device: e.device.clone(),
            };
            out.push(c);
            assert(entry_keys(out@) =~= entry_keys(before).push(inventory_key(*e)));
        }
    }
    assert(inventory@.take(n as int) =~= inventory@);
    out
}

fn same_ids(a: &Vec<DeviceId>, b: &Vec<DeviceId>) -> (r: bool)
    ensures
        r == (device_keys(a@) == device_keys(b@)),
{
    if a.len() != b.len() {
        assert(device_keys(a@).len() != device_keys(b@).len());
        return false;
    }
    let n = a.len();
    for i in 0..n
        invariant
            n == a@.len(),
            n == b@.len(),
            forall|j: int| 0 <= j < i ==> device_keys(a@)[j] == device_keys(b@)[j],
    {
        if !(a[i].vendor == b[i].vendor && a[i].device == b[i].device) {
            assert(device_keys(a@)[i as int] != device_keys(b@)[i as int]) by {
                assert(device_keys(a@)[i as int][0] == a@[i as int].vendor@);
                assert(device_keys(b@)[i as int][0] == b@[i as int].vendor@);
                assert(device_keys(a@)[i as int][1] == a@[i as int].device@);
                assert(device_keys(b@)[i as int][1] == b@[i as int].device@);
            }
            return false;
        }
        assert(device_keys(a@)[i as int] =~= device_keys(b@)[i as int]);
    }
    assert(device_keys(a@) =~= device_keys(b@));
    true
}

/// Whether a loaded config's claims are to be rebuilt from its pairs:
/// pre-BDF state (pairs without claims), or pairs edited after a rollback
/// (they no longer mirror the claims).
pub open spec fn spec_claims_stale(cfg: PassthroughConfig) -> bool {
    ||| cfg.devices@.len() == 0 && cfg.ids@.len() > 0
    ||| cfg.devices@.len() > 0 && sorted_set(pair_keys(cfg.devices@)) != device_keys(cfg.ids@)
}

/// Brings a loaded config to the per-device view, absorbing legacy state.
pub fn reconcile_legacy(cfg: PassthroughConfig, inventory: &Vec<PciInventoryEntry>) -> (r:
    PassthroughConfig)
    ensures
        r.ids == cfg.ids,
        spec_claims_stale(cfg) ==> entry_keys(r.devices@) == spec_resolve(
            device_keys(cfg.ids@),
            inventory@,
        ),
        !spec_claims_stale(cfg) ==> r.devices == cfg.devices,
{
    let mirror = derive_ids(&cfg.devices);
    if cfg.devices.len() == 0 && cfg.ids.len() > 0 {
        let devices = resolve_pairs(&cfg.ids, inventory);
        PassthroughConfig { devices, ids: cfg.ids }
    } else if cfg.devices.len() > 0 && !same_ids(&mirror, &cfg.ids) {
        let devices = resolve_pairs(&cfg.ids, inventory);
        PassthroughConfig { devices, ids: cfg.ids }
    } else {
        cfg
    }
}

impl PassthroughConfig {
    /// The config that saves `devices`: the claims and their mirror.
    pub fn from_devices(devices: Vec<PassthroughEntry>) -> (r: Self)
        ensures
            r.devices == devices,
            device_keys(r.ids@) == sorted_set(pair_keys(devices@)),
    {
        let ids = derive_ids(&devices);
        PassthroughConfig { devices, ids }
    }
}


// ── udev rules ──────────────────────────────────────────────────

pub const UDEV_HEADER: &'static str = "# Generated by nasty-engine. Reboot (or udevadm trigger) to apply.\n# Source of truth: /var/lib/nasty/passthrough.json\n";

pub const RULE_HEAD: &'static str = "\nACTION==\"add\", SUBSYSTEM==\"pci\", KERNEL==\"";

pub const RULE_TAIL: &'static str = "\", ATTR{driver_override}=\"vfio-pci\", RUN+=\"/bin/sh -c 'echo %k > /sys/bus/pci/devices/%k/driver/unbind 2>/dev/null || true; echo %k > /sys/bus/pci/drivers_probe'\"\n";

/// The rule for one claim: a comment with its pair, then a rule that sets
/// `driver_override` for its address and rebinds it.
pub open spec fn udev_rule(e: PassthroughEntry) -> Seq<char> {
    seq!['#', ' '] + e.vendor@ + seq![':'] + e.device@ + RULE_HEAD@ + e.address@ + RULE_TAIL@
}

pub open spec fn rules_body(ds: Seq<PassthroughEntry>) -> Seq<char>
    decreases ds.len(),
{
    if ds.len() == 0 {
        Seq::empty()
    } else {
        rules_body(ds.drop_last()) + udev_rule(ds.last())
    }
}

pub open spec fn spec_render_udev_rules(cfg: PassthroughConfig) -> Seq<char> {
    if cfg.devices@.len() == 0 {
        Seq::empty()
    } else {
        UDEV_HEADER@ + rules_body(cfg.devices@)
    }
}

/// The udev rules file for a config: empty where nothing is claimed.
pub fn render_udev_rules(cfg: &PassthroughConfig) -> (r: String)
    ensures
        r@ == spec_render_udev_rules(*cfg),
{
    let mut out = String::new();
    if cfg.devices.len() == 0 {
        return out;
    }
    push_lit(&mut out, UDEV_HEADER);
    let n = cfg.devices.len();
    for i in 0..n
        invariant
            n == cfg.devices@.len(),
            out@ == UDEV_HEADER@ + rules_body(cfg.devices@.take(i as int)),
    {
        let d = &cfg.devices[i];
        let ghost before = out@;
        push_lit(&mut out, "# ");
        out.append(d.vendor.as_str());
        out.push(':');
        out.append(d.device.as_str());
        push_lit(&mut out, RULE_HEAD);
        out.append(d.address.as_str());
        push_lit(&mut out, RULE_TAIL);
        proof {
            reveal_strlit("# ");
            assert("# "@ =~= seq!['#', ' ']);
            assert(cfg.devices@.take(i + 1).drop_last() =~= cfg.devices@.take(i as int));
            assert(cfg.devices@.take(i + 1).last() == *d);
            assert(out@ =~= before + udev_rule(*d));
        }
    }
    assert(cfg.devices@.take(n as int) =~= cfg.devices@);
    out
}

// ── the device behind a network interface ───────────────────────

/// The nearest path component, from the end, whose lowercase form is a BDF.
pub open spec fn bdf_in_names(names: Seq<Seq<char>>) -> Option<Seq<char>>
    decreases names.len(),
{
    if names.len() == 0 {
        None
    } else if spec_is_bdf(lower_seq(names.last())) {
        Some(lower_seq(names.last()))
    } else {
        bdf_in_names(names.drop_last())
    }
}

/// The PCI address of the device that a canonical sysfs `device` link
/// leads to: the nearest ancestor directory named like a BDF (virtio NICs
/// land on a child of the PCI function).
pub fn bdf_from_device_path(path: &str) -> (r: Option<String>)
    ensures
        match bdf_in_names(segments(path@)) {
            Some(b) => r is Some && r->0@ == b,
            None => r is None,
        },
{
    let p = chars_of(path);
    let segs = path_segments(&p);
    let ghost sv = segs@.map_values(|v: Vec<char>| v@);
    let mut i = segs.len();
    assert(sv.take(i as int) =~= sv);
    while i > 0
        invariant
            i <= segs@.len(),
            sv == segs@.map_values(|v: Vec<char>| v@),
            sv == segments(path@),
            bdf_in_names(sv) == bdf_in_names(sv.take(i as int)),
        decreases i,
    {
        let l = lower_chars(&segs[i - 1]);
        assert(sv.take(i as int).last() == segs@[i - 1]@);
        assert(sv.take(i as int).drop_last() =~= sv.take(i - 1));
        if bdf_chars(&l) {
            return Some(string_of(&l));
        }
        i = i - 1;
    }
    None
}

// ── resolving an update ─────────────────────────────────────────

/// A requested address as it is checked: trimmed and lowercased.
pub open spec fn claim_address(a: String) -> Seq<char> {
    lower_seq(trim_seq(a@))
}

/// The first live device at `addr`, if there is one.
pub open spec fn inventory_find(inv: Seq<PciInventoryEntry>, addr: Seq<char>) -> Option<int> {
    if exists|i: int| 0 <= i < inv.len() && (#[trigger] inv[i]).address@ == addr {
        Some(
            choose|i: int|
                0 <= i < inv.len() && (#[trigger] inv[i]).address@ == addr && forall|j: int|
                    0 <= j < i ==> (#[trigger] inv[j]).address@ != addr,
        )
    } else {
        None
    }
}

pub open spec fn address_error(addr: Seq<char>, inv: Seq<PciInventoryEntry>) -> Option<Seq<char>> {
    if !spec_is_bdf(addr) {
        Some(seq!['\''] + addr + NOT_BDF_MSG@)
    } else if inventory_find(inv, addr) is None {
        Some(NO_DEVICE_MSG@ + addr + MOVED_MSG@)
    } else {
        None
    }
}

/// The first refused address of a request decides its error.
pub open spec fn first_address_error(addrs: Seq<String>, inv: Seq<PciInventoryEntry>) -> Option<
    Seq<char>,
>
    decreases addrs.len(),
{
    if addrs.len() == 0 {
        None
    } else {
        match first_address_error(addrs.drop_last(), inv) {
            Some(m) => Some(m),
            None => address_error(claim_address(addrs.last()), inv),
        }
    }
}

/// The claim a requested address makes: the address with the pair of the
/// live device found there.
pub open spec fn claim_key(a: String, inv: Seq<PciInventoryEntry>) -> Seq<Seq<char>> {
    let ad = claim_address(a);
    let e = inv[inventory_find(inv, ad).unwrap()];
    seq![ad, e.vendor@, e.device@]
}

pub open spec fn claim_keys(addrs: Seq<String>, inv: Seq<PciInventoryEntry>) -> Seq<
    Seq<Seq<char>>,
> {
    addrs.map_values(|a: String| claim_key(a, inv))
}

pub const NOT_BDF_MSG: &'static str = "' is not a PCI address (expected dddd:bb:dd.f, e.g. 0000:06:00.1)";

pub const NO_DEVICE_MSG: &'static str = "no PCI device at ";

pub const MOVED_MSG: &'static str = " — it may have moved slots; refresh the hardware page and re-select it";

fn find_in_inventory(inv: &Vec<PciInventoryEntry>, addr: &Vec<char>) -> (r: Option<usize>)
    ensures
        r matches Some(i) ==> i < inv@.len() && inventory_find(inv@, addr@) == Some(i as int),
        match inventory_find(inv@, addr@) {
            Some(i) => r == Some(i as usize),
            None => r is None,
        },
{
    let n = inv.len();
    for i in 0..n
        invariant
            n == inv@.len(),
            forall|j: int| 0 <= j < i ==> (#[trigger] inv@[j]).address@ != addr@,
    {
        let a = chars_of(inv[i].address.as_str());
        if seq_eq(&a, addr) {
            proof {
                let w = choose|k: int|
                    0 <= k < inv@.len() && (#[trigger] inv@[k]).address@ == addr@ && forall|j: int|
                        0 <= j < k ==> (#[trigger] inv@[j]).address@ != addr@;
                assert(inv@[i as int].address@ == addr@);
                if w < i {
                } else if w > i {
                    assert(inv@[i as int].address@ != addr@);
                }
            }
            return Some(i);
        }
    }
    None
}

/// Checks one requested address and makes its claim.
fn claim_for(addr: &String, inventory: &Vec<PciInventoryEntry>) -> (r: Result<Vec<Vec<char>>, String>)
    ensures
        match address_error(claim_address(*addr), inventory@) {
            Some(m) => r is Err && r->Err_0@ == m,
            None => r is Ok && key_views(r->Ok_0) == claim_key(*addr, inventory@) && r->Ok_0@.len()
                == 3,
        },
{
    let raw = chars_of(addr.as_str());
    let t = trim_chars(&raw);
    let a = lower_chars(&t);
    if !bdf_chars(&a) {
        let mut m = String::new();
        m.push('\'');
        push_chars(&mut m, &a);
        push_lit(&mut m, NOT_BDF_MSG);
        return Err(m);
    }
    let k = match find_in_inventory(inventory, &a) {
        None => {
            let mut m = String::new();
            push_lit(&mut m, NO_DEVICE_MSG);
            push_chars(&mut m, &a);
            push_lit(&mut m, MOVED_MSG);
            return Err(m);
        },
        Some(k) => k,
    };
    let ghost av = a@;
    let v = chars_of(inventory[k].vendor.as_str());
    let d = chars_of(inventory[k].device.as_str());
    let key = vec![a, v, d];
    assert(key@.len() == 3);
    assert(key_views(key)[0] == av);
    assert(key_views(key)[1] == inventory@[k as int].vendor@);
    assert(key_views(key)[2] == inventory@[k as int].device@);
    assert(claim_address(*addr) == av);
    assert(key_views(key) =~= claim_key(*addr, inventory@));
    Ok(key)
}

#[verifier::rlimit(40)]
/// Resolves an update to the claims it saves: each requested address must
/// be a BDF of a live device (the first that is not decides the error), and
/// the claims are sorted and deduplicated; without addresses, the legacy
/// pairs are normalized and resolved to every matching live device.
pub fn resolve_update(update: PassthroughUpdate, inventory: &Vec<PciInventoryEntry>) -> (r: Result<
    Vec<PassthroughEntry>,
    String,
>)
    ensures
        update.addresses@.len() > 0 ==> match first_address_error(
            update.addresses@,
            inventory@,
        ) {
            Some(m) => r is Err && r->Err_0@ == m,
            None => r is Ok && entry_keys(r->Ok_0@) == sorted_set(
                claim_keys(update.addresses@, inventory@),
            ),
        },
        update.addresses@.len() == 0 ==> r is Ok && entry_keys(r->Ok_0@) == spec_resolve(
            sorted_set(normalized_keys(update.ids@)),
            inventory@,
        ),
{
    if update.addresses.len() == 0 {
        let ids = normalize_ids(update.ids);
        return Ok(resolve_pairs(&ids, inventory));
    }
    let addrs = update.addresses;
    let ghost ck = claim_keys(addrs@, inventory@);
    let mut set: Vec<Vec<Vec<char>>> = Vec::new();
    let n = addrs.len();
    for i in 0..n
        invariant
            n == addrs@.len(),
            n > 0,
            update.addresses@ == addrs@,
            ck == claim_keys(addrs@, inventory@),
            ck.len() == n,
            strictly_sorted(all_keys(set@)),
            first_address_error(addrs@.take(i as int), inventory@) is None,
            forall|x: Seq<Seq<char>>| all_keys(set@).contains(x) <==> ck.take(i as int).contains(x),
            forall|k: int| 0 <= k < set@.len() ==> (#[trigger] set@[k]).len() == 3,
    {
        assert(addrs@.take(i + 1).drop_last() =~= addrs@.take(i as int));
        assert(addrs@.take(i + 1).last() == addrs@[i as int]);
        let key = match claim_for(&addrs[i], inventory) {
            Err(m) => {
                proof {
                    lemma_first_error_stays(addrs@, inventory@, i as int);
                }
                return Err(m);
            },
            Ok(k) => k,
        };
        let ghost before = set@;
        assert(key_views(key) == ck[i as int]);
        insert_key(&mut set, key);
        proof {
            lemma_take_contains(ck, i as int);
            lemma_key_widths(before, set@, key, 3);
        }
    }
    assert(addrs@.take(n as int) =~= addrs@);
    assert(ck.take(n as int) =~= ck);
    let r = keys_to_entries(&set);
    proof {
        lemma_sorted_set_is(all_keys(set@), claim_keys(addrs@, inventory@));
    }
    Ok(r)
}

/// Once an address is refused, the request's error is that address's.
proof fn lemma_first_error_stays(addrs: Seq<String>, inv: Seq<PciInventoryEntry>, i: int)
    requires
        0 <= i < addrs.len(),
        first_address_error(addrs.take(i), inv) is None,
        address_error(claim_address(addrs[i]), inv) is Some,
    ensures
        first_address_error(addrs, inv) == address_error(claim_address(addrs[i]), inv),
    decreases addrs.len() - i,
{
    assert(addrs.take(i + 1).drop_last() =~= addrs.take(i));
    assert(addrs.take(i + 1).last() == addrs[i]);
    assert(first_address_error(addrs.take(i + 1), inv) == address_error(
        claim_address(addrs[i]),
        inv,
    ));
    lemma_first_error_prefix(addrs, inv, i + 1);
}

/// An error found in a prefix of the addresses is the error of all of them.
proof fn lemma_first_error_prefix(addrs: Seq<String>, inv: Seq<PciInventoryEntry>, k: int)
    requires
        0 <= k <= addrs.len(),
        first_address_error(addrs.take(k), inv) is Some,
    ensures
        first_address_error(addrs, inv) == first_address_error(addrs.take(k), inv),
    decreases addrs.len() - k,
{
    if k < addrs.len() {
        assert(addrs.take(k + 1).drop_last() =~= addrs.take(k));
        lemma_first_error_prefix(addrs, inv, k + 1);
    } else {
        assert(addrs.take(k) =~= addrs);
    }
}

// ── the management interface guard ──────────────────────────────

pub const REFUSE_MSG_HEAD: &'static str = "refusing to claim ";

pub const REFUSE_MSG_MID: &'static str = ") for passthrough — that is the PCI device behind the management interface '";

pub const REFUSE_MSG_TAIL: &'static str = "', so vfio-pci would steal it at boot and lock you out. Reach the box on a different interface (or console) and retry.";

pub open spec fn refuse_msg(e: PassthroughEntry, iface: Seq<char>) -> Seq<char> {
    REFUSE_MSG_HEAD@ + e.address@ + seq![' ', '('] + e.vendor@ + seq![':'] + e.device@
        + REFUSE_MSG_MID@ + iface + REFUSE_MSG_TAIL@
}

/// Refuses claims that include the device behind the management interface
/// (`mgmt_bdf`, resolved from `mgmt_iface` by the caller). Where either is
/// unknown the claims pass: the user is left to proceed.
pub fn validate_claims(
    devices: &Vec<PassthroughEntry>,
    mgmt_iface: Option<&str>,
    mgmt_bdf: Option<&str>,
) -> (r: Result<(), String>)
    ensures
        match (mgmt_iface, mgmt_bdf) {
            (Some(iface), Some(bdf)) => if exists|i: int|
                0 <= i < devices@.len() && (#[trigger] devices@[i]).address@ == bdf@ {
                exists|i: int|
                    0 <= i < devices@.len() && devices@[i].address@ == bdf@ && (forall|j: int|
                        0 <= j < i ==> (#[trigger] devices@[j]).address@ != bdf@) && r is Err
                        && r->Err_0@ == refuse_msg(devices@[i], iface@)
            } else {
                r is Ok
            },
            _ => r is Ok,
        },
{
    let iface = match mgmt_iface {
        None => return Ok(()),
        Some(i) => i,
    };
    let bdf = match mgmt_bdf {
        None => return Ok(()),
        Some(b) => b,
    };
    let n = devices.len();
    for i in 0..n
        invariant
            n == devices@.len(),
            mgmt_iface == Some(iface),
            mgmt_bdf == Some(bdf),
            forall|j: int| 0 <= j < i ==> (#[trigger] devices@[j]).address@ != bdf@,
    {
        let d = &devices[i];
        if str_same(d.address.as_str(), bdf) {
            let mut m = String::new();
            push_lit(&mut m, REFUSE_MSG_HEAD);
            m.append(d.address.as_str());
            m.push(' ');
            m.push('(');
            m.append(d.vendor.as_str());
            m.push(':');
            m.append(d.device.as_str());
            push_lit(&mut m, REFUSE_MSG_MID);
            m.append(iface);
            push_lit(&mut m, REFUSE_MSG_TAIL);
            assert(m@ =~= refuse_msg(*d, iface@));
            return Err(m);
        }
    }
    Ok(())
}

fn str_same(a: &str, b: &str) -> (r: bool)
    ensures
        r == (a@ == b@),
{
    crate::text::str_eq(a, b)
}

// ── laws ────────────────────────────────────────────────────────

/// A saved config — claims with the mirror derived from them — is never
/// taken for stale legacy state when it is loaded again.
pub proof fn law_saved_config_is_not_stale(cfg: PassthroughConfig)
    requires
        device_keys(cfg.ids@) == sorted_set(pair_keys(cfg.devices@)),
    ensures
        !spec_claims_stale(cfg),
{
    if cfg.devices@.len() == 0 {
        assert(pair_keys(cfg.devices@) =~= Seq::<Seq<Seq<char>>>::empty());
        let e = Seq::<Seq<Seq<char>>>::empty();
        assert(is_sorted_set_of(e, e));
        lemma_sorted_set_is(e, e);
        assert(device_keys(cfg.ids@).len() == 0);
    }
}

} // verus!
