use vstd::prelude::*;

use crate::softvol::{enabled_from_stored, spec_enabled_from_stored};
use crate::text::str_eq;
use crate::volcap::{percent_from_stored, spec_percent_from_stored};

verus! {

/// The lowest volume cap, in percent, that a configuration may hold.
pub const MIN_CAP_PERCENT: u32 = 10;

/// The highest volume cap, in percent: no cap at all.
pub const MAX_CAP_PERCENT: u32 = 100;

/// A cap percentage brought into `MIN_CAP_PERCENT..=MAX_CAP_PERCENT`.
pub open spec fn spec_clamp_cap(p: u32) -> u32 {
    if p < MIN_CAP_PERCENT {
        MIN_CAP_PERCENT
    } else if p > MAX_CAP_PERCENT {
        MAX_CAP_PERCENT
    } else {
        p
    }
}

/// Brings a cap percentage into the accepted range.
pub fn clamp_cap(p: u32) -> (r: u32)
    ensures
        r == spec_clamp_cap(p),
{
    if p < MIN_CAP_PERCENT {
        MIN_CAP_PERCENT
    } else if p > MAX_CAP_PERCENT {
        MAX_CAP_PERCENT
    } else {
        p
    }
}

/// Each element is larger than every element after it.
pub open spec fn strictly_descending(s: Seq<u32>) -> bool {
    forall|i: int, j: int| 0 <= i < j < s.len() ==> s[i] > s[j]
}

/// Every element is an accepted cap percentage.
pub open spec fn all_caps_in_range(s: Seq<u32>) -> bool {
    forall|i: int| 0 <= i < s.len() ==> MIN_CAP_PERCENT <= #[trigger] s[i] <= MAX_CAP_PERCENT
}

/// The cap presets offered when the configuration names none.
pub open spec fn spec_default_cap_presets() -> Seq<u32> {
    seq![100u32, 80u32, 60u32, 40u32]
}

/// The presets of `s`, each clamped into the accepted range.
pub open spec fn clamped_presets(s: Seq<u32>) -> Seq<u32> {
    s.map_values(|p: u32| spec_clamp_cap(p))
}

/// `r` is the sanitized form of the preset list `s`: the distinct clamped
/// values of `s` from largest to smallest, or the default presets when `s`
/// is empty.
pub open spec fn sanitized_presets(s: Seq<u32>, r: Seq<u32>) -> bool {
    if s.len() == 0 {
        r == spec_default_cap_presets()
    } else {
        &&& strictly_descending(r)
        &&& forall|x: u32| r.contains(x) <==> clamped_presets(s).contains(x)
    }
}

/// The cap presets offered when the configuration names none.
pub fn default_cap_presets() -> (v: Vec<u32>)
    ensures
        v@ == spec_default_cap_presets(),
        strictly_descending(v@),
        all_caps_in_range(v@),
{
    let v: Vec<u32> = vec![100, 80, 60, 40];
    assert(v@ =~= spec_default_cap_presets());
    v
}

/// Inserts `c` into a strictly descending list, unless it is already there.
fn insert_descending(out: &mut Vec<u32>, c: u32)
    requires
        strictly_descending(old(out)@),
    ensures
        strictly_descending(final(out)@),
        forall|x: u32| final(out)@.contains(x) <==> (old(out)@.contains(x) || x == c),
        final(out)@.len() > 0,
{
    let n = out.len();
    let mut k: usize = 0;
    while k < n && out[k] > c
        invariant
            n == out@.len(),
            k <= n,
            forall|j: int| 0 <= j < k ==> out@[j] > c,
        decreases n - k,
    {
        k = k + 1;
    }
    if k < n && out[k] == c {
        assert(out@.contains(c));
        return;
    }
    let ghost before = out@;
    out.insert(k, c);
    assert forall|i: int, j: int| 0 <= i < j < out@.len() implies out@[i] > out@[j] by {
        if j < k {
        } else if j == k {
        } else if i < k {
            assert(before[j - 1] <= before[k as int] || j - 1 == k);
        } else if i == k {
            assert(before[k as int] < c);
            assert(before[j - 1] <= before[k as int] || j - 1 == k);
        } else {
        }
    }
    assert forall|x: u32| out@.contains(x) <==> (before.contains(x) || x == c) by {
        if out@.contains(x) {
            let i = choose|i: int| 0 <= i < out@.len() && out@[i] == x;
            if i < k {
                assert(before[i] == x);
            } else if i > k {
                assert(before[i - 1] == x);
            }
        }
        if before.contains(x) {
            let i = choose|i: int| 0 <= i < before.len() && before[i] == x;
            if i < k {
                assert(out@[i] == x);
            } else {
                assert(out@[i + 1] == x);
            }
        }
        if x == c {
            assert(out@[k as int] == x);
        }
    }
}

/// Two strictly descending lists with the same elements are the same list.
pub proof fn lemma_descending_unique(a: Seq<u32>, b: Seq<u32>)
    requires
        strictly_descending(a),
        strictly_descending(b),
        forall|x: u32| a.contains(x) <==> b.contains(x),
    ensures
        a == b,
    decreases a.len(),
{
    if a.len() == 0 {
        if b.len() > 0 {
            assert(b.contains(b[0]));
        }
        assert(a =~= b);
    } else {
        assert(a.contains(a[0]));
        assert(b.len() > 0);
        assert(b.contains(b[0]));
        let i = choose|i: int| 0 <= i < a.len() && a[i] == b[0];
        let j = choose|j: int| 0 <= j < b.len() && b[j] == a[0];
        assert(a[0] == b[0]) by {
            if i > 0 {
                assert(a[0] > a[i]);
            }
            if j > 0 {
                assert(b[0] > b[j]);
            }
        }
        let ta = a.drop_first();
        let tb = b.drop_first();
        assert forall|x: u32| ta.contains(x) <==> tb.contains(x) by {
            if ta.contains(x) {
                let k = choose|k: int| 0 <= k < ta.len() && ta[k] == x;
                assert(a[k + 1] == x);
                assert(a[0] > a[k + 1]);
                assert(a.contains(x));
                let m = choose|m: int| 0 <= m < b.len() && b[m] == x;
                assert(m != 0);
                assert(tb[m - 1] == x);
            }
            if tb.contains(x) {
                let k = choose|k: int| 0 <= k < tb.len() && tb[k] == x;
                assert(b[k + 1] == x);
                assert(b[0] > b[k + 1]);
                assert(b.contains(x));
                let m = choose|m: int| 0 <= m < a.len() && a[m] == x;
                assert(m != 0);
                assert(ta[m - 1] == x);
            }
        }
        lemma_descending_unique(ta, tb);
        assert(a =~= seq![a[0]] + ta);
        assert(b =~= seq![b[0]] + tb);
    }
}

/// The sanitized form of a preset list is determined by the list: no two
/// different results meet the contract of `GeneralConfig::sanitize`.
pub proof fn lemma_sanitized_presets_unique(s: Seq<u32>, r1: Seq<u32>, r2: Seq<u32>)
    requires
        sanitized_presets(s, r1),
        sanitized_presets(s, r2),
    ensures
        r1 == r2,
{
    if s.len() > 0 {
        lemma_descending_unique(r1, r2);
    }
}

/// A sanitized preset list is in range and not empty.
pub proof fn lemma_sanitized_presets_in_range(s: Seq<u32>, r: Seq<u32>)
    requires
        sanitized_presets(s, r),
    ensures
        all_caps_in_range(r),
        strictly_descending(r),
        r.len() > 0,
{
    if s.len() == 0 {
        assert(r[0] == 100);
    } else {
        assert(s.len() > 0);
        let c = clamped_presets(s);
        assert(c.contains(c[0]));
        assert(r.len() > 0) by {
            if r.len() == 0 {
                assert(!r.contains(c[0]));
            }
        }
        assert forall|k: int| 0 <= k < r.len() implies MIN_CAP_PERCENT <= #[trigger] r[k] <= MAX_CAP_PERCENT by {
            assert(r.contains(r[k]));
            let j = choose|j: int| 0 <= j < c.len() && c[j] == r[k];
        }
    }
}

/// Sanitizing a sanitized preset list changes nothing.
pub proof fn lemma_sanitize_presets_idempotent(s: Seq<u32>, r: Seq<u32>, r2: Seq<u32>)
    requires
        sanitized_presets(s, r),
        sanitized_presets(r, r2),
    ensures
        r2 == r,
{
    lemma_sanitized_presets_in_range(s, r);
    let c = clamped_presets(r);
    assert forall|x: u32| r2.contains(x) <==> r.contains(x) by {
        if r.contains(x) {
            let k = choose|k: int| 0 <= k < r.len() && r[k] == x;
            assert(c[k] == x);
        }
        if c.contains(x) {
            let k = choose|k: int| 0 <= k < c.len() && c[k] == x;
            assert(MIN_CAP_PERCENT <= r[k] <= MAX_CAP_PERCENT);
            assert(r[k] == x);
        }
    }
    lemma_descending_unique(r2, r);
}

/// Settings that hold for the whole program.
#[derive(Debug, Clone)]
pub struct GeneralConfig {
    pub autostart: bool,
    pub cap_presets: Vec<u32>,
}

impl Default for GeneralConfig {
    fn default() -> (r: Self)
        ensures
            r.autostart == false,
            r.cap_presets@ == spec_default_cap_presets(),
    {
        GeneralConfig { autostart: false, cap_presets: default_cap_presets() }
    }
}

impl GeneralConfig {
    /// Clamps every preset into the accepted range, drops repeats, orders the
    /// presets from largest to smallest, and falls back to the default
    /// presets when none are left.
    pub fn sanitize(&mut self)
        ensures
            final(self).autostart == old(self).autostart,
            sanitized_presets(old(self).cap_presets@, final(self).cap_presets@),
            strictly_descending(final(self).cap_presets@),
            all_caps_in_range(final(self).cap_presets@),
            final(self).cap_presets@.len() > 0,
    {
        let ghost input = self.cap_presets@;
        let n = self.cap_presets.len();
        let mut out: Vec<u32> = Vec::new();
        for i in 0..n
            invariant
                n == self.cap_presets@.len(),
                input == self.cap_presets@,
                strictly_descending(out@),
                forall|x: u32|
                    out@.contains(x) <==> clamped_presets(input).subrange(0, i as int).contains(x),
                i > 0 ==> out@.len() > 0,
                i == 0 ==> out@.len() == 0,
        {
            let c = clamp_cap(self.cap_presets[i]);
            insert_descending(&mut out, c);
            assert forall|x: u32|
                out@.contains(x) <==> clamped_presets(input).subrange(0, i + 1).contains(x) by {
                let cur = clamped_presets(input).subrange(0, i as int);
                let next = clamped_presets(input).subrange(0, i + 1);
                assert(next =~= cur.push(c));
                if cur.contains(x) {
                    let j = choose|j: int| 0 <= j < cur.len() && cur[j] == x;
                    assert(next[j] == x);
                }
                if next.contains(x) && x != c {
                    let j = choose|j: int| 0 <= j < next.len() && next[j] == x;
                    assert(cur[j] == x);
                }
                if x == c {
                    assert(next[i as int] == x);
                }
            }
        }
        assert(clamped_presets(input).subrange(0, n as int) =~= clamped_presets(input));
        if out.len() == 0 {
            self.cap_presets = default_cap_presets();
        } else {
            assert forall|k: int| 0 <= k < out@.len() implies MIN_CAP_PERCENT <= #[trigger] out@[k]
                <= MAX_CAP_PERCENT by {
                assert(out@.contains(out@[k]));
                let j = choose|j: int|
                    0 <= j < clamped_presets(input).len() && clamped_presets(input)[j] == out@[k];
            }
            self.cap_presets = out;
        }
    }
}

/// The settings of one audio device.
#[derive(Debug, Clone, Copy, PartialEq, Eq)]
pub struct DeviceConfig {
    pub force_sw_volume: bool,
    pub cap_percent: u32,
}

impl Default for DeviceConfig {
    fn default() -> (r: Self)
        ensures
            r.force_sw_volume == false,
            r.cap_percent == MAX_CAP_PERCENT,
    {
        DeviceConfig { force_sw_volume: false, cap_percent: MAX_CAP_PERCENT }
    }
}

impl DeviceConfig {
    /// The same settings with the cap clamped into the accepted range.
    pub open spec fn sanitized(self) -> DeviceConfig {
        DeviceConfig { force_sw_volume: self.force_sw_volume, cap_percent: spec_clamp_cap(self.cap_percent) }
    }

    /// Clamps the cap into the accepted range.
    pub fn sanitize(&mut self)
        ensures
            *final(self) == old(self).sanitized(),
    {
        self.cap_percent = clamp_cap(self.cap_percent);
    }
}

/// Per-device settings, keyed by the device's identifier.
///
/// No identifier occurs twice among the entries.
///
/// The entries are held in a `Vec` rather than a `std::collections::HashMap`:
/// vstd specifies `HashMap` lookups only for key types that obey its key
/// model (`vstd::std_specs::hash::obeys_key_model`), and `String` is not
/// among them, so nothing could be proved of a lookup by identifier. The
/// map view below leaves out the order of the entries, which a `HashMap`
/// leaves open too.
#[derive(Debug)]
pub struct DeviceMap {
    entries: Vec<(String, DeviceConfig)>,
}

/// No two entries carry the same identifier.
pub open spec fn keys_distinct(s: Seq<(String, DeviceConfig)>) -> bool {
    forall|i: int, j: int| 0 <= i < s.len() && 0 <= j < s.len() && i != j ==> #[trigger] s[i].0@ != #[trigger] s[j].0@
}

/// Some entry of `s` carries the identifier `k`.
pub open spec fn has_key(s: Seq<(String, DeviceConfig)>, k: Seq<char>) -> bool {
    exists|i: int| 0 <= i < s.len() && #[trigger] s[i].0@ == k
}

/// The map that the entries `s` describe.
pub open spec fn entries_map(s: Seq<(String, DeviceConfig)>) -> Map<Seq<char>, DeviceConfig> {
    Map::new(
        |k: Seq<char>| has_key(s, k),
        |k: Seq<char>| s[choose|i: int| 0 <= i < s.len() && #[trigger] s[i].0@ == k].1,
    )
}

/// With distinct identifiers, the map gives each entry's settings for its identifier.
proof fn lemma_entries_map_at(s: Seq<(String, DeviceConfig)>, i: int)
    requires
        keys_distinct(s),
        0 <= i < s.len(),
    ensures
        entries_map(s).contains_key(s[i].0@),
        entries_map(s)[s[i].0@] == s[i].1,
{
    let k = s[i].0@;
    assert(has_key(s, k));
    let j = choose|j: int| 0 <= j < s.len() && #[trigger] s[j].0@ == k;
    assert(j == i);
}

/// Appending an entry under a new identifier adds that identifier to the map.
proof fn lemma_entries_map_push(s: Seq<(String, DeviceConfig)>, e: (String, DeviceConfig))
    requires
        keys_distinct(s),
        !has_key(s, e.0@),
    ensures
        keys_distinct(s.push(e)),
        entries_map(s.push(e)) =~= entries_map(s).insert(e.0@, e.1),
{
    let t = s.push(e);
    assert forall|i: int, j: int| 0 <= i < t.len() && 0 <= j < t.len() && i != j implies #[trigger] t[i].0@
        != #[trigger] t[j].0@ by {
        if i < s.len() && j < s.len() {
            assert(t[i] == s[i] && t[j] == s[j]);
        } else if i < s.len() {
            assert(t[i] == s[i]);
        } else {
            assert(t[j] == s[j]);
        }
    }
    assert forall|k: Seq<char>| #[trigger] has_key(t, k) <==> (has_key(s, k) || k == e.0@) by {
        if has_key(s, k) {
            let i = choose|i: int| 0 <= i < s.len() && #[trigger] s[i].0@ == k;
            assert(t[i] == s[i]);
        }
        if k == e.0@ {
            assert(t[s.len() as int] == e);
        }
        if has_key(t, k) && k != e.0@ {
            let i = choose|i: int| 0 <= i < t.len() && #[trigger] t[i].0@ == k;
            assert(t[i] == s[i]);
        }
    }
    assert forall|k: Seq<char>| has_key(t, k) implies entries_map(t)[k] == entries_map(s).insert(e.0@, e.1)[k] by {
        let i = choose|i: int| 0 <= i < t.len() && #[trigger] t[i].0@ == k;
        lemma_entries_map_at(t, i);
        if i < s.len() {
            assert(t[i] == s[i]);
            lemma_entries_map_at(s, i);
        }
    }
}

/// Replacing the settings of entry `i`, under the same identifier, replaces them in the map.
proof fn lemma_entries_map_update(s: Seq<(String, DeviceConfig)>, i: int, e: (String, DeviceConfig))
    requires
        keys_distinct(s),
        0 <= i < s.len(),
        e.0@ == s[i].0@,
    ensures
        keys_distinct(s.update(i, e)),
        entries_map(s.update(i, e)) =~= entries_map(s).insert(e.0@, e.1),
{
    let t = s.update(i, e);
    assert forall|a: int, b: int| 0 <= a < t.len() && 0 <= b < t.len() && a != b implies #[trigger] t[a].0@
        != #[trigger] t[b].0@ by {
        assert(t[a].0@ == s[a].0@);
        assert(t[b].0@ == s[b].0@);
    }
    assert forall|k: Seq<char>| #[trigger] has_key(t, k) <==> has_key(s, k) by {
        if has_key(s, k) {
            let a = choose|a: int| 0 <= a < s.len() && #[trigger] s[a].0@ == k;
            assert(t[a].0@ == s[a].0@);
        }
        if has_key(t, k) {
            let a = choose|a: int| 0 <= a < t.len() && #[trigger] t[a].0@ == k;
            assert(t[a].0@ == s[a].0@);
        }
    }
    assert(has_key(s, e.0@)) by {
        assert(s[i].0@ == e.0@);
    }
    assert forall|k: Seq<char>| has_key(t, k) implies entries_map(t)[k] == entries_map(s).insert(e.0@, e.1)[k] by {
        let a = choose|a: int| 0 <= a < t.len() && #[trigger] t[a].0@ == k;
        lemma_entries_map_at(t, a);
        if a != i {
            assert(t[a] == s[a]);
            lemma_entries_map_at(s, a);
        }
    }
}

impl View for DeviceMap {
    type V = Map<Seq<char>, DeviceConfig>;

    closed spec fn view(&self) -> Map<Seq<char>, DeviceConfig> {
        entries_map(self.entries@)
    }
}

impl DeviceMap {
    #[verifier::type_invariant]
    closed spec fn distinct_identifiers(self) -> bool {
        keys_distinct(self.entries@)
    }

    /// A map with no device in it.
    pub fn new() -> (r: Self)
        ensures
            r@ == Map::<Seq<char>, DeviceConfig>::empty(),
    {
        let r = DeviceMap { entries: Vec::new() };
        assert(r@ =~= Map::<Seq<char>, DeviceConfig>::empty());
        r
    }

    /// The position of the entry whose identifier is `key`, if any.
    fn position(&self, key: &str) -> (r: Option<usize>)
        ensures
            match r {
                Some(i) => i < self.entries@.len() && self.entries@[i as int].0@ == key@,
                None => !has_key(self.entries@, key@),
            },
    {
        let n = self.entries.len();
        for i in 0..n
            invariant
                n == self.entries@.len(),
                forall|j: int| 0 <= j < i ==> #[trigger] self.entries@[j].0@ != key@,
        {
            if str_eq(self.entries[i].0.as_str(), key) {
                return Some(i);
            }
        }
        None
    }

    /// The number of devices in the map.
    pub fn len(&self) -> (r: usize)
        ensures
            r == self@.dom().len(),
    {
        proof {
            use_type_invariant(self);
            self.lemma_dom_len();
        }
        self.entries.len()
    }

    /// Whether the map holds no device.
    pub fn is_empty(&self) -> (r: bool)
        ensures
            r == (self@ == Map::<Seq<char>, DeviceConfig>::empty()),
    {
        proof {
            use_type_invariant(self);
        }
        if self.entries.len() == 0 {
            assert(self@ =~= Map::<Seq<char>, DeviceConfig>::empty());
            true
        } else {
            proof {
                lemma_entries_map_at(self.entries@, 0);
                assert(!Map::<Seq<char>, DeviceConfig>::empty().contains_key(self.entries@[0].0@));
            }
            false
        }
    }

    /// The domain of the map is finite and has one identifier per entry.
    proof fn lemma_dom_len(&self)
        requires
            keys_distinct(self.entries@),
        ensures
            self@.dom().finite(),
            self@.dom().len() == self.entries@.len(),
    {
        let s = self.entries@;
        let keys = s.map_values(|e: (String, DeviceConfig)| e.0@);
        assert(keys.no_duplicates()) by {
            assert forall|i: int, j: int| 0 <= i < keys.len() && 0 <= j < keys.len() && i != j implies keys[i]
                != keys[j] by {
                assert(s[i].0@ != s[j].0@);
            }
        }
        assert(self@.dom() =~= keys.to_set()) by {
            assert forall|k: Seq<char>| self@.dom().contains(k) <==> keys.to_set().contains(k) by {
                if self@.dom().contains(k) {
                    let i = choose|i: int| 0 <= i < s.len() && #[trigger] s[i].0@ == k;
                    assert(keys[i] == k);
                }
                if keys.to_set().contains(k) {
                    assert(keys.contains(k));
                    let i = choose|i: int| 0 <= i < keys.len() && keys[i] == k;
                    assert(s[i].0@ == k);
                }
            }
        }
        keys.unique_seq_to_set();
    }

    /// The settings stored for `key`, if any.
    pub fn get(&self, key: &str) -> (r: Option<&DeviceConfig>)
        ensures
            match r {
                Some(d) => self@.contains_key(key@) && *d == self@[key@],
                None => !self@.contains_key(key@),
            },
    {
        proof {
            use_type_invariant(self);
        }
        match self.position(key) {
            Some(i) => {
                proof {
                    lemma_entries_map_at(self.entries@, i as int);
                }
                Some(&self.entries[i].1)
            },
            None => None,
        }
    }

    /// Stores `value` under `key`, replacing and returning the settings that
    /// were stored there before.
    pub fn insert(&mut self, key: String, value: DeviceConfig) -> (r: Option<DeviceConfig>)
        ensures
            final(self)@ == old(self)@.insert(key@, value),
            match r {
                Some(d) => old(self)@.contains_key(key@) && d == old(self)@[key@],
                None => !old(self)@.contains_key(key@),
            },
    {
        proof {
            use_type_invariant(&*self);
        }
        let pos = self.position(key.as_str());
        let mut entries: Vec<(String, DeviceConfig)> = Vec::new();
        std::mem::swap(&mut entries, &mut self.entries);
        let ghost s = entries@;
        let r = match pos {
            Some(i) => {
                let previous = entries[i].1;
                proof {
                    lemma_entries_map_at(s, i as int);
                    lemma_entries_map_update(s, i as int, (key, value));
                }
                entries.set(i, (key, value));
                Some(previous)
            },
            None => {
                proof {
                    lemma_entries_map_push(s, (key, value));
                }
                entries.push((key, value));
                None
            },
        };
        self.entries = entries;
        r
    }

    /// The identifiers and settings of all devices, each device once.
    pub fn entries(&self) -> (r: Vec<(String, DeviceConfig)>)
        ensures
            keys_distinct(r@),
            entries_map(r@) == self@,
    {
        proof {
            use_type_invariant(self);
        }
        let mut r: Vec<(String, DeviceConfig)> = Vec::new();
        let n = self.entries.len();
        for i in 0..n
            invariant
                n == self.entries@.len(),
                r@ == self.entries@.take(i as int),
        {
            let name = self.entries[i].0.clone();
            r.push((name, self.entries[i].1));
            assert(r@ =~= self.entries@.take(i + 1));
        }
        assert(r@ =~= self.entries@);
        r
    }

    /// Clamps the cap of every device into the accepted range.
    pub fn sanitize_all(&mut self)
        ensures
            final(self)@.dom() == old(self)@.dom(),
            forall|k: Seq<char>| #[trigger] final(self)@.contains_key(k) ==> final(self)@[k] == old(self)@[k].sanitized(),
    {
        proof {
            use_type_invariant(&*self);
        }
        let mut entries: Vec<(String, DeviceConfig)> = Vec::new();
        std::mem::swap(&mut entries, &mut self.entries);
        let ghost s = entries@;
        let n = entries.len();
        for i in 0..n
            invariant
                n == entries@.len(),
                n == s.len(),
                keys_distinct(s),
                keys_distinct(entries@),
                forall|j: int| 0 <= j < n ==> #[trigger] entries@[j].0@ == s[j].0@,
                forall|j: int| 0 <= j < i ==> #[trigger] entries@[j].1 == s[j].1.sanitized(),
                forall|j: int| i <= j < n ==> #[trigger] entries@[j].1 == s[j].1,
        {
            let (name, mut device) = entries.remove(i);
            device.sanitize();
            entries.insert(i, (name, device));
            proof {
                assert forall|a: int, b: int|
                    0 <= a < entries@.len() && 0 <= b < entries@.len() && a != b implies #[trigger] entries@[a].0@
                    != #[trigger] entries@[b].0@ by {
                    assert(entries@[a].0@ == s[a].0@);
                    assert(entries@[b].0@ == s[b].0@);
                }
            }
        }
        proof {
            assert forall|k: Seq<char>| #[trigger] has_key(entries@, k) <==> has_key(s, k) by {
                if has_key(s, k) {
                    let a = choose|a: int| 0 <= a < s.len() && #[trigger] s[a].0@ == k;
                    assert(entries@[a].0@ == s[a].0@);
                }
                if has_key(entries@, k) {
                    let a = choose|a: int| 0 <= a < entries@.len() && #[trigger] entries@[a].0@ == k;
                    assert(entries@[a].0@ == s[a].0@);
                }
            }
            assert(entries_map(entries@).dom() =~= entries_map(s).dom());
            assert forall|k: Seq<char>| #[trigger] entries_map(entries@).contains_key(k) implies entries_map(
                entries@,
            )[k] == entries_map(s)[k].sanitized() by {
                let a = choose|a: int| 0 <= a < entries@.len() && #[trigger] entries@[a].0@ == k;
                lemma_entries_map_at(entries@, a);
                assert(entries@[a].0@ == s[a].0@);
                lemma_entries_map_at(s, a);
            }
        }
        self.entries = entries;
    }
}

/// The whole configuration: program settings, the settings that apply to
/// any device, and the settings of particular devices.
#[derive(Debug)]
pub struct Config {
    pub general: GeneralConfig,
    pub default: DeviceConfig,
    pub device: DeviceMap,
}

impl Default for Config {
    fn default() -> (r: Self)
        ensures
            r.general.autostart == false,
            r.general.cap_presets@ == spec_default_cap_presets(),
            r.default.force_sw_volume == false,
            r.default.cap_percent == MAX_CAP_PERCENT,
            r.device@ == Map::<Seq<char>, DeviceConfig>::empty(),
    {
        Config { general: GeneralConfig::default(), default: DeviceConfig::default(), device: DeviceMap::new() }
    }
}

impl Config {
    /// The settings that apply to a device: its own when the configuration
    /// names it, the default settings otherwise.
    pub open spec fn spec_resolve_device(&self, device_id: Seq<char>) -> DeviceConfig {
        if self.device@.contains_key(device_id) {
            self.device@[device_id]
        } else {
            self.default
        }
    }

    /// The settings that apply to the device `device_id`.
    pub fn resolve_device(&self, device_id: &str) -> (r: &DeviceConfig)
        ensures
            *r == self.spec_resolve_device(device_id@),
    {
        match self.device.get(device_id) {
            Some(d) => d,
            None => &self.default,
        }
    }

    /// The configuration that the values of the older, registry-based
    /// settings describe: the forced software-volume flag and the cap as
    /// stored there (`None` where nothing could be read), and whether the
    /// program is entered for autostart.
    pub fn from_registry_values(force_sw_volume: Option<u32>, cap_percent: Option<u32>, autostart: bool) -> (r: Config)
        ensures
            r.general.autostart == autostart,
            r.general.cap_presets@ == spec_default_cap_presets(),
            r.default.force_sw_volume == spec_enabled_from_stored(force_sw_volume),
            r.default.cap_percent == spec_percent_from_stored(cap_percent),
            r.device@ == Map::<Seq<char>, DeviceConfig>::empty(),
    {
        Config {
            general: GeneralConfig { autostart, cap_presets: default_cap_presets() },
            default: DeviceConfig {
                force_sw_volume: enabled_from_stored(force_sw_volume),
                cap_percent: percent_from_stored(cap_percent),
            },
            device: DeviceMap::new(),
        }
    }

    /// Sanitizes the general settings, the default device settings and the
    /// settings of every device.
    pub fn sanitize_devices(&mut self)
        ensures
            final(self).general.autostart == old(self).general.autostart,
            sanitized_presets(old(self).general.cap_presets@, final(self).general.cap_presets@),
            strictly_descending(final(self).general.cap_presets@),
            all_caps_in_range(final(self).general.cap_presets@),
            final(self).default == old(self).default.sanitized(),
            final(self).device@.dom() == old(self).device@.dom(),
            forall|k: Seq<char>| #[trigger] final(self).device@.contains_key(k) ==> final(self).device@[k]
                == old(self).device@[k].sanitized(),
    {
        self.general.sanitize();
        self.default.sanitize();
        self.device.sanitize_all();
    }
}

/// A device that the configuration names resolves to its own settings; any
/// other device resolves to the configuration's `[default]` settings.
pub proof fn lemma_resolve_named_or_default(c: Config, device_id: Seq<char>)
    ensures
        c.device@.contains_key(device_id) ==> c.spec_resolve_device(device_id) == c.device@[device_id],
        !c.device@.contains_key(device_id) ==> c.spec_resolve_device(device_id) == c.default,
{
}

/// With no device entries, every device resolves to the `[default]` settings.
pub proof fn lemma_resolve_without_entries(c: Config, device_id: Seq<char>)
    requires
        c.device@ == Map::<Seq<char>, DeviceConfig>::empty(),
    ensures
        c.spec_resolve_device(device_id) == c.default,
{
}

/// After the settings of a device are stored, that device resolves to them,
/// and every other device resolves as before.
pub proof fn lemma_resolve_after_insert(
    before: Config,
    after: Config,
    device_id: Seq<char>,
    settings: DeviceConfig,
    other: Seq<char>,
)
    requires
        after.default == before.default,
        after.device@ == before.device@.insert(device_id, settings),
    ensures
        after.spec_resolve_device(device_id) == settings,
        other != device_id ==> after.spec_resolve_device(other) == before.spec_resolve_device(other),
{
}

/// After sanitizing, every device, named in the configuration or not,
/// resolves to a cap in the accepted range.
pub proof fn lemma_sanitized_resolves_in_range(c0: Config, c1: Config, device_id: Seq<char>)
    requires
        c1.default == c0.default.sanitized(),
        c1.device@.dom() == c0.device@.dom(),
        forall|k: Seq<char>| #[trigger] c1.device@.contains_key(k) ==> c1.device@[k] == c0.device@[k].sanitized(),
    ensures
        MIN_CAP_PERCENT <= c1.spec_resolve_device(device_id).cap_percent <= MAX_CAP_PERCENT,
{
}

/// Sanitizing a configuration twice gives what sanitizing it once gives.
pub proof fn lemma_sanitize_devices_idempotent(c0: Config, c1: Config, c2: Config)
    requires
        sanitized_presets(c0.general.cap_presets@, c1.general.cap_presets@),
        c1.default == c0.default.sanitized(),
        c1.device@.dom() == c0.device@.dom(),
        forall|k: Seq<char>| #[trigger] c1.device@.contains_key(k) ==> c1.device@[k] == c0.device@[k].sanitized(),
        sanitized_presets(c1.general.cap_presets@, c2.general.cap_presets@),
        c2.default == c1.default.sanitized(),
        c2.device@.dom() == c1.device@.dom(),
        forall|k: Seq<char>| #[trigger] c2.device@.contains_key(k) ==> c2.device@[k] == c1.device@[k].sanitized(),
    ensures
        c2.general.cap_presets@ == c1.general.cap_presets@,
        c2.default == c1.default,
        c2.device@ == c1.device@,
        MIN_CAP_PERCENT <= c1.default.cap_percent <= MAX_CAP_PERCENT,
        forall|k: Seq<char>| #[trigger] c1.device@.contains_key(k) ==> MIN_CAP_PERCENT <= c1.device@[k].cap_percent
            <= MAX_CAP_PERCENT,
{
    lemma_sanitize_presets_idempotent(c0.general.cap_presets@, c1.general.cap_presets@, c2.general.cap_presets@);
    assert(c2.device@ =~= c1.device@);
}

} // verus!
