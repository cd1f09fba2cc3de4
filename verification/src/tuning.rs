//! The tuning view of a client, and the integer side of walking a scale: which keys a scale
//! maps, which keyboard key a key off the keyboard stands for, and how far a search reaches.
use vstd::prelude::*;
use crate::Client;

verus! {

/// Number of MIDI keys.
pub const KEY_COUNT: i32 = 128;

/// Highest MIDI key.
pub const LAST_KEY: i32 = KEY_COUNT - 1;

/// Tuning of an MTS-ESP master for one MIDI channel.
pub struct MtsTuning<'a> {
    client: &'a Client,
    channel: Option<u8>,
}

impl<'a> MtsTuning<'a> {
    /// The client this tuning reads.
    pub closed spec fn client_spec(&self) -> &'a Client {
        self.client
    }

    /// The channel this tuning reads, `None` for a channel-agnostic one.
    pub closed spec fn channel_spec(&self) -> Option<u8> {
        self.channel
    }

    /// Reads `client` on `channel`, or channel-agnostically with `None`.
    pub fn new(client: &'a Client, channel: Option<u8>) -> (tuning: Self)
        ensures
            tuning.client_spec() == client,
            tuning.channel_spec() == channel,
    {
        MtsTuning { client, channel }
    }

    /// The client this tuning reads.
    pub fn client(&self) -> (client: &'a Client)
        ensures
            client == self.client_spec(),
    {
        self.client
    }

    /// The channel this tuning reads.
    pub fn channel(&self) -> (channel: Option<u8>)
        ensures
            channel == self.channel_spec(),
    {
        self.channel
    }
}

/// A key clamped onto the keyboard.
pub open spec fn clamp_key(key: int) -> int {
    if key < 0 {
        0
    } else if key > LAST_KEY {
        LAST_KEY as int
    } else {
        key
    }
}

/// True when `key` is one of the 128 MIDI keys.
pub open spec fn on_keyboard(key: int) -> bool {
    0 <= key <= LAST_KEY
}

/// The keys per period that a walk uses: a period of no keys is no period.
pub open spec fn walk_period(keys_per_period: Option<u8>) -> Option<u8> {
    match keys_per_period {
        Some(keys) => if keys > 0 { Some(keys) } else { None },
        None => None,
    }
}

/// How many keys a walk searches for the next note before it gives up: two periods, or two
/// keyboards without a period.
pub open spec fn walk_search_limit(period: Option<u8>) -> int {
    match period {
        Some(keys) => 2 * keys,
        None => 2 * KEY_COUNT,
    }
}

/// The whole periods by which a key off the keyboard is shifted back onto it: the floor of
/// `key / keys_per_period` below the keyboard (a negative count), and above it the fewest periods
/// that bring the key down to the last key or below.
pub open spec fn periods_off_keyboard(key: int, keys_per_period: int) -> int {
    if key < 0 {
        key / keys_per_period
    } else {
        -((LAST_KEY - key) / keys_per_period)
    }
}

/// The key that `key` repeats, whole periods in, before it is clamped onto the keyboard.
pub open spec fn key_periods_in(key: int, keys_per_period: int) -> int {
    key - periods_off_keyboard(key, keys_per_period) * keys_per_period
}

/// How a resolved key's pitch is shifted from the pitch of the keyboard key it stands for.
pub enum KeyShift {
    /// By whole periods of the scale (the key repeats a key on the keyboard).
    Periods(i32),
    /// By plain semitones (the key continues the outermost key of the keyboard).
    Semitones(i32),
}

/// A key of the walk, resolved to a key of the keyboard and the shift from that key's pitch.
pub struct ResolvedKey {
    /// The keyboard key, `0..=127`.
    pub key: u8,
    /// The shift from that key's pitch.
    pub shift: KeyShift,
}

/// `-a / k` (Euclidean, so rounded down) is minus the rounded-up `a / k`.
proof fn lemma_negated_ceil_div(a: int, k: int)
    requires
        a >= 1,
        k >= 1,
    ensures
        1 <= (a + k - 1) / k <= a,
        (-a) / k == -((a + k - 1) / k),
        0 <= ((a + k - 1) / k) * k - a < k,
{
    let s = a + k - 1;
    let q = s / k;
    let r = s % k;
    vstd::arithmetic::div_mod::lemma_fundamental_div_mod(s, k);
    vstd::arithmetic::div_mod::lemma_mod_pos_bound(s, k);
    assert(k * q == q * k) by (nonlinear_arith);
    assert(q >= 1) by (nonlinear_arith)
        requires
            q * k + r == s,
            0 <= r < k,
            s >= k,
    ;
    assert(q <= a) by (nonlinear_arith)
        requires
            q * k + r == s,
            0 <= r < k,
            s == a + k - 1,
            k >= 1,
            a >= 1,
    ;
    assert((-q) * k == -(q * k)) by (nonlinear_arith);
    vstd::arithmetic::div_mod::lemma_fundamental_div_mod_converse_div(-a, k, -q, k - 1 - r);
}

/// The integer side of walking a scale: how many keys one repetition of the scale spans, when
/// known, and how many keys a search for the next note may cover.
pub struct KeyWalk {
    keys_per_period: Option<u8>,
    search_limit: i32,
}

impl KeyWalk {
    /// The keys per period that the walk uses, never `Some(0)`.
    pub closed spec fn period_spec(&self) -> Option<u8> {
        self.keys_per_period
    }

    /// The number of keys a search for the next note covers before it gives up.
    pub closed spec fn search_limit_spec(&self) -> int {
        self.search_limit as int
    }

    #[verifier::type_invariant]
    spec fn consistent(&self) -> bool {
        &&& self.keys_per_period == walk_period(self.keys_per_period)
        &&& self.search_limit == walk_search_limit(self.keys_per_period)
    }

    /// The walk of a scale that spans `keys_per_period` keys per repetition, when known.
    pub fn new(keys_per_period: Option<u8>) -> (walk: KeyWalk)
        ensures
            walk.period_spec() == walk_period(keys_per_period),
            walk.search_limit_spec() == walk_search_limit(walk_period(keys_per_period)),
            keys_per_period matches Some(k) ==> (k > 0 ==> walk.period_spec() == Some(k)
                && walk.search_limit_spec() == 2 * k),
            keys_per_period matches Some(k) ==> (k == 0 ==> walk.period_spec() is None),
            walk.period_spec() is None ==> walk.search_limit_spec() == 256,
            keys_per_period is None ==> walk.period_spec() is None,
    {
        let period: Option<u8> = match keys_per_period {
            Some(keys) => if keys > 0 {
                Some(keys)
            } else {
                None
            },
            None => None,
        };
        let search_limit: i32 = match period {
            Some(keys) => 2 * (keys as i32),
            None => 2 * KEY_COUNT,
        };
        KeyWalk { keys_per_period: period, search_limit }
    }

    /// The keys per period that the walk uses.
    pub fn keys_per_period(&self) -> (keys: Option<u8>)
        ensures
            keys == self.period_spec(),
            keys matches Some(k) ==> k > 0,
    {
        proof {
            use_type_invariant(self);
        }
        self.keys_per_period
    }

    /// The number of keys a search for the next note covers before it gives up.
    pub fn search_limit(&self) -> (limit: i32)
        ensures
            limit == self.search_limit_spec(),
            limit == walk_search_limit(self.period_spec()),
    {
        proof {
            use_type_invariant(self);
        }
        self.search_limit
    }

    /// Resolves `key`, which may lie off the keyboard, to a key of the keyboard and a shift.
    ///
    /// A key on the keyboard stands for itself. Past the ends of the keyboard a key repeats the
    /// key whole periods in; without a period it continues the outermost key in plain
    /// semitones.
    pub fn resolve(&self, key: i32) -> (resolved: ResolvedKey)
        ensures
            resolved.key <= LAST_KEY,
            (on_keyboard(key as int) || self.period_spec() is None) ==> {
                &&& resolved.key == clamp_key(key as int)
                &&& resolved.shift matches KeyShift::Semitones(s) && s == key - clamp_key(key as int)
            },
            (!on_keyboard(key as int) && self.period_spec() is Some) ==> {
                let k = self.period_spec()->0 as int;
                &&& resolved.key == clamp_key(key_periods_in(key as int, k))
                &&& resolved.shift matches KeyShift::Periods(p) && p == periods_off_keyboard(key as int, k)
            },
            0 <= key <= LAST_KEY ==> resolved.key == key && resolved.shift == KeyShift::Semitones(0),
            self.period_spec() is None && key < 0 ==> resolved.key == 0 && resolved.shift
                == KeyShift::Semitones(key),
            self.period_spec() is None && key > LAST_KEY ==> resolved.key == LAST_KEY
                && resolved.shift == KeyShift::Semitones((key - LAST_KEY) as i32),
            self.period_spec() matches Some(k) ==> (k <= KEY_COUNT && !(0 <= key <= LAST_KEY) ==> {
                &&& resolved.shift matches KeyShift::Periods(p)
                &&& resolved.key + p * k == key
                &&& key < 0 ==> p < 0 && resolved.key < k
                &&& key > LAST_KEY ==> p > 0 && resolved.key > LAST_KEY - k
            }),
    {
        proof {
            use_type_invariant(self);
            if self.keys_per_period is Some && (key < 0 || key > LAST_KEY) {
                let k = self.keys_per_period->0 as int;
                if k <= KEY_COUNT {
                    lemma_off_keyboard_key_lands_whole_periods_in(key as int, k);
                }
            }
        }
        match self.keys_per_period {
            Some(keys) if key < 0 || key > LAST_KEY => {
                let k: u64 = keys as u64;
                let periods: i64 = if key < 0 {
                    let a: u64 = (-(key as i64)) as u64;
                    proof {
                        lemma_negated_ceil_div(a as int, k as int);
                    }
                    let q: u64 = (a + k - 1) / k;
                    -(q as i64)
                } else {
                    let b: u64 = (key as i64 - 127) as u64;
                    proof {
                        lemma_negated_ceil_div(b as int, k as int);
                    }
                    let q: u64 = (b + k - 1) / k;
                    q as i64
                };
                proof {
                    if key < 0 {
                        assert(periods == periods_off_keyboard(key as int, k as int));
                    } else {
                        assert(LAST_KEY - key == -(key - 127));
                        assert(periods == periods_off_keyboard(key as int, k as int));
                    }
                    assert(periods * (k as int) == -((-periods) * (k as int))) by (nonlinear_arith);
                }
                let raw: i64 = key as i64 - periods * (k as i64);
                let resolved: u8 = if raw < 0 {
                    0
                } else if raw > 127 {
                    127
                } else {
                    raw as u8
                };
                ResolvedKey { key: resolved, shift: KeyShift::Periods(periods as i32) }
            },
            _ => {
                let held: i32 = if key < 0 {
                    0
                } else if key > LAST_KEY {
                    LAST_KEY
                } else {
                    key
                };
                ResolvedKey { key: held as u8, shift: KeyShift::Semitones(key - held) }
            },
        }
    }
}

/// The number of mapped keys (entries that are `false`) in a sequence of "unmapped" flags.
pub open spec fn mapped_count(unmapped: Seq<bool>) -> nat
    decreases unmapped.len(),
{
    if unmapped.len() == 0 {
        0
    } else {
        mapped_count(unmapped.drop_last()) + (if unmapped.last() {
            0nat
        } else {
            1nat
        })
    }
}

/// The keyboard key that a lookup of `key` reads: keys past the last one read the last one.
pub open spec fn lookup_key(key: u8) -> int {
    if key <= LAST_KEY {
        key as int
    } else {
        LAST_KEY as int
    }
}

/// Which of the 128 MIDI keys a scale leaves unmapped, and how many keys one repetition of the
/// scale spans, when that is known.
#[derive(Clone, Copy)]
pub struct KeyboardMap {
    filtered: [bool; 128],
    keys_per_period: Option<u8>,
}

impl KeyboardMap {
    /// For each of the 128 keys, whether the scale leaves it unmapped.
    pub closed spec fn unmapped(&self) -> Seq<bool> {
        self.filtered@
    }

    /// How many keys one repetition of the scale spans, when known.
    pub closed spec fn period_spec(&self) -> Option<u8> {
        self.keys_per_period
    }

    /// There is one flag per MIDI key.
    pub proof fn lemma_one_flag_per_key(&self)
        ensures
            self.unmapped().len() == KEY_COUNT,
    {
    }

    /// A plain keyboard map, with every key mapped and no period.
    pub fn new() -> (map: KeyboardMap)
        ensures
            map.unmapped() == Seq::new(KEY_COUNT as nat, |i: int| false),
            map.period_spec() is None,
    {
        let map = KeyboardMap { filtered: [false; 128], keys_per_period: None };
        assert(map.unmapped() =~= Seq::new(KEY_COUNT as nat, |i: int| false));
        map
    }

    /// Leaves `key` unmapped.
    pub fn filter_key(&mut self, key: u8)
        requires
            key <= LAST_KEY,
        ensures
            final(self).unmapped() == old(self).unmapped().update(key as int, true),
            final(self).period_spec() == old(self).period_spec(),
    {
        self.filtered[key as usize] = true;
    }

    /// Sets how many keys one repetition of the scale spans.
    pub fn with_period(self, keys_per_period: u8) -> (map: KeyboardMap)
        ensures
            map.unmapped() == self.unmapped(),
            map.period_spec() == Some(keys_per_period),
    {
        KeyboardMap { filtered: self.filtered, keys_per_period: Some(keys_per_period) }
    }

    /// True when the scale leaves `key` unmapped. A key past the last one reads the last one.
    pub fn is_key_filtered(&self, key: u8) -> (filtered: bool)
        ensures
            filtered == self.unmapped()[lookup_key(key)],
            key <= LAST_KEY ==> filtered == self.unmapped()[key as int],
            key > LAST_KEY ==> filtered == self.unmapped()[LAST_KEY as int],
    {
        let index: usize = if key <= 127 {
            key as usize
        } else {
            127
        };
        self.filtered[index]
    }

    /// How many keys one repetition of the scale spans, when known.
    pub fn keys_per_period(&self) -> (keys: Option<u8>)
        ensures
            keys == self.period_spec(),
    {
        self.keys_per_period
    }

    /// The number of keys that the scale maps.
    pub fn mapped_key_count(&self) -> (count: usize)
        ensures
            count == mapped_count(self.unmapped()),
            count <= KEY_COUNT,
    {
        let mut count: usize = 0;
        let mut i: usize = 0;
        while i < 128
            invariant
                i <= 128,
                self.unmapped().len() == 128,
                count == mapped_count(self.unmapped().take(i as int)),
                count <= i,
            decreases 128 - i,
        {
            assert(self.unmapped().take(i + 1).drop_last() =~= self.unmapped().take(i as int));
            if !self.filtered[i] {
                count = count + 1;
            }
            i = i + 1;
        }
        assert(self.unmapped().take(128) =~= self.unmapped());
        count
    }
}

/// Past either end of the keyboard, and with a period of at most one keyboard, a key repeats a
/// key on the keyboard whole periods in: the key it lands on lies on the keyboard (no clamping
/// applies), within one period of the end it was beyond, and that key shifted by the periods is
/// the original key again.
pub proof fn lemma_off_keyboard_key_lands_whole_periods_in(key: int, keys_per_period: int)
    requires
        1 <= keys_per_period <= KEY_COUNT,
        !on_keyboard(key),
    ensures
        on_keyboard(key_periods_in(key, keys_per_period)),
        clamp_key(key_periods_in(key, keys_per_period)) == key_periods_in(key, keys_per_period),
        key_periods_in(key, keys_per_period) + periods_off_keyboard(key, keys_per_period)
            * keys_per_period == key,
        key < 0 ==> periods_off_keyboard(key, keys_per_period) < 0 && key_periods_in(
            key,
            keys_per_period,
        ) < keys_per_period,
        key > LAST_KEY ==> periods_off_keyboard(key, keys_per_period) > 0 && key_periods_in(
            key,
            keys_per_period,
        ) > LAST_KEY - keys_per_period,
{
    let k = keys_per_period;
    if key < 0 {
        lemma_negated_ceil_div(-key, k);
        let q = (-key + k - 1) / k;
        assert((-q) * k == -(q * k)) by (nonlinear_arith);
    } else {
        lemma_negated_ceil_div(key - LAST_KEY, k);
        assert(-(key - LAST_KEY) == LAST_KEY - key);
        let q = (key - LAST_KEY + k - 1) / k;
        assert((-(-q)) * k == q * k);
    }
}

/// Two keys one period apart beyond the same end of the keyboard land on the same key, and the
/// higher one is shifted by one period more.
pub proof fn lemma_one_period_further_out(key: int, keys_per_period: int)
    requires
        keys_per_period >= 1,
        key + keys_per_period < 0 || key > LAST_KEY,
    ensures
        periods_off_keyboard(key + keys_per_period, keys_per_period) == periods_off_keyboard(
            key,
            keys_per_period,
        ) + 1,
        key_periods_in(key + keys_per_period, keys_per_period) == key_periods_in(
            key,
            keys_per_period,
        ),
{
    let k = keys_per_period;
    if key < 0 {
        vstd::arithmetic::div_mod::lemma_div_plus_one(key, k);
        assert(key + k == k + key);
        lemma_negated_ceil_div(-key, k);
        lemma_negated_ceil_div(-(key + k), k);
        assert(periods_off_keyboard(key + k, k) == 1 + periods_off_keyboard(key, k));
        assert((1 + key / k) * k == k + (key / k) * k) by (nonlinear_arith);
    } else {
        vstd::arithmetic::div_mod::lemma_div_minus_one(LAST_KEY - key, k);
        assert(-k + (LAST_KEY - key) == LAST_KEY - (key + k));
        lemma_negated_ceil_div(key - LAST_KEY, k);
        assert(-(key - LAST_KEY) == LAST_KEY - key);
        lemma_negated_ceil_div(key + k - LAST_KEY, k);
        assert(-(key + k - LAST_KEY) == LAST_KEY - (key + k));
        let q = (LAST_KEY - key) / k;
        assert(periods_off_keyboard(key + k, k) == periods_off_keyboard(key, k) + 1);
        assert((-q + 1) * k == -(q * k) + k) by (nonlinear_arith);
        assert((-q) * k == -(q * k)) by (nonlinear_arith);
    }
}

/// All keys mapped: the count of mapped keys is the number of keys.
proof fn lemma_all_mapped_count(unmapped: Seq<bool>)
    requires
        forall|i: int| 0 <= i < unmapped.len() ==> !unmapped[i],
    ensures
        mapped_count(unmapped) == unmapped.len(),
    decreases unmapped.len(),
{
    if unmapped.len() > 0 {
        lemma_all_mapped_count(unmapped.drop_last());
    }
}

/// A fresh keyboard map is plain 12-TET: it maps every one of the 128 keys, and each key reads
/// as mapped.
pub proof fn lemma_fresh_map_maps_every_key(map: KeyboardMap)
    requires
        map.unmapped() == Seq::new(KEY_COUNT as nat, |i: int| false),
    ensures
        mapped_count(map.unmapped()) == KEY_COUNT,
        forall|key: u8| !#[trigger] map.unmapped()[lookup_key(key)],
{
    lemma_all_mapped_count(map.unmapped());
}

/// Leaving one key unmapped lowers the count of mapped keys by one if the key was mapped, and
/// leaves it unchanged if it was already unmapped.
pub proof fn lemma_filtering_a_key(unmapped: Seq<bool>, key: int)
    requires
        0 <= key < unmapped.len(),
    ensures
        mapped_count(unmapped.update(key, true)) + (if unmapped[key] {
            0nat
        } else {
            1nat
        }) == mapped_count(unmapped),
    decreases unmapped.len(),
{
    let updated = unmapped.update(key, true);
    if key == unmapped.len() - 1 {
        assert(updated.drop_last() =~= unmapped.drop_last());
    } else {
        lemma_filtering_a_key(unmapped.drop_last(), key);
        assert(updated.drop_last() =~= unmapped.drop_last().update(key, true));
    }
}

} // verus!
