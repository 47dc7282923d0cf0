//! Application settings: string keys and values, with built-in defaults
//! that stored settings override.
use vstd::prelude::*;
use crate::text::{chars_eq, i32_of, parse_i32, parse_u64, str_chars, u64_of};
use crate::todo::opt_string;

verus! {

/// One setting.
#[derive(Clone, Debug)]
pub struct ConfigEntry {
    pub key: String,
    pub value: String,
}

/// A set of settings. Entries are kept in the order they were set; when a key
/// appears more than once, the later entry is the one that counts.
#[derive(Clone, Debug)]
pub struct ConfigStore {
    entries: Vec<ConfigEntry>,
}

/// The settings the entries `es` amount to, later entries overriding earlier ones.
pub open spec fn map_of(es: Seq<ConfigEntry>) -> Map<Seq<char>, Seq<char>>
    decreases es.len(),
{
    if es.len() == 0 {
        Map::empty()
    } else {
        map_of(es.drop_last()).insert(es.last().key@, es.last().value@)
    }
}

/// The settings `pairs` amount to, later pairs overriding earlier ones.
pub open spec fn map_of_pairs(pairs: Seq<(Seq<char>, Seq<char>)>) -> Map<Seq<char>, Seq<char>>
    decreases pairs.len(),
{
    if pairs.len() == 0 {
        Map::empty()
    } else {
        map_of_pairs(pairs.drop_last()).insert(pairs.last().0, pairs.last().1)
    }
}

impl View for ConfigStore {
    type V = Map<Seq<char>, Seq<char>>;

    closed spec fn view(&self) -> Map<Seq<char>, Seq<char>> {
        map_of(self.entries@)
    }
}

/// The built-in settings, in the order they are set.
pub open spec fn default_pairs() -> Seq<(Seq<char>, Seq<char>)> {
    seq![
        ("minimax_api_key"@, ""@),
        ("minimax_group_id"@, ""@),
        ("openai_api_key"@, ""@),
        ("openai_base_url"@, "https://api.openai.com/v1"@),
        ("openai_model"@, "gpt-4o-mini"@),
        ("volcengine_api_key"@, ""@),
        ("volcengine_base_url"@, "https://ark.cn-beijing.volces.com/api/coding/v3"@),
        ("volcengine_model"@, "doubao-pro-4k"@),
        ("ai_provider"@, "minimax"@),
        ("data_retention_days"@, "90"@),
        ("enable_clipboard"@, "true"@),
        ("enable_mouse"@, "true"@),
        ("pause_threshold"@, "3"@),
        ("session_timeout"@, "60"@),
    ]
}

/// The built-in settings.
pub open spec fn default_config() -> Map<Seq<char>, Seq<char>> {
    map_of_pairs(default_pairs())
}

/// Stored rows `(key, value)` over `base`: a row with a value sets the key,
/// a row without one is skipped.
pub open spec fn apply_rows(
    base: Map<Seq<char>, Seq<char>>,
    rows: Seq<(Seq<char>, Option<Seq<char>>)>,
) -> Map<Seq<char>, Seq<char>>
    decreases rows.len(),
{
    if rows.len() == 0 {
        base
    } else {
        let prev = apply_rows(base, rows.drop_last());
        match rows.last().1 {
            Some(v) => prev.insert(rows.last().0, v),
            None => prev,
        }
    }
}

/// The views of stored rows.
pub open spec fn row_views(rows: Seq<(String, Option<String>)>) -> Seq<(Seq<char>, Option<Seq<char>>)> {
    Seq::new(rows.len(), |i: int| (rows[i].0@, opt_string(rows[i].1)))
}

/// What the settings cache holds: its settings, or the built-in ones when it
/// was never filled.
pub open spec fn cache_view(cache: Option<ConfigStore>) -> Map<Seq<char>, Seq<char>> {
    match cache {
        Some(c) => c@,
        None => default_config(),
    }
}

proof fn lemma_map_of_push(es: Seq<ConfigEntry>, e: ConfigEntry)
    ensures
        map_of(es.push(e)) == map_of(es).insert(e.key@, e.value@),
{
    assert(es.push(e).drop_last() =~= es);
}

/// Entries after the last one with key `k` have other keys.
pub open spec fn last_with_key(es: Seq<ConfigEntry>, k: Seq<char>, i: int) -> bool {
    0 <= i < es.len() && es[i].key@ == k && forall|j: int| i < j < es.len() ==> es[j].key@ != k
}

proof fn lemma_map_of_lookup(es: Seq<ConfigEntry>, k: Seq<char>, i: int)
    requires
        last_with_key(es, k, i),
    ensures
        map_of(es).contains_key(k),
        map_of(es)[k] == es[i].value@,
    decreases es.len(),
{
    if i < es.len() - 1 {
        lemma_map_of_lookup(es.drop_last(), k, i);
    }
}

proof fn lemma_map_of_absent(es: Seq<ConfigEntry>, k: Seq<char>)
    requires
        forall|j: int| 0 <= j < es.len() ==> es[j].key@ != k,
    ensures
        !map_of(es).contains_key(k),
    decreases es.len(),
{
    if es.len() > 0 {
        lemma_map_of_absent(es.drop_last(), k);
    }
}

proof fn lemma_map_of_update(es: Seq<ConfigEntry>, i: int, e: ConfigEntry)
    requires
        last_with_key(es, e.key@, i),
    ensures
        map_of(es.update(i, e)) == map_of(es).insert(e.key@, e.value@),
    decreases es.len(),
{
    let u = es.update(i, e);
    if i == es.len() - 1 {
        assert(u.drop_last() =~= es.drop_last());
        assert(map_of(u) =~= map_of(es).insert(e.key@, e.value@));
    } else {
        lemma_map_of_update(es.drop_last(), i, e);
        assert(u.drop_last() =~= es.drop_last().update(i, e));
        assert(es.last().key@ != e.key@);
        assert(map_of(u) =~= map_of(es).insert(e.key@, e.value@));
    }
}

impl ConfigStore {
    /// A store with no settings.
    pub fn new() -> (r: ConfigStore)
        ensures
            r@ == Map::<Seq<char>, Seq<char>>::empty(),
    {
        ConfigStore { entries: Vec::new() }
    }

    /// Index of the last entry with key `key`, if any.
    fn find(&self, key: &Vec<char>) -> (r: Option<usize>)
        ensures
            r matches Some(i) ==> last_with_key(self.entries@, key@, i as int),
            r is None ==> forall|j: int| 0 <= j < self.entries@.len() ==> self.entries@[j].key@ != key@,
    {
        let mut i = self.entries.len();
        while i > 0
            invariant
                i <= self.entries.len(),
                forall|j: int| i <= j < self.entries@.len() ==> self.entries@[j].key@ != key@,
            decreases i,
        {
            let k = str_chars(self.entries[i - 1].key.as_str());
            if chars_eq(&k, key) {
                return Some(i - 1);
            }
            i -= 1;
        }
        None
    }

    /// The value of setting `key`, if it is set.
    pub fn get(&self, key: &str) -> (r: Option<String>)
        ensures
            opt_string(r) == if self@.contains_key(key@) {
                Some(self@[key@])
            } else {
                None
            },
    {
        let k = str_chars(key);
        match self.find(&k) {
            Some(i) => {
                proof {
                    lemma_map_of_lookup(self.entries@, key@, i as int);
                }
                Some(self.entries[i].value.clone())
            },
            None => {
                proof {
                    lemma_map_of_absent(self.entries@, key@);
                }
                None
            },
        }
    }

    /// Sets `key` to `value`.
    pub fn insert(&mut self, key: &str, value: &str)
        ensures
            final(self)@ == old(self)@.insert(key@, value@),
    {
        let k = str_chars(key);
        let e = ConfigEntry { key: key.to_owned(), value: value.to_owned() };
        match self.find(&k) {
            Some(i) => {
                proof {
                    lemma_map_of_update(self.entries@, i as int, e);
                }
                self.entries.set(i, e);
            },
            None => {
                proof {
                    lemma_map_of_push(self.entries@, e);
                }
                self.entries.push(e);
            },
        }
    }

    /// The settings as `(key, value)` pairs, each key once.
    pub fn entries(&self) -> (r: Vec<(String, String)>)
        ensures
            forall|i: int| 0 <= i < r@.len() ==> self@.contains_key(#[trigger] r@[i].0@) && self@[r@[i].0@]
                == r@[i].1@,
            forall|k: Seq<char>| #[trigger] self@.contains_key(k) ==> exists|i: int|
                0 <= i < r@.len() && r@[i].0@ == k,
    {
        let mut out: Vec<(String, String)> = Vec::new();
        let mut i: usize = 0;
        while i < self.entries.len()
            invariant
                i <= self.entries.len(),
                forall|j: int| 0 <= j < out@.len() ==> self@.contains_key(#[trigger] out@[j].0@)
                    && self@[out@[j].0@] == out@[j].1@,
                forall|j: int|
                    0 <= j < i && last_with_key(self.entries@, self.entries@[j].key@, j) ==> exists|m: int|
                        0 <= m < out@.len() && out@[m].0@ == (#[trigger] self.entries@[j]).key@,
            decreases self.entries.len() - i,
        {
            let kc = str_chars(self.entries[i].key.as_str());
            match self.find(&kc) {
                Some(f) => {
                    if f == i {
                        proof {
                            lemma_map_of_lookup(self.entries@, kc@, i as int);
                        }
                        let ghost before = out@;
                        out.push((self.entries[i].key.clone(), self.entries[i].value.clone()));
                        assert(out@[out@.len() - 1].0@ == self.entries@[i as int].key@);
                        assert forall|j: int|
                            0 <= j < i + 1 && last_with_key(self.entries@, self.entries@[j].key@, j) implies exists|m: int|
                            0 <= m < out@.len() && out@[m].0@ == (#[trigger] self.entries@[j]).key@ by {
                            if j < i {
                                let m = choose|m: int| 0 <= m < before.len() && before[m].0@ == self.entries@[j].key@;
                                assert(out@[m] == before[m]);
                            } else {
                                assert(out@[out@.len() - 1].0@ == self.entries@[j].key@);
                            }
                        }
                    }
                },
                None => {},
            }
            i += 1;
        }
        assert forall|k: Seq<char>| #[trigger] self@.contains_key(k) implies exists|m: int|
            0 <= m < out@.len() && out@[m].0@ == k by {
            lemma_map_of_has_last(self.entries@, k);
            let j = choose|j: int| last_with_key(self.entries@, k, j);
            assert(self.entries@[j].key@ == k);
        }
        out
    }
}

proof fn lemma_map_of_has_last(es: Seq<ConfigEntry>, k: Seq<char>)
    requires
        map_of(es).contains_key(k),
    ensures
        exists|i: int| last_with_key(es, k, i),
    decreases es.len(),
{
    if es.last().key@ == k {
        assert(last_with_key(es, k, es.len() - 1));
    } else {
        lemma_map_of_has_last(es.drop_last(), k);
        let i = choose|i: int| last_with_key(es.drop_last(), k, i);
        assert(es[i] == es.drop_last()[i]);
        assert forall|j: int| i < j < es.len() implies es[j].key@ != k by {
            if j < es.len() - 1 {
                assert(es[j] == es.drop_last()[j]);
            }
        }
        assert(last_with_key(es, k, i));
    }
}

/// The built-in settings.
pub fn default_store() -> (r: ConfigStore)
    ensures
        r@ == default_config(),
{
    let pairs = [
        ("minimax_api_key", ""),
        ("minimax_group_id", ""),
        ("openai_api_key", ""),
        ("openai_base_url", "https://api.openai.com/v1"),
        ("openai_model", "gpt-4o-mini"),
        ("volcengine_api_key", ""),
        ("volcengine_base_url", "https://ark.cn-beijing.volces.com/api/coding/v3"),
        ("volcengine_model", "doubao-pro-4k"),
        ("ai_provider", "minimax"),
        ("data_retention_days", "90"),
        ("enable_clipboard", "true"),
        ("enable_mouse", "true"),
        ("pause_threshold", "3"),
        ("session_timeout", "60"),
    ];
    let ghost spec_pairs = Seq::new(pairs@.len(), |i: int| (pairs@[i].0@, pairs@[i].1@));
    assert(spec_pairs =~= default_pairs());
    let mut store = ConfigStore::new();
    let mut i: usize = 0;
    while i < pairs.len()
        invariant
            i <= pairs.len(),
            spec_pairs == Seq::new(pairs@.len(), |i: int| (pairs@[i].0@, pairs@[i].1@)),
            store@ == map_of_pairs(spec_pairs.take(i as int)),
        decreases pairs.len() - i,
    {
        assert(spec_pairs.take(i + 1).drop_last() =~= spec_pairs.take(i as int));
        store.insert(pairs[i].0, pairs[i].1);
        i += 1;
    }
    assert(spec_pairs.take(pairs@.len() as int) =~= spec_pairs);
    store
}

/// Loads the settings: the built-in ones, overridden by each stored row that
/// has a value, in order.
pub fn init_config(rows: &Vec<(String, Option<String>)>) -> (r: ConfigStore)
    ensures
        r@ == apply_rows(default_config(), row_views(rows@)),
{
    let mut store = default_store();
    let mut i: usize = 0;
    while i < rows.len()
        invariant
            i <= rows.len(),
            store@ == apply_rows(default_config(), row_views(rows@).take(i as int)),
        decreases rows.len() - i,
    {
        assert(row_views(rows@).take(i + 1).drop_last() =~= row_views(rows@).take(i as int));
        match &rows[i].1 {
            Some(v) => store.insert(rows[i].0.as_str(), v.as_str()),
            None => {},
        }
        i += 1;
    }
    assert(row_views(rows@).take(rows@.len() as int) =~= row_views(rows@));
    store
}

/// The current settings: those in the cache, or the built-in ones when the
/// cache was never filled.
pub fn get_config(cache: &Option<ConfigStore>) -> (r: ConfigStore)
    ensures
        r@ == cache_view(*cache),
{
    match cache {
        Some(c) => c.clone_store(),
        None => default_store(),
    }
}

impl ConfigStore {
    /// A copy of the store.
    pub fn clone_store(&self) -> (r: ConfigStore)
        ensures
            r@ == self@,
    {
        let mut entries: Vec<ConfigEntry> = Vec::new();
        let mut i: usize = 0;
        while i < self.entries.len()
            invariant
                i <= self.entries.len(),
                entries@.len() == i,
                forall|j: int| 0 <= j < i ==> (#[trigger] entries@[j]).key@ == self.entries@[j].key@
                    && entries@[j].value@ == self.entries@[j].value@,
            decreases self.entries.len() - i,
        {
            let e = &self.entries[i];
            entries.push(ConfigEntry { key: e.key.clone(), value: e.value.clone() });
            i += 1;
        }
        proof {
            lemma_map_of_same(entries@, self.entries@);
        }
        ConfigStore { entries }
    }
}

proof fn lemma_map_of_same(a: Seq<ConfigEntry>, b: Seq<ConfigEntry>)
    requires
        a.len() == b.len(),
        forall|j: int| 0 <= j < a.len() ==> (#[trigger] a[j]).key@ == b[j].key@ && a[j].value@ == b[j].value@,
    ensures
        map_of(a) == map_of(b),
    decreases a.len(),
{
    if a.len() > 0 {
        lemma_map_of_same(a.drop_last(), b.drop_last());
    }
}

/// The settings after `key` is set to `value` in the cache `before`; an
/// empty cache first becomes an empty store (the built-in settings are then
/// no longer seen).
pub open spec fn config_after_set(before: Option<ConfigStore>, key: Seq<char>, value: Seq<char>) -> Map<
    Seq<char>,
    Seq<char>,
> {
    match before {
        Some(c) => c@.insert(key, value),
        None => Map::<Seq<char>, Seq<char>>::empty().insert(key, value),
    }
}

/// Sets `key` to `value` in the cache.
pub fn set_config(cache: &mut Option<ConfigStore>, key: &str, value: &str)
    ensures
        (*final(cache)) is Some,
        cache_view(*final(cache)) == config_after_set(*old(cache), key@, value@),
{
    let mut store = match cache.take() {
        Some(c) => c,
        None => ConfigStore::new(),
    };
    store.insert(key, value);
    *cache = Some(store);
}

/// A text setting, or `default` when it is not set.
pub open spec fn setting_or(cfg: Map<Seq<char>, Seq<char>>, key: Seq<char>, default: Seq<char>) -> Seq<
    char,
> {
    if cfg.contains_key(key) {
        cfg[key]
    } else {
        default
    }
}

/// Reads a text setting, falling back to `default`.
pub fn text_setting(cfg: &ConfigStore, key: &str, default: &str) -> (r: String)
    ensures
        r@ == setting_or(cfg@, key@, default@),
{
    match cfg.get(key) {
        Some(v) => v,
        None => default.to_owned(),
    }
}

/// A switch that is on unless the setting is present with a value other than `true`.
pub open spec fn flag_of(cfg: Map<Seq<char>, Seq<char>>, key: Seq<char>) -> bool {
    if cfg.contains_key(key) {
        cfg[key] == "true"@
    } else {
        true
    }
}

/// Reads an on/off setting (`enable_mouse`, `enable_clipboard`).
pub fn config_flag(cfg: &ConfigStore, key: &str) -> (r: bool)
    ensures
        r == flag_of(cfg@, key@),
{
    match cfg.get(key) {
        Some(v) => chars_eq(&str_chars(v.as_str()), &str_chars("true")),
        None => true,
    }
}

/// A whole number of seconds read from a setting, or `default` when the
/// setting is missing or not a number.
pub open spec fn u64_setting(cfg: Map<Seq<char>, Seq<char>>, key: Seq<char>, default: u64) -> u64 {
    if cfg.contains_key(key) && u64_of(cfg[key]) is Some {
        u64_of(cfg[key])->0
    } else {
        default
    }
}

/// A whole number read from a setting, or `default` when the setting is
/// missing or not a number.
pub open spec fn i32_setting(cfg: Map<Seq<char>, Seq<char>>, key: Seq<char>, default: i32) -> i32 {
    if cfg.contains_key(key) && i32_of(cfg[key]) is Some {
        i32_of(cfg[key])->0
    } else {
        default
    }
}

/// Seconds without input after which a typing session ends (`session_timeout`, 60 by default).
pub fn session_timeout_secs(cfg: &ConfigStore) -> (r: u64)
    ensures
        r == u64_setting(cfg@, "session_timeout"@, 60),
{
    match cfg.get("session_timeout") {
        Some(v) => match parse_u64(v.as_str()) {
            Some(n) => n,
            None => 60,
        },
        None => 60,
    }
}

/// Seconds without a key after which the next key counts a pause
/// (`pause_threshold`, 3 by default).
pub fn pause_threshold_secs(cfg: &ConfigStore) -> (r: u64)
    ensures
        r == u64_setting(cfg@, "pause_threshold"@, 3),
{
    match cfg.get("pause_threshold") {
        Some(v) => match parse_u64(v.as_str()) {
            Some(n) => n,
            None => 3,
        },
        None => 3,
    }
}

/// Days of data to keep (`data_retention_days`, 90 by default).
pub fn retention_days(cfg: &ConfigStore) -> (r: i32)
    ensures
        r == i32_setting(cfg@, "data_retention_days"@, 90),
{
    match cfg.get("data_retention_days") {
        Some(v) => match parse_i32(v.as_str()) {
            Some(n) => n,
            None => 90,
        },
        None => 90,
    }
}

} // verus!
