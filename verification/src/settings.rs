//! Runtime settings that admins can change over chat.
//!
//! The config file provides the baseline; admin overrides are persisted as a
//! small JSON object (by default `store/settings.json`) and survive
//! restarts. `!unset` drops an override, falling back to the config file.
//!
//! Only put non-secret, low-risk knobs into a settings struct. Credentials
//! stay in the config file or environment and can never be changed here.
use vstd::prelude::*;

use crate::order;
use crate::text;
use crate::text::{debug_string, join, same, trim};

verus! {

// Values

/// The value of a setting.
#[derive(Debug)]
pub enum SettingValue {
    Null,
    Text(String),
    /// Any other JSON value, as compact JSON.
    Other(String),
}

/// The value of a setting.
#[verifier::ext_equal]
pub enum SettingView {
    Null,
    Text(Seq<char>),
    Other(Seq<char>),
}

impl View for SettingValue {
    type V = SettingView;

    open spec fn view(&self) -> SettingView {
        match self {
            SettingValue::Null => SettingView::Null,
            SettingValue::Text(s) => SettingView::Text(s@),
            SettingValue::Other(s) => SettingView::Other(s@),
        }
    }
}

impl Clone for SettingValue {
    fn clone(&self) -> (res: Self)
        ensures
            res@ == self@,
    {
        match self {
            SettingValue::Null => SettingValue::Null,
            SettingValue::Text(s) => SettingValue::Text(s.clone()),
            SettingValue::Other(s) => SettingValue::Other(s.clone()),
        }
    }
}

/// The view of an optional value.
pub open spec fn value_view(value: Option<SettingValue>) -> Option<SettingView> {
    match value {
        Some(value) => Some(value@),
        None => None,
    }
}

/// The name of what `serde_json::from_str` makes of a text: the JSON value,
/// or none where the text is no JSON.
pub uninterp spec fn json_value(text: Seq<char>) -> Option<SettingView>;

/// `serde_json::from_str` for `serde_json::Value`: the JSON value depends on
/// the text alone. What counts as JSON, and how a value other than `null` and
/// strings is written, is left unsaid.
#[verifier::external_body]
fn parse_json(text: &str) -> (res: Option<SettingValue>)
    ensures
        value_view(res) == json_value(text@),
{
    match serde_json::from_str::<serde_json::Value>(text) {
        Ok(serde_json::Value::Null) => Some(SettingValue::Null),
        Ok(serde_json::Value::String(s)) => Some(SettingValue::Text(s)),
        Ok(other) => Some(SettingValue::Other(other.to_string())),
        Err(_) => None,
    }
}

/// The value that user input stands for, where `parsed` is its JSON value.
pub open spec fn input_or_text(raw: Seq<char>, parsed: Option<SettingView>) -> SettingView {
    match parsed {
        Some(value) => value,
        None => SettingView::Text(text::trimmed(raw)),
    }
}

/// The value that user input stands for.
pub open spec fn input_value(raw: Seq<char>) -> SettingView {
    input_or_text(raw, json_value(text::trimmed(raw)))
}

/// The value that user input stands for, where `parsed` is its JSON value:
/// what is no JSON is taken as a string.
pub fn value_or_text(raw: &str, parsed: Option<SettingValue>) -> (res: SettingValue)
    ensures
        res@ == input_or_text(raw@, value_view(parsed)),
{
    match parsed {
        Some(value) => value,
        None => SettingValue::Text(trim(raw)),
    }
}

/// The value that user input stands for: input that parses as JSON is used as
/// such, anything else is taken as a string.
pub fn parse_input(raw: &str) -> (res: SettingValue)
    ensures
        res@ == input_value(raw@),
{
    let parsed = parse_json(trim(raw).as_str());
    value_or_text(raw, parsed)
}

/// How a value is shown.
pub open spec fn rendered(value: SettingView) -> Seq<char> {
    match value {
        SettingView::Null => "(unset)"@,
        SettingView::Text(s) => s,
        SettingView::Other(s) => s,
    }
}

/// How a value is shown.
pub fn render(value: &SettingValue) -> (res: String)
    ensures
        res@ == rendered(value@),
{
    match value {
        SettingValue::Text(s) => s.clone(),
        SettingValue::Null => "(unset)".to_owned(),
        SettingValue::Other(s) => s.clone(),
    }
}

// Maps

/// Values by key.
#[derive(Debug)]
pub struct SettingsMap {
    entries: Vec<(String, SettingValue)>,
}

/// The keys of a list of entries.
pub open spec fn keys_of(entries: Seq<(String, SettingValue)>) -> Seq<Seq<char>> {
    Seq::new(entries.len(), |i: int| entries[i].0@)
}

/// The map that results from inserting the entries one after the other.
pub open spec fn map_of(entries: Seq<(String, SettingValue)>) -> Map<Seq<char>, SettingView>
    decreases entries.len(),
{
    if entries.len() == 0 {
        Map::empty()
    } else {
        map_of(entries.drop_last()).insert(entries.last().0@, entries.last().1@)
    }
}

/// What the map of a list of entries holds.
proof fn lemma_map_of(entries: Seq<(String, SettingValue)>)
    ensures
        forall|key: Seq<char>| #[trigger]
            map_of(entries).contains_key(key) <==> keys_of(entries).contains(key),
        keys_of(entries).no_duplicates() ==> forall|i: int|
            0 <= i < entries.len() ==> map_of(entries)[#[trigger] keys_of(entries)[i]]
                == entries[i].1@,
    decreases entries.len(),
{
    if entries.len() > 0 {
        let shorter = entries.drop_last();
        let keys = keys_of(entries);
        let before = keys_of(shorter);
        lemma_map_of(shorter);
        assert(before =~= keys.drop_last());
        assert(keys.last() == entries.last().0@);
        assert forall|key: Seq<char>| #[trigger]
            map_of(entries).contains_key(key) <==> keys.contains(key) by {
            assert(map_of(shorter).contains_key(key) <==> before.contains(key));
            if before.contains(key) {
                let k = choose|k: int| 0 <= k < before.len() && before[k] == key;
                assert(keys[k] == key);
            }
            assert(keys[keys.len() - 1] == keys.last());
            if keys.contains(key) && key != keys.last() {
                let k = choose|k: int| 0 <= k < keys.len() && keys[k] == key;
                assert(before[k] == key);
            }
        }
        if keys.no_duplicates() {
            assert(before.no_duplicates());
            assert forall|i: int| 0 <= i < entries.len() implies map_of(
                entries,
            )[#[trigger] keys[i]] == entries[i].1@ by {
                if i < shorter.len() {
                    assert(keys[i] == before[i]);
                    assert(keys[i] != keys[keys.len() - 1]);
                }
            }
        }
    }
}

impl View for SettingsMap {
    type V = Map<Seq<char>, SettingView>;

    closed spec fn view(&self) -> Map<Seq<char>, SettingView> {
        map_of(self.entries@)
    }
}

impl SettingsMap {
    #[verifier::type_invariant]
    spec fn distinct(self) -> bool {
        keys_of(self.entries@).no_duplicates()
    }

    /// The empty map.
    pub fn new() -> (res: Self)
        ensures
            res@ == Map::<Seq<char>, SettingView>::empty(),
    {
        SettingsMap { entries: Vec::new() }
    }

    /// The position of a key; the length when the key is not there.
    fn position(&self, key: &str) -> (n: usize)
        ensures
            n <= self.entries@.len(),
            n < self.entries@.len() ==> keys_of(self.entries@)[n as int] == key@,
            n < self.entries@.len() <==> self@.contains_key(key@),
    {
        proof {
            lemma_map_of(self.entries@);
        }
        let mut n: usize = 0;
        while n < self.entries.len()
            invariant
                n <= self.entries@.len(),
                forall|i: int| 0 <= i < n ==> keys_of(self.entries@)[i] != key@,
                self@.contains_key(key@) <==> keys_of(self.entries@).contains(key@),
            decreases self.entries@.len() - n,
        {
            if same(self.entries[n].0.as_str(), key) {
                assert(keys_of(self.entries@)[n as int] == key@);
                return n;
            }
            n += 1;
        }
        n
    }

    /// Whether the map has the key.
    pub fn contains_key(&self, key: &str) -> (res: bool)
        ensures
            res == self@.contains_key(key@),
    {
        self.position(key) < self.entries.len()
    }

    /// The value of a key.
    pub fn get(&self, key: &str) -> (res: Option<SettingValue>)
        ensures
            value_view(res) == (if self@.contains_key(key@) {
                Some(self@[key@])
            } else {
                None
            }),
    {
        proof {
            use_type_invariant(self);
            lemma_map_of(self.entries@);
        }
        let n = self.position(key);
        if n < self.entries.len() {
            assert(keys_of(self.entries@)[n as int] == key@);
            Some(self.entries[n].1.clone())
        } else {
            None
        }
    }

    /// Sets the value of a key.
    pub fn insert(&mut self, key: String, value: SettingValue)
        ensures
            final(self)@ == old(self)@.insert(key@, value@),
    {
        self.remove(key.as_str());
        proof {
            use_type_invariant(&*self);
            lemma_map_of(self.entries@);
        }
        let ghost before = self.entries@;
        assert(!keys_of(before).contains(key@)) by {
            assert(!self@.contains_key(key@));
        }
        let mut entries: Vec<(String, SettingValue)> = Vec::new();
        std::mem::swap(&mut entries, &mut self.entries);
        entries.push((key, value));
        proof {
            assert(entries@.drop_last() =~= before);
            assert(keys_of(entries@) =~= keys_of(before).push(key@));
            assert(keys_of(entries@).no_duplicates());
        }
        self.entries = entries;
        assert(self@ =~= old(self)@.insert(key@, value@));
    }

    /// Removes a key.
    pub fn remove(&mut self, key: &str)
        ensures
            final(self)@ == old(self)@.remove(key@),
    {
        proof {
            use_type_invariant(&*self);
            lemma_map_of(self.entries@);
        }
        let n = self.position(key);
        if n == self.entries.len() {
            assert(self@ =~= self@.remove(key@));
            return;
        }
        let ghost before = self.entries@;
        let mut entries: Vec<(String, SettingValue)> = Vec::new();
        std::mem::swap(&mut entries, &mut self.entries);
        let _removed = entries.remove(n);
        proof {
            let old_keys = keys_of(before);
            let keys = keys_of(entries@);
            let at = n as int;
            assert(keys =~= old_keys.remove(at));
            assert(keys.no_duplicates());
            lemma_map_of(entries@);
            assert forall|k: Seq<char>| #[trigger]
                map_of(entries@).contains_key(k) == map_of(before).remove(key@).contains_key(k) by {
                if keys.contains(k) {
                    let i = choose|i: int| 0 <= i < keys.len() && keys[i] == k;
                    let j = if i < at {
                        i
                    } else {
                        i + 1
                    };
                    assert(old_keys[j] == k);
                    assert(old_keys[at] == key@);
                }
                if old_keys.contains(k) && k != key@ {
                    let i = choose|i: int| 0 <= i < old_keys.len() && old_keys[i] == k;
                    let j = if i < at {
                        i
                    } else {
                        i - 1
                    };
                    assert(keys[j] == k);
                }
            }
            assert forall|k: Seq<char>| #[trigger] map_of(entries@).contains_key(k) implies map_of(
                entries@,
            )[k] == map_of(before).remove(key@)[k] by {
                let i = choose|i: int| 0 <= i < keys.len() && keys[i] == k;
                let j = if i < at {
                    i
                } else {
                    i + 1
                };
                assert(map_of(entries@)[keys[i]] == entries@[i].1@);
                assert(map_of(before)[old_keys[j]] == before[j].1@);
                assert(map_of(before).remove(key@).contains_key(k));
            }
            assert(map_of(entries@) =~= map_of(before).remove(key@));
        }
        self.entries = entries;
    }

    /// The keys, in ascending order.
    pub fn keys(&self) -> (res: Vec<String>)
        ensures
            text::views(res@) == order::sorted_set(self@.dom()),
            forall|i: int| 0 <= i < res@.len() ==> self@.contains_key(#[trigger] res@[i]@),
    {
        proof {
            use_type_invariant(self);
            lemma_map_of(self.entries@);
        }
        let mut list: Vec<String> = Vec::new();
        let mut i: usize = 0;
        while i < self.entries.len()
            invariant
                i <= self.entries@.len(),
                text::views(list@) == keys_of(self.entries@).take(i as int),
            decreases self.entries@.len() - i,
        {
            let ghost before = text::views(list@);
            list.push(self.entries[i].0.clone());
            assert(text::views(list@) =~= before.push(self.entries@[i as int].0@));
            assert(keys_of(self.entries@).take(i + 1) =~= before.push(
                self.entries@[i as int].0@,
            ));
            i += 1;
        }
        let ghost keys = keys_of(self.entries@);
        proof {
            assert(text::views(list@) =~= keys);
            assert forall|k: Seq<char>| keys.to_set().contains(k) == self@.dom().contains(k) by {
                assert(self@.contains_key(k) <==> keys.contains(k));
            }
            assert(keys.to_set() =~= self@.dom());
            order::lemma_sorted_set(keys);
        }
        let res = order::sort(list);
        proof {
            order::lemma_total();
            keys.lemma_sort_by_ensures(order::text_order());
            assert forall|i: int| 0 <= i < res@.len() implies self@.contains_key(
                #[trigger] res@[i]@,
            ) by {
                assert(text::views(res@)[i] == res@[i]@);
                assert(order::sorted(keys).contains(res@[i]@));
            }
        }
        res
    }
}

impl Clone for SettingsMap {
    fn clone(&self) -> (res: Self)
        ensures
            res@ == self@,
    {
        merge(&SettingsMap::new(), self)
    }
}

/// `defaults`, with the values of `overrides` in place of theirs.
pub fn merge(defaults: &SettingsMap, overrides: &SettingsMap) -> (res: SettingsMap)
    ensures
        res@ == defaults@.union_prefer_right(overrides@),
{
    let mut merged = copy_of(defaults);
    overlay(&mut merged, overrides);
    merged
}

/// The same map once more.
fn copy_of(map: &SettingsMap) -> (res: SettingsMap)
    ensures
        res@ == map@,
{
    let mut res = SettingsMap::new();
    overlay(&mut res, map);
    assert(res@ =~= map@);
    res
}

/// Takes over every value of `map`.
fn overlay(target: &mut SettingsMap, map: &SettingsMap)
    ensures
        final(target)@ == old(target)@.union_prefer_right(map@),
{
    let ghost entries = map.entries@;
    let mut i: usize = 0;
    assert(entries.take(0) =~= Seq::<(String, SettingValue)>::empty());
    assert(target@ =~= target@.union_prefer_right(map_of(entries.take(0))));
    while i < map.entries.len()
        invariant
            i <= map.entries@.len(),
            entries == map.entries@,
            target@ == old(target)@.union_prefer_right(map_of(entries.take(i as int))),
        decreases map.entries@.len() - i,
    {
        target.insert(map.entries[i].0.clone(), map.entries[i].1.clone());
        proof {
            assert(entries.take(i + 1).drop_last() =~= entries.take(i as int));
            assert(target@ =~= old(target)@.union_prefer_right(map_of(entries.take(i + 1))));
        }
        i += 1;
    }
    assert(entries.take(i as int) =~= entries);
}

// The store

/// The settings, as far as admins and the config file determine them.
#[derive(Debug)]
pub struct SettingsStore {
    defaults: SettingsMap,
    overrides: SettingsMap,
    version: u64,
}

/// The settings.
#[verifier::ext_equal]
pub struct SettingsView {
    pub defaults: Map<Seq<char>, SettingView>,
    pub overrides: Map<Seq<char>, SettingView>,
    /// How often a setting was changed.
    pub version: nat,
}

impl View for SettingsStore {
    type V = SettingsView;

    closed spec fn view(&self) -> SettingsView {
        SettingsView {
            defaults: self.defaults@,
            overrides: self.overrides@,
            version: self.version as nat,
        }
    }
}

/// Why a setting was not changed.
#[derive(Debug)]
pub enum SettingsError {
    /// There is no setting with this key.
    Unknown(String),
    /// The value does not fit, for this reason.
    Invalid(String),
}

impl SettingsError {
    /// The error in words.
    pub fn message(&self) -> (res: String)
        ensures
            res@ == (match self {
                SettingsError::Unknown(key) => unknown_setting(key@),
                SettingsError::Invalid(error) => invalid_value(error@),
            }),
    {
        match self {
            SettingsError::Unknown(key) => {
                let mut res = "unknown setting ".to_owned();
                res.push_str(debug_string(key.as_str()).as_str());
                res
            },
            SettingsError::Invalid(error) => {
                let mut res = "invalid value: ".to_owned();
                res.push_str(error.as_str());
                res
            },
        }
    }
}

/// The complaint about an unknown key.
pub open spec fn unknown_setting(key: Seq<char>) -> Seq<char> {
    "unknown setting "@ + text::debug_text(key)
}

/// The complaint about a value that does not fit.
pub open spec fn invalid_value(error: Seq<char>) -> Seq<char> {
    "invalid value: "@ + error
}

/// A change of one setting that is yet to be validated.
#[derive(Debug)]
pub struct SettingsChange {
    key: String,
    /// The new override; none where the override is dropped.
    value: Option<SettingValue>,
    shown: String,
    made_at: u64,
}

/// A change of one setting that was found to be valid.
#[derive(Debug)]
pub struct ValidChange {
    key: String,
    value: Option<SettingValue>,
    shown: String,
    made_at: u64,
}

/// A change of one setting.
#[verifier::ext_equal]
pub struct ChangeView {
    pub key: Seq<char>,
    /// The new override; none where the override is dropped.
    pub value: Option<SettingView>,
    /// The value that the setting then has, as it is shown.
    pub shown: Seq<char>,
    /// The version of the settings for which the change was made.
    pub made_at: nat,
}

impl View for SettingsChange {
    type V = ChangeView;

    closed spec fn view(&self) -> ChangeView {
        ChangeView {
            key: self.key@,
            value: value_view(self.value),
            shown: self.shown@,
            made_at: self.made_at as nat,
        }
    }
}

impl View for ValidChange {
    type V = ChangeView;

    closed spec fn view(&self) -> ChangeView {
        ChangeView {
            key: self.key@,
            value: value_view(self.value),
            shown: self.shown@,
            made_at: self.made_at as nat,
        }
    }
}

impl SettingsChange {
    /// The version of the settings for which the change was made.
    pub fn made_at(&self) -> (res: u64)
        ensures
            res == self@.made_at,
    {
        self.made_at
    }

    /// The change, unless validating the settings that it leads to failed.
    pub fn validated(self, verdict: Result<(), String>) -> (res: Result<ValidChange, SettingsError>)
        ensures
            match verdict {
                Ok(_) => res matches Ok(change) && change@ == self@,
                Err(error) => res matches Err(SettingsError::Invalid(e)) && e@ == error@,
            },
    {
        match verdict {
            Ok(_) => {
                let SettingsChange { key, value, shown, made_at } = self;
                Ok(ValidChange { key, value, shown, made_at })
            },
            Err(error) => Err(SettingsError::Invalid(error)),
        }
    }
}

impl ValidChange {
    /// The version of the settings for which the change was made.
    pub fn made_at(&self) -> (res: u64)
        ensures
            res == self@.made_at,
    {
        self.made_at
    }
}

/// The settings in effect.
pub open spec fn effective_of(store: SettingsView) -> Map<Seq<char>, SettingView> {
    store.defaults.union_prefer_right(store.overrides)
}

/// The line that shows one setting.
pub open spec fn setting_line(key: Seq<char>, value: SettingView, changed: bool) -> Seq<char> {
    key + " = "@ + rendered(value) + if changed {
        " (changed)"@
    } else {
        ""@
    }
}

/// The lines that show the settings, by ascending key.
pub open spec fn setting_lines(store: SettingsView) -> Seq<Seq<char>> {
    let effective = effective_of(store);
    let keys = order::sorted_set(effective.dom());
    Seq::new(
        keys.len(),
        |i: int|
            setting_line(keys[i], effective[keys[i]], store.overrides.contains_key(keys[i])),
    )
}

/// The change that setting `key` from user input makes.
pub open spec fn set_change(store: SettingsView, key: Seq<char>, value: SettingView) -> ChangeView {
    ChangeView { key, value: Some(value), shown: rendered(value), made_at: store.version }
}

/// The change that dropping the override of `key` makes.
pub open spec fn unset_change(store: SettingsView, key: Seq<char>) -> ChangeView {
    ChangeView { key, value: None, shown: rendered(store.defaults[key]), made_at: store.version }
}

/// The overrides after a change: only the one of its setting is another.
pub open spec fn changed_overrides(
    overrides: Map<Seq<char>, SettingView>,
    change: ChangeView,
) -> Map<Seq<char>, SettingView> {
    match change.value {
        Some(value) => overrides.insert(change.key, value),
        None => overrides.remove(change.key),
    }
}

/// The store after a change.
pub open spec fn after_change(store: SettingsView, change: ChangeView) -> SettingsView {
    SettingsView {
        overrides: changed_overrides(store.overrides, change),
        version: store.version + 1,
        ..store
    }
}

/// Puts `value` in the place of the override of `key`, or drops the override.
fn override_with(overrides: &mut SettingsMap, key: &str, value: &Option<SettingValue>)
    ensures
        final(overrides)@ == (match value_view(*value) {
            Some(value) => old(overrides)@.insert(key@, value),
            None => old(overrides)@.remove(key@),
        }),
{
    match value {
        Some(value) => overrides.insert(key.to_owned(), value.clone()),
        None => overrides.remove(key),
    }
}

impl SettingsStore {
    /// The settings in effect: the defaults and the overrides.
    pub fn effective(&self) -> (res: SettingsMap)
        ensures
            res@ == effective_of(self@),
    {
        merge(&self.defaults, &self.overrides)
    }

    /// The overrides.
    pub fn overrides(&self) -> (res: &SettingsMap)
        ensures
            res@ == self@.overrides,
    {
        &self.overrides
    }

    /// How often a setting was changed.
    pub fn version(&self) -> (res: u64)
        ensures
            res == self@.version,
    {
        self.version
    }

    /// `key = value` lines, marking overridden keys.
    #[verifier::loop_isolation(false)]
    pub fn describe(&self) -> (res: String)
        ensures
            res@ == text::joined(order::sorted(setting_lines(self@)), "\n"@),
    {
        let effective = self.effective();
        let keys = effective.keys();
        let mut lines: Vec<String> = Vec::new();
        let mut i: usize = 0;
        while i < keys.len()
            invariant
                i <= keys@.len(),
                text::views(lines@) == setting_lines(self@).take(i as int),
            decreases keys@.len() - i,
        {
            let key = keys[i].as_str();
            let mut line = key.to_owned();
            line.push_str(" = ");
            if let Some(value) = effective.get(key) {
                line.push_str(render(&value).as_str());
            }
            if self.overrides.contains_key(key) {
                line.push_str(" (changed)");
            } else {
                line.push_str("");
            }
            let ghost before = text::views(lines@);
            lines.push(line);
            proof {
                assert(text::views(keys@)[i as int] == key@);
                assert(text::views(lines@) =~= before.push(line@));
                assert(setting_lines(self@)[i as int] == line@);
                assert(setting_lines(self@).take(i + 1) =~= before.push(line@));
            }
            i += 1;
        }
        assert(text::views(lines@) =~= setting_lines(self@));
        join(&order::sort(lines), "\n")
    }

    /// Set `key` from user input. Input that parses as JSON is used as such
    /// (numbers, booleans, lists, quoted strings), anything else is taken as
    /// a string.
    pub fn set(&self, key: &str, raw: &str) -> (res: Result<SettingsChange, SettingsError>)
        ensures
            ({
                let k = text::trimmed(key@);
                match res {
                    Ok(change) => {
                        &&& self@.defaults.contains_key(k)
                        &&& change@ == set_change(self@, k, input_value(raw@))
                    },
                    Err(error) => {
                        &&& !self@.defaults.contains_key(k)
                        &&& error matches SettingsError::Unknown(unknown)
                        &&& unknown@ == k
                    },
                }
            }),
    {
        let value = parse_input(raw);
        self.set_value(key, value)
    }

    /// Set `key` to `value`.
    pub fn set_value(&self, key: &str, value: SettingValue) -> (res: Result<
        SettingsChange,
        SettingsError,
    >)
        ensures
            ({
                let k = text::trimmed(key@);
                match res {
                    Ok(change) => {
                        &&& self@.defaults.contains_key(k)
                        &&& change@ == set_change(self@, k, value@)
                    },
                    Err(error) => {
                        &&& !self@.defaults.contains_key(k)
                        &&& error matches SettingsError::Unknown(unknown)
                        &&& unknown@ == k
                    },
                }
            }),
    {
        let key = trim(key);
        if !self.defaults.contains_key(key.as_str()) {
            return Err(SettingsError::Unknown(key));
        }
        let shown = render(&value);
        Ok(SettingsChange { key, value: Some(value), shown, made_at: self.version })
    }

    /// Remove the override for `key`; what is shown is the value it falls
    /// back to.
    pub fn unset(&self, key: &str) -> (res: Result<SettingsChange, SettingsError>)
        ensures
            ({
                let k = text::trimmed(key@);
                match res {
                    Ok(change) => {
                        &&& self@.defaults.contains_key(k)
                        &&& change@ == unset_change(self@, k)
                    },
                    Err(error) => {
                        &&& !self@.defaults.contains_key(k)
                        &&& error matches SettingsError::Unknown(unknown)
                        &&& unknown@ == k
                    },
                }
            }),
    {
        let key = trim(key);
        match self.defaults.get(key.as_str()) {
            Some(default) => Ok(
                SettingsChange {
                    key,
                    value: None,
                    shown: render(&default),
                    made_at: self.version,
                },
            ),
            None => Err(SettingsError::Unknown(key)),
        }
    }

    /// The settings that a change leads to, which are to be validated.
    pub fn proposed(&self, change: &SettingsChange) -> (res: SettingsMap)
        ensures
            res@ == effective_of(after_change(self@, change@)),
    {
        let mut overrides = self.overrides.clone();
        override_with(&mut overrides, change.key.as_str(), &change.value);
        merge(&self.defaults, &overrides)
    }

    /// The overrides that a change leads to, which are to be saved.
    pub fn proposed_overrides(&self, change: &ValidChange) -> (res: SettingsMap)
        ensures
            res@ == after_change(self@, change@).overrides,
    {
        let mut overrides = self.overrides.clone();
        override_with(&mut overrides, change.key.as_str(), &change.value);
        overrides
    }

    /// Makes a change, once the overrides that it leads to are saved: those of
    /// all other settings stay as they are. Returns the value that the setting
    /// now has, as it is shown.
    ///
    /// The settings must be the ones for which the change was made: what was
    /// validated and saved is then what they become.
    pub fn commit(&mut self, change: ValidChange) -> (res: String)
        requires
            change@.made_at == old(self)@.version,
            old(self)@.version < u64::MAX,
        ensures
            final(self)@ == after_change(old(self)@, change@),
            forall|key: Seq<char>|
                key != change@.key ==> {
                    &&& #[trigger] final(self)@.overrides.contains_key(key)
                        == old(self)@.overrides.contains_key(key)
                    &&& old(self)@.overrides.contains_key(key) ==> final(self)@.overrides[key]
                        == old(self)@.overrides[key]
                },
            res@ == change@.shown,
    {
        let ValidChange { key, value, shown, made_at: _ } = change;
        let mut overrides = SettingsMap::new();
        std::mem::swap(&mut overrides, &mut self.overrides);
        override_with(&mut overrides, key.as_str(), &value);
        self.overrides = overrides;
        self.version = self.version + 1;
        shown
    }
}

// Loading

/// Loading persisted overrides on top of the defaults. Overrides that no
/// longer validate, or whose setting is gone (e.g. after a field was
/// renamed), are dropped.
#[derive(Debug)]
pub struct SettingsLoader {
    defaults: SettingsMap,
    overrides: SettingsMap,
    stored: Vec<(String, SettingValue)>,
    next: usize,
}

/// The state of loading.
#[verifier::ext_equal]
pub struct LoaderView {
    pub defaults: Map<Seq<char>, SettingView>,
    /// The overrides that were kept.
    pub overrides: Map<Seq<char>, SettingView>,
    /// The overrides that are yet to be looked at.
    pub pending: Seq<(Seq<char>, SettingView)>,
}

/// The keys and values of a list of entries.
pub open spec fn entry_views(entries: Seq<(String, SettingValue)>) -> Seq<
    (Seq<char>, SettingView),
> {
    Seq::new(entries.len(), |i: int| (entries[i].0@, entries[i].1@))
}

impl View for SettingsLoader {
    type V = LoaderView;

    closed spec fn view(&self) -> LoaderView {
        LoaderView {
            defaults: self.defaults@,
            overrides: self.overrides@,
            pending: entry_views(self.stored@).skip(self.next as int),
        }
    }
}

/// The settings that the next override leads to.
pub open spec fn candidate_of(state: LoaderView) -> Map<Seq<char>, SettingView>
    recommends
        state.pending.len() > 0,
{
    state.defaults.union_prefer_right(
        state.overrides.insert(state.pending[0].0, state.pending[0].1),
    )
}

/// The state of loading after the next override was looked at: it is kept
/// where it is valid and its setting still exists.
pub open spec fn after_decision(state: LoaderView, valid: bool) -> LoaderView
    recommends
        state.pending.len() > 0,
{
    LoaderView {
        overrides: if valid && state.defaults.contains_key(state.pending[0].0) {
            state.overrides.insert(state.pending[0].0, state.pending[0].1)
        } else {
            state.overrides
        },
        pending: state.pending.drop_first(),
        ..state
    }
}

impl SettingsLoader {
    #[verifier::type_invariant]
    spec fn in_range(self) -> bool {
        self.next <= self.stored@.len()
    }

    /// Before the first of the `stored` overrides.
    pub fn new(defaults: SettingsMap, stored: Vec<(String, SettingValue)>) -> (res: Self)
        ensures
            res@ == (LoaderView {
                defaults: defaults@,
                overrides: Map::empty(),
                pending: entry_views(stored@),
            }),
    {
        let res = SettingsLoader { defaults, overrides: SettingsMap::new(), stored, next: 0 };
        assert(res@.pending =~= entry_views(stored@));
        res
    }

    /// The settings that the next override leads to, which are to be
    /// validated; none when every override was looked at.
    pub fn candidate(&self) -> (res: Option<SettingsMap>)
        ensures
            match res {
                Some(settings) => self@.pending.len() > 0 && settings@ == candidate_of(self@),
                None => self@.pending.len() == 0,
            },
    {
        proof {
            use_type_invariant(self);
        }
        if self.next == self.stored.len() {
            return None;
        }
        let mut overrides = self.overrides.clone();
        overrides.insert(self.stored[self.next].0.clone(), self.stored[self.next].1.clone());
        Some(merge(&self.defaults, &overrides))
    }

    /// Keeps the next override where it is valid and its setting still
    /// exists, and drops it otherwise. Returns its key, and whether it was
    /// kept.
    pub fn decide(&mut self, valid: bool) -> (res: (String, bool))
        requires
            old(self)@.pending.len() > 0,
        ensures
            final(self)@ == after_decision(old(self)@, valid),
            res.0@ == old(self)@.pending[0].0,
            res.1 == (valid && old(self)@.defaults.contains_key(old(self)@.pending[0].0)),
    {
        proof {
            use_type_invariant(&*self);
        }
        let key = self.stored[self.next].0.clone();
        let keep = valid && self.defaults.contains_key(key.as_str());
        if keep {
            let value = self.stored[self.next].1.clone();
            let mut overrides = SettingsMap::new();
            std::mem::swap(&mut overrides, &mut self.overrides);
            overrides.insert(key.clone(), value);
            self.overrides = overrides;
        }
        assert(self.next < self.stored.len());
        self.next = self.next + 1;
        assert(self@.pending =~= old(self)@.pending.drop_first());
        (key, keep)
    }

    /// The store with the overrides that were kept.
    pub fn finish(self) -> (res: SettingsStore)
        ensures
            res@ == (SettingsView {
                defaults: self@.defaults,
                overrides: self@.overrides,
                version: 0,
            }),
    {
        SettingsStore { defaults: self.defaults, overrides: self.overrides, version: 0 }
    }
}

// Laws

/// What is kept of the stored overrides, where `valid` says which settings
/// are valid.
pub open spec fn loaded(state: LoaderView, valid: spec_fn(Map<Seq<char>, SettingView>) -> bool) -> Map<
    Seq<char>,
    SettingView,
>
    decreases state.pending.len(),
{
    if state.pending.len() == 0 {
        state.overrides
    } else {
        loaded(after_decision(state, valid(candidate_of(state))), valid)
    }
}

/// Whatever was stored, the loaded settings are valid, as long as the
/// defaults are.
pub proof fn law_loaded_settings_are_valid(
    state: LoaderView,
    valid: spec_fn(Map<Seq<char>, SettingView>) -> bool,
)
    requires
        valid(state.defaults.union_prefer_right(state.overrides)),
    ensures
        valid(state.defaults.union_prefer_right(loaded(state, valid))),
    decreases state.pending.len(),
{
    if state.pending.len() > 0 {
        law_loaded_settings_are_valid(after_decision(state, valid(candidate_of(state))), valid);
    }
}

/// Whether the setting of every stored override still exists, and the
/// override validates on top of those before it.
pub open spec fn loads_cleanly(
    state: LoaderView,
    valid: spec_fn(Map<Seq<char>, SettingView>) -> bool,
) -> bool
    decreases state.pending.len(),
{
    state.pending.len() > 0 ==> {
        let kept = state.overrides.insert(state.pending[0].0, state.pending[0].1);
        &&& state.defaults.contains_key(state.pending[0].0)
        &&& valid(state.defaults.union_prefer_right(kept))
        &&& loads_cleanly(
            LoaderView { overrides: kept, pending: state.pending.drop_first(), ..state },
            valid,
        )
    }
}

/// Whatever was stored, only settings that exist are overridden: the override
/// of a setting that is gone is dropped.
pub proof fn law_loaded_overrides_have_a_default(
    state: LoaderView,
    valid: spec_fn(Map<Seq<char>, SettingView>) -> bool,
    key: Seq<char>,
)
    requires
        forall|k: Seq<char>| #[trigger]
            state.overrides.contains_key(k) ==> state.defaults.contains_key(k),
    ensures
        loaded(state, valid).contains_key(key) ==> state.defaults.contains_key(key),
        state.defaults.union_prefer_right(loaded(state, valid)).contains_key(key)
            == state.defaults.contains_key(key),
    decreases state.pending.len(),
{
    if state.pending.len() > 0 {
        law_loaded_overrides_have_a_default(
            after_decision(state, valid(candidate_of(state))),
            valid,
            key,
        );
    }
}

/// Overrides survive a restart: where they still validate one after the
/// other, loading gives back every stored override, and nothing else.
pub proof fn law_stored_overrides_are_loaded(
    state: LoaderView,
    valid: spec_fn(Map<Seq<char>, SettingView>) -> bool,
    key: Seq<char>,
)
    requires
        loads_cleanly(state, valid),
        forall|i: int, j: int|
            0 <= i < j < state.pending.len() ==> (#[trigger] state.pending[i]).0 != (
            #[trigger] state.pending[j]).0,
    ensures
        forall|i: int|
            0 <= i < state.pending.len() ==> {
                &&& loaded(state, valid).contains_key((#[trigger] state.pending[i]).0)
                &&& loaded(state, valid)[state.pending[i].0] == state.pending[i].1
            },
        (forall|i: int| 0 <= i < state.pending.len() ==> (#[trigger] state.pending[i]).0 != key)
            ==> loaded(state, valid).contains_key(key) == state.overrides.contains_key(key)
            && loaded(state, valid)[key] == state.overrides[key],
    decreases state.pending.len(),
{
    if state.pending.len() > 0 {
        let rest = state.pending.drop_first();
        let first = state.pending[0];
        let next = LoaderView {
            overrides: state.overrides.insert(first.0, first.1),
            pending: rest,
            ..state
        };
        assert forall|i: int, j: int| 0 <= i < j < rest.len() implies (#[trigger] rest[i]).0 != (
        #[trigger] rest[j]).0 by {
            assert(rest[i] == state.pending[i + 1]);
            assert(rest[j] == state.pending[j + 1]);
        }
        law_stored_overrides_are_loaded(next, valid, first.0);
        law_stored_overrides_are_loaded(next, valid, key);
        assert forall|i: int| 0 <= i < rest.len() implies (#[trigger] rest[i]).0 != first.0 by {
            assert(rest[i] == state.pending[i + 1]);
            assert(state.pending[0].0 != state.pending[i + 1].0);
        }
        assert forall|i: int| 0 <= i < state.pending.len() implies {
            &&& loaded(state, valid).contains_key((#[trigger] state.pending[i]).0)
            &&& loaded(state, valid)[state.pending[i].0] == state.pending[i].1
        } by {
            if i > 0 {
                assert(rest[i - 1] == state.pending[i]);
            }
        }
        if forall|i: int| 0 <= i < state.pending.len() ==> (#[trigger] state.pending[i]).0 != key {
            assert forall|i: int| 0 <= i < rest.len() implies (#[trigger] rest[i]).0 != key by {
                assert(rest[i] == state.pending[i + 1]);
            }
            assert(state.pending[0].0 != key);
        }
    }
}

/// After a setting was set, it has the new value, and every other setting
/// the value it had.
pub proof fn law_set_changes_one_setting(
    store: SettingsView,
    key: Seq<char>,
    value: SettingView,
    other: Seq<char>,
)
    requires
        other != key,
    ensures
        ({
            let after = effective_of(after_change(store, set_change(store, key, value)));
            &&& after.contains_key(key)
            &&& after[key] == value
            &&& after.contains_key(other) == effective_of(store).contains_key(other)
            &&& effective_of(store).contains_key(other) ==> after[other] == effective_of(
                store,
            )[other]
        }),
{
}

/// A committed change is committed to the settings it was made for, so a
/// second change made for the same settings is no longer due: neither can undo
/// the other unseen.
pub proof fn law_a_change_is_due_once(store: SettingsView, change: ChangeView, other: ChangeView)
    requires
        change.made_at == store.version,
        other.made_at == store.version,
    ensures
        other.made_at != after_change(store, change).version,
        change.made_at != after_change(store, change).version,
{
}

/// A change of one setting leaves the overrides and the values of all other
/// settings as they are.
pub proof fn law_a_change_touches_one_setting(
    store: SettingsView,
    change: ChangeView,
    other: Seq<char>,
)
    requires
        other != change.key,
    ensures
        ({
            let after = after_change(store, change);
            &&& after.defaults == store.defaults
            &&& after.overrides.contains_key(other) == store.overrides.contains_key(other)
            &&& store.overrides.contains_key(other) ==> after.overrides[other]
                == store.overrides[other]
            &&& effective_of(after).contains_key(other) == effective_of(store).contains_key(other)
            &&& effective_of(store).contains_key(other) ==> effective_of(after)[other]
                == effective_of(store)[other]
        }),
{
}

/// A store holds finitely many settings.
pub proof fn law_settings_are_finite(store: SettingsStore)
    ensures
        store@.defaults.dom().finite(),
        store@.overrides.dom().finite(),
{
    lemma_finite(store.defaults.entries@);
    lemma_finite(store.overrides.entries@);
}

proof fn lemma_finite(entries: Seq<(String, SettingValue)>)
    ensures
        map_of(entries).dom().finite(),
    decreases entries.len(),
{
    if entries.len() > 0 {
        lemma_finite(entries.drop_last());
    }
}

/// After a setting was unset, it has the value of the config file, whatever
/// it was set to before, and is no longer marked as changed.
pub proof fn law_unset_restores_the_default(store: SettingsView, key: Seq<char>)
    requires
        store.defaults.contains_key(key),
        store.defaults.dom().finite(),
        store.overrides.dom().finite(),
    ensures
        ({
            let change = unset_change(store, key);
            let after = after_change(store, change);
            &&& effective_of(after).contains_key(key)
            &&& effective_of(after)[key] == store.defaults[key]
            &&& !after.overrides.contains_key(key)
            &&& after.overrides == store.overrides.remove(key)
            &&& change.shown == rendered(store.defaults[key])
            &&& setting_lines(after).contains(setting_line(key, store.defaults[key], false))
        }),
{
    let after = after_change(store, unset_change(store, key));
    let keys = effective_of(after).dom();
    assert(keys =~= after.defaults.dom().union(after.overrides.dom()));
    order::lemma_in_sorted_set(keys, key);
    let i = choose|i: int|
        0 <= i < order::sorted_set(keys).len() && order::sorted_set(keys)[i] == key;
    assert(setting_lines(after)[i] == setting_line(key, store.defaults[key], false));
}

/// Setting a setting and unsetting it again leaves the overrides as unsetting
/// it at once does.
pub proof fn law_unset_forgets_what_was_set(
    store: SettingsView,
    key: Seq<char>,
    value: SettingView,
)
    ensures
        ({
            let set = after_change(store, set_change(store, key, value));
            after_change(set, unset_change(set, key)).overrides == store.overrides.remove(key)
        }),
{
    let set = after_change(store, set_change(store, key, value));
    assert(after_change(set, unset_change(set, key)).overrides =~= store.overrides.remove(key));
}

/// Whether a list holds each of the overrides once, and nothing else.
pub open spec fn lists(
    entries: Seq<(Seq<char>, SettingView)>,
    overrides: Map<Seq<char>, SettingView>,
) -> bool {
    &&& forall|i: int, j: int|
        0 <= i < j < entries.len() ==> (#[trigger] entries[i]).0 != (#[trigger] entries[j]).0
    &&& forall|i: int|
        0 <= i < entries.len() ==> overrides.contains_key((#[trigger] entries[i]).0)
            && overrides[entries[i].0] == entries[i].1
    &&& forall|key: Seq<char>| #[trigger]
        overrides.contains_key(key) ==> exists|i: int|
            0 <= i < entries.len() && (#[trigger] entries[i]).0 == key
}

/// Saving and loading gives back the same settings: where the saved overrides
/// still validate one after the other, the loaded overrides are those, and so
/// each setting has the value it had.
pub proof fn law_settings_survive_a_restart(
    store: SettingsView,
    saved: Seq<(Seq<char>, SettingView)>,
    valid: spec_fn(Map<Seq<char>, SettingView>) -> bool,
)
    requires
        lists(saved, store.overrides),
        loads_cleanly(
            LoaderView { defaults: store.defaults, overrides: Map::empty(), pending: saved },
            valid,
        ),
    ensures
        ({
            let state = LoaderView {
                defaults: store.defaults,
                overrides: Map::empty(),
                pending: saved,
            };
            &&& loaded(state, valid) == store.overrides
            &&& store.defaults.union_prefer_right(loaded(state, valid)) == effective_of(store)
        }),
{
    let state = LoaderView { defaults: store.defaults, overrides: Map::empty(), pending: saved };
    let after = loaded(state, valid);
    assert forall|key: Seq<char>| #[trigger] after.contains_key(key)
        == store.overrides.contains_key(key) && (after.contains_key(key) ==> after[key]
        == store.overrides[key]) by {
        law_stored_overrides_are_loaded(state, valid, key);
        if store.overrides.contains_key(key) {
            let i = choose|i: int| 0 <= i < saved.len() && (#[trigger] saved[i]).0 == key;
            assert(state.pending[i].0 == key);
        } else {
            assert forall|i: int| 0 <= i < saved.len() implies (#[trigger] saved[i]).0 != key by {
                assert(store.overrides.contains_key(saved[i].0));
            }
        }
    }
    assert(after =~= store.overrides);
}

/// User input is taken without the whitespace around it: as the JSON value
/// that it is, and as text where it is none.
pub proof fn law_input_is_json_or_text(blank: Seq<char>, raw: Seq<char>, end: Seq<char>)
    requires
        text::all_blank(blank),
        text::all_blank(end),
        raw.len() > 0 ==> !text::whitespace_char(raw[0]) && !text::whitespace_char(raw.last()),
    ensures
        json_value(raw) is Some ==> input_value(blank + raw + end) == json_value(raw)->0,
        json_value(raw) is None ==> input_value(blank + raw + end) == SettingView::Text(raw),
{
    text::law_trimming_takes_the_ends_off(blank, raw, end);
}

/// Text is shown as it is, a value that is not set as such, and every other
/// value as its JSON.
pub proof fn law_values_are_shown(s: Seq<char>)
    ensures
        rendered(SettingView::Text(s)) == s,
        rendered(SettingView::Other(s)) == s,
        rendered(SettingView::Null) == "(unset)"@,
{
}

/// Every setting in effect has its line, with its value, and marked if and
/// only if it is overridden; there are no other lines.
pub proof fn law_every_setting_is_described(store: SettingsView, key: Seq<char>)
    requires
        store.defaults.dom().finite(),
        store.overrides.dom().finite(),
    ensures
        store.overrides.contains_key(key) ==> setting_lines(store).contains(
            key + " = "@ + rendered(store.overrides[key]) + " (changed)"@,
        ),
        store.defaults.contains_key(key) && !store.overrides.contains_key(key) ==> setting_lines(
            store,
        ).contains(key + " = "@ + rendered(store.defaults[key])),
        forall|line: Seq<char>| #[trigger]
            setting_lines(store).contains(line) ==> exists|k: Seq<char>|
                (store.defaults.contains_key(k) || store.overrides.contains_key(k)) && line
                    == #[trigger] setting_line(
                    k,
                    effective_of(store)[k],
                    store.overrides.contains_key(k),
                ),
{
    let keys = effective_of(store).dom();
    let sorted = order::sorted_set(keys);
    let lines = setting_lines(store);
    assert(keys =~= store.defaults.dom().union(store.overrides.dom()));
    reveal_strlit("");
    if keys.contains(key) {
        order::lemma_in_sorted_set(keys, key);
        let i = choose|i: int| 0 <= i < sorted.len() && sorted[i] == key;
        let line = setting_line(
            key,
            effective_of(store)[key],
            store.overrides.contains_key(key),
        );
        assert(lines[i] == line);
        assert(line =~= key + " = "@ + rendered(effective_of(store)[key]) + (
        if store.overrides.contains_key(key) {
            " (changed)"@
        } else {
            Seq::<char>::empty()
        }));
        assert(!store.overrides.contains_key(key) ==> line =~= key + " = "@ + rendered(
            store.defaults[key],
        ));
    }
    assert forall|line: Seq<char>| #[trigger] lines.contains(line) implies exists|k: Seq<char>|
        (store.defaults.contains_key(k) || store.overrides.contains_key(k)) && line
            == #[trigger] setting_line(
            k,
            effective_of(store)[k],
            store.overrides.contains_key(k),
        ) by {
        let i = choose|i: int| 0 <= i < lines.len() && lines[i] == line;
        order::lemma_sorted_set_members(keys, i);
        let k = sorted[i];
        assert(line == setting_line(
            k,
            effective_of(store)[k],
            store.overrides.contains_key(k),
        ));
    }
}

/// The settings in effect are the overrides where there are some, and the
/// defaults elsewhere.
pub proof fn law_overrides_take_precedence(store: SettingsView, key: Seq<char>)
    ensures
        effective_of(store).contains_key(key) <==> store.defaults.contains_key(key)
            || store.overrides.contains_key(key),
        store.overrides.contains_key(key) ==> effective_of(store)[key] == store.overrides[key],
        store.defaults.contains_key(key) && !store.overrides.contains_key(key) ==> effective_of(
            store,
        )[key] == store.defaults[key],
{
}

/// What a change does to its setting: a new value overrides it, and dropping
/// the override gives it back its default; each change is one more version.
pub proof fn law_changes_do_what_they_say(
    store: SettingsView,
    key: Seq<char>,
    value: SettingView,
)
    ensures
        ({
            let set = after_change(store, set_change(store, key, value));
            let unset = after_change(store, unset_change(store, key));
            &&& set.overrides.contains_key(key) && set.overrides[key] == value
            &&& !unset.overrides.contains_key(key)
            &&& set.version == store.version + 1
            &&& unset.version == store.version + 1
            &&& set_change(store, key, value).shown == rendered(value)
            &&& set_change(store, key, value).made_at == store.version
            &&& unset_change(store, key).made_at == store.version
        }),
{
}

/// A stored override is kept if and only if it is valid and its setting still
/// exists; all others stay as they are. It is judged by the settings with it
/// in effect, on top of the overrides kept so far.
pub proof fn law_which_stored_overrides_are_kept(
    state: LoaderView,
    valid: bool,
    other: Seq<char>,
)
    requires
        state.pending.len() > 0,
        other != state.pending[0].0,
    ensures
        ({
            let (key, value) = state.pending[0];
            let after = after_decision(state, valid);
            &&& valid && state.defaults.contains_key(key) ==> after.overrides.contains_key(key)
                && after.overrides[key] == value
            &&& !valid || !state.defaults.contains_key(key) ==> after.overrides == state.overrides
            &&& after.overrides.contains_key(other) <==> state.overrides.contains_key(other)
            &&& state.overrides.contains_key(other) ==> after.overrides[other]
                == state.overrides[other]
            &&& after.defaults == state.defaults
            &&& after.pending == state.pending.skip(1)
            &&& candidate_of(state)[key] == value
            &&& candidate_of(state).contains_key(other) <==> state.overrides.contains_key(other)
                || state.defaults.contains_key(other)
            &&& state.overrides.contains_key(other) ==> candidate_of(state)[other]
                == state.overrides[other]
            &&& state.defaults.contains_key(other) && !state.overrides.contains_key(other)
                ==> candidate_of(state)[other] == state.defaults[other]
        }),
{
}

/// Settings are read as what they are, in the order in which they are stored.
pub proof fn law_entries_are_seen_as_they_are(
    entries: Seq<(String, SettingValue)>,
    i: int,
    value: SettingValue,
    s: String,
)
    ensures
        entry_views(entries).len() == entries.len(),
        0 <= i < entries.len() ==> entry_views(entries)[i] == (entries[i].0@, entries[i].1@),
        value_view(Some(value)) == Some(value@),
        value_view(None) is None,
        SettingValue::Null@ is Null,
        SettingValue::Text(s)@ == SettingView::Text(s@),
        SettingValue::Other(s)@ == SettingView::Other(s@),
{
}

/// Complaints about settings name the setting, or what is wrong with its
/// value.
pub proof fn law_setting_errors_name_their_subject(key: Seq<char>, error: Seq<char>)
    ensures
        text::is_suffix(unknown_setting(key), text::debug_text(key)),
        text::is_suffix(invalid_value(error), error),
{
    text::law_suffixes("unknown setting "@, text::debug_text(key));
    text::law_suffixes("invalid value: "@, error);
}

/// Input that was found to be JSON is taken as that value, whatever it is, and
/// any other input as its text, without the whitespace around it.
pub proof fn law_parsed_input_is_taken_as_it_is(
    blank: Seq<char>,
    raw: Seq<char>,
    end: Seq<char>,
    value: SettingView,
)
    requires
        text::all_blank(blank),
        text::all_blank(end),
        raw.len() > 0 ==> !text::whitespace_char(raw[0]) && !text::whitespace_char(raw.last()),
    ensures
        input_or_text(raw, Some(value)) == value,
        input_or_text(blank + raw + end, None) == SettingView::Text(raw),
{
    text::law_trimming_takes_the_ends_off(blank, raw, end);
}

/// Every setting in effect is described in one line.
pub proof fn law_settings_are_described_once(store: SettingsView)
    requires
        store.defaults.dom().finite(),
        store.overrides.dom().finite(),
    ensures
        setting_lines(store).len() == effective_of(store).dom().len(),
{
    assert(effective_of(store).dom() =~= store.defaults.dom().union(store.overrides.dom()));
    order::lemma_sorted_set_len(effective_of(store).dom());
}

} // verus!
