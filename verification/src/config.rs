//! Application settings: JSON values under string keys, filled one by one,
//! from a JSON object or from the text of a JSON document.

use crate::text::str_eq;
use vstd::prelude::*;
use vstd::string::*;

verus! {

/// `serde_json::Value`: a JSON value, carried through without a look inside.
#[verifier::external_type_specification]
#[verifier::external_body]
pub struct ExJson(serde_json::Value);

/// `serde_json::Map`: a JSON object, known by the members it yields.
#[verifier::external_type_specification]
#[verifier::external_body]
#[verifier::reject_recursive_types(K)]
#[verifier::reject_recursive_types(V)]
pub struct ExJsonObject<K, V>(serde_json::Map<K, V>);

/// Why a text could not be taken as settings.
#[derive(Debug, PartialEq, Eq, Clone, Copy)]
pub enum ConfigError {
    /// The text is no JSON document.
    NotJson,
    /// The document's root value is no object.
    NotAnObject,
}

/// Settings as pairs of a key's view and a value.
pub open spec fn setting_views(v: Seq<(String, serde_json::Value)>) -> Seq<
    (Seq<char>, serde_json::Value),
> {
    Seq::new(v.len(), |i: int| (v[i].0@, v[i].1))
}

/// The members of a JSON object, in the order in which the object yields
/// them.
pub uninterp spec fn object_members(object: serde_json::Map<String, serde_json::Value>) -> Seq<
    (Seq<char>, serde_json::Value),
>;

/// The object that is the root of the JSON document `text`, or why there is
/// none.
pub uninterp spec fn json_root(text: Seq<char>) -> Result<
    serde_json::Map<String, serde_json::Value>,
    ConfigError,
>;

/// Calls `Clone::clone` of `serde_json::Value`. Trusted: the copy equals the
/// value it was made from.
#[verifier::external_body]
fn clone_json(value: &serde_json::Value) -> (r: serde_json::Value)
    ensures
        r == *value,
{
    value.clone()
}

/// Walks a `serde_json::Map` with `iter` and copies each member. Trusted:
/// the result holds the object's members in the order in which the object
/// yields them.
#[verifier::external_body]
fn members_of(object: &serde_json::Map<String, serde_json::Value>) -> (r: Vec<
    (String, serde_json::Value),
>)
    ensures
        setting_views(r@) == object_members(*object),
{
    object.iter().map(|(key, value)| (key.clone(), value.clone())).collect()
}

/// Calls `serde_json::from_str` for a `serde_json::Value` and takes the
/// object out of the result. Trusted: the outcome is what `json_root` names
/// for this text, with `NotJson` where the parser reports an error and
/// `NotAnObject` where the value is of another kind.
#[verifier::external_body]
fn parse_object(text: &str) -> (r: Result<serde_json::Map<String, serde_json::Value>, ConfigError>)
    ensures
        r == json_root(text@),
{
    match serde_json::from_str::<serde_json::Value>(text) {
        Ok(serde_json::Value::Object(object)) => Ok(object),
        Ok(_) => Err(ConfigError::NotAnObject),
        Err(_) => Err(ConfigError::NotJson),
    }
}

/// Index of the first of `entries` with the key `key`.
pub open spec fn setting_index(entries: Seq<(Seq<char>, serde_json::Value)>, key: Seq<char>) -> Option<
    int,
>
    decreases entries.len(),
{
    if entries.len() == 0 {
        None
    } else {
        match setting_index(entries.drop_last(), key) {
            Some(i) => Some(i),
            None => if entries.last().0 == key {
                Some(entries.len() - 1)
            } else {
                None
            },
        }
    }
}

/// The value that `entries` holds for `key`.
pub open spec fn setting(entries: Seq<(Seq<char>, serde_json::Value)>, key: Seq<char>) -> Option<
    serde_json::Value,
> {
    match setting_index(entries, key) {
        Some(i) => Some(entries[i].1),
        None => None,
    }
}

/// `entries` after `key` was set to `value`: the entry of that key takes
/// the value, else a new entry is appended.
pub open spec fn with_setting(
    entries: Seq<(Seq<char>, serde_json::Value)>,
    key: Seq<char>,
    value: serde_json::Value,
) -> Seq<(Seq<char>, serde_json::Value)> {
    match setting_index(entries, key) {
        Some(i) => entries.update(i, (key, value)),
        None => entries.push((key, value)),
    }
}

/// `entries` after each of `members` was set in turn.
pub open spec fn with_settings(
    entries: Seq<(Seq<char>, serde_json::Value)>,
    members: Seq<(Seq<char>, serde_json::Value)>,
) -> Seq<(Seq<char>, serde_json::Value)>
    decreases members.len(),
{
    if members.len() == 0 {
        entries
    } else {
        with_setting(with_settings(entries, members.drop_last()), members.last().0, members.last().1)
    }
}

/// What `setting_index` finds is the first entry of that key.
pub proof fn lemma_setting_index(entries: Seq<(Seq<char>, serde_json::Value)>, key: Seq<char>)
    ensures
        match setting_index(entries, key) {
            Some(i) => 0 <= i < entries.len() && entries[i].0 == key && forall|j: int|
                0 <= j < i ==> #[trigger] entries[j].0 != key,
            None => forall|j: int| 0 <= j < entries.len() ==> #[trigger] entries[j].0 != key,
        },
    decreases entries.len(),
{
    if entries.len() > 0 {
        lemma_setting_index(entries.drop_last(), key);
        assert(forall|j: int|
            0 <= j < entries.len() - 1 ==> entries.drop_last()[j] == #[trigger] entries[j]);
    }
}

/// After a key was set it has the new value, and every other key has the
/// value it had.
pub proof fn lemma_set_then_get_setting(
    entries: Seq<(Seq<char>, serde_json::Value)>,
    key: Seq<char>,
    value: serde_json::Value,
    probe: Seq<char>,
)
    ensures
        setting(with_setting(entries, key, value), probe) == if probe == key {
            Some(value)
        } else {
            setting(entries, probe)
        },
{
    let after = with_setting(entries, key, value);
    lemma_setting_index(entries, key);
    lemma_setting_index(entries, probe);
    lemma_setting_index(after, probe);
    let at: int = match setting_index(entries, key) {
        Some(i) => i,
        None => entries.len() as int,
    };
    assert(after[at] == (key, value));
    assert(forall|j: int| 0 <= j < entries.len() && j != at ==> after[j] == entries[j]);
    if probe == key {
        assert(after[at].0 == probe);
        assert(forall|j: int| 0 <= j < at ==> after[j].0 == entries[j].0);
    } else {
        match setting_index(entries, probe) {
            Some(k) => {
                assert(k != at);
                assert(after[k].0 == probe);
                assert(forall|j: int| 0 <= j < k && j != at ==> after[j].0 == entries[j].0);
            },
            None => {
                assert(forall|j: int|
                    0 <= j < after.len() && j != at ==> after[j].0 == entries[j].0);
            },
        }
    }
}

/// No two entries have the same key.
pub open spec fn unique_keys(entries: Seq<(Seq<char>, serde_json::Value)>) -> bool {
    forall|i: int, j: int|
        0 <= i < j < entries.len() ==> #[trigger] entries[i].0 != #[trigger] entries[j].0
}

/// Setting a key leaves no key twice.
pub proof fn lemma_with_setting_unique(
    entries: Seq<(Seq<char>, serde_json::Value)>,
    key: Seq<char>,
    value: serde_json::Value,
)
    requires
        unique_keys(entries),
    ensures
        unique_keys(with_setting(entries, key, value)),
        setting_index(entries, key) is Some ==> with_setting(entries, key, value).len()
            == entries.len(),
        setting_index(entries, key) is None ==> with_setting(entries, key, value).len()
            == entries.len() + 1,
{
    let after = with_setting(entries, key, value);
    lemma_setting_index(entries, key);
    match setting_index(entries, key) {
        Some(i) => {
            assert(forall|j: int| 0 <= j < entries.len() ==> #[trigger] after[j].0 == entries[j].0);
        },
        None => {
            assert(forall|j: int| 0 <= j < entries.len() ==> #[trigger] after[j].0 == entries[j].0);
            assert(after[entries.len() as int].0 == key);
        },
    }
}

/// The settings of an application: each key has one value.
///
/// The view is the sequence of `(key, value)` entries, in the order in
/// which the keys were first set.
#[derive(Clone, Debug)]
pub struct Config {
    config: Vec<(String, serde_json::Value)>,
}

impl View for Config {
    type V = Seq<(Seq<char>, serde_json::Value)>;

    closed spec fn view(&self) -> Seq<(Seq<char>, serde_json::Value)> {
        setting_views(self.config@)
    }
}

impl Config {
    /// No key is held twice.
    pub open spec fn wf(&self) -> bool {
        unique_keys(self@)
    }

    /// The value held for `key`.
    pub open spec fn spec_get(&self, key: Seq<char>) -> Option<serde_json::Value> {
        setting(self@, key)
    }

    /// Create a `Config` object without settings.
    pub fn new() -> (r: Config)
        ensures
            r.wf(),
            r@ == Seq::<(Seq<char>, serde_json::Value)>::empty(),
    {
        let r = Config { config: Vec::new() };
        assert(r@ =~= Seq::<(Seq<char>, serde_json::Value)>::empty());
        r
    }

    /// Number of keys that have a value.
    pub fn len(&self) -> (r: usize)
        ensures
            r == self@.len(),
    {
        self.config.len()
    }

    fn find(&self, key: &str) -> (r: Option<usize>)
        ensures
            match r {
                Some(i) => setting_index(self@, key@) == Some(i as int) && i < self.config@.len(),
                None => setting_index(self@, key@) is None,
            },
    {
        let n: usize = self.config.len();
        let mut i: usize = 0;
        while i < n
            invariant
                i <= n,
                n == self.config@.len(),
                n == self@.len(),
                forall|j: int| 0 <= j < i ==> #[trigger] self@[j].0 != key@,
            decreases n - i,
        {
            if str_eq(self.config[i].0.as_str(), key) {
                proof {
                    lemma_setting_index(self@, key@);
                    assert(self@[i as int].0 == key@);
                }
                return Some(i);
            }
            i += 1;
        }
        proof {
            lemma_setting_index(self@, key@);
        }
        None
    }

    /// Set a value for the key. A value that the key had is replaced.
    pub fn set(&mut self, key: &str, value: serde_json::Value)
        requires
            old(self).wf(),
        ensures
            final(self).wf(),
            final(self)@ == with_setting(old(self)@, key@, value),
            final(self).spec_get(key@) == Some(value),
    {
        proof {
            lemma_set_then_get_setting(self@, key@, value, key@);
            lemma_with_setting_unique(self@, key@, value);
        }
        match self.find(key) {
            Some(i) => {
                self.config.set(i, (String::from_str(key), value));
                assert(self@ =~= with_setting(old(self)@, key@, value));
            },
            None => {
                self.config.push((String::from_str(key), value));
                assert(self@ =~= with_setting(old(self)@, key@, value));
            },
        }
    }

    /// Returns a reference to the value corresponding to the key.
    pub fn get(&self, key: &str) -> (r: Option<&serde_json::Value>)
        ensures
            match r {
                Some(value) => self.spec_get(key@) == Some(*value),
                None => self.spec_get(key@) is None,
            },
    {
        match self.find(key) {
            Some(i) => Some(&self.config[i].1),
            None => None,
        }
    }

    /// Sets every pair of `members`, in their order.
    pub fn set_all(&mut self, members: &Vec<(String, serde_json::Value)>)
        requires
            old(self).wf(),
        ensures
            final(self).wf(),
            final(self)@ == with_settings(old(self)@, setting_views(members@)),
    {
        let n: usize = members.len();
        let mut i: usize = 0;
        assert(setting_views(members@).take(0) =~= Seq::<(Seq<char>, serde_json::Value)>::empty());
        while i < n
            invariant
                i <= n,
                n == members@.len(),
                self.wf(),
                self@ == with_settings(old(self)@, setting_views(members@).take(i as int)),
            decreases n - i,
        {
            proof {
                let views = setting_views(members@);
                assert(views.take(i + 1).drop_last() =~= views.take(i as int));
                assert(views.take(i + 1).last() == views[i as int]);
            }
            self.set(members[i].0.as_str(), clone_json(&members[i].1));
            i += 1;
        }
        assert(setting_views(members@).take(n as int) =~= setting_views(members@));
    }

    /// Updates the values from the given object: each member is set, in the
    /// order in which the object yields them.
    pub fn from_object(&mut self, object: serde_json::Map<String, serde_json::Value>)
        requires
            old(self).wf(),
        ensures
            final(self).wf(),
            final(self)@ == with_settings(old(self)@, object_members(object)),
    {
        let members = members_of(&object);
        self.set_all(&members);
    }

    /// Updates the values from the text of a JSON document whose root is an
    /// object. Any other text is refused, and the settings stay as they
    /// are.
    pub fn from_json(&mut self, text: &str) -> (r: Result<(), ConfigError>)
        requires
            old(self).wf(),
        ensures
            final(self).wf(),
            match json_root(text@) {
                Ok(object) => r is Ok && final(self)@ == with_settings(
                    old(self)@,
                    object_members(object),
                ),
                Err(e) => r == Err::<(), ConfigError>(e) && final(self)@ == old(self)@,
            },
    {
        match parse_object(text) {
            Ok(object) => {
                self.from_object(object);
                Ok(())
            },
            Err(e) => Err(e),
        }
    }
}

} // verus!
