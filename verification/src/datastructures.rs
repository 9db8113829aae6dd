//! The two containers of the message layer: a dictionary that keeps every
//! value given for a key, and a header collection that finds names without
//! regard to case.

use crate::text::{eq_ignore_case, folded, str_eq};
use vstd::prelude::*;
use vstd::string::*;

verus! {

/// The views of a sequence of strings.
pub open spec fn views(v: Seq<String>) -> Seq<Seq<char>> {
    Seq::new(v.len(), |i: int| v[i]@)
}

/// The views of a sequence of string pairs.
pub open spec fn pair_views(v: Seq<(String, String)>) -> Seq<(Seq<char>, Seq<char>)> {
    Seq::new(v.len(), |i: int| (v[i].0@, v[i].1@))
}

/// The values that `pairs` holds for `key`, in the order of `pairs`.
pub open spec fn values_for(pairs: Seq<(Seq<char>, Seq<char>)>, key: Seq<char>) -> Seq<
    Seq<char>,
>
    decreases pairs.len(),
{
    if pairs.len() == 0 {
        Seq::empty()
    } else {
        let rest = values_for(pairs.drop_last(), key);
        if pairs.last().0 == key {
            rest.push(pairs.last().1)
        } else {
            rest
        }
    }
}

/// An ordered dictionary in which a key may have several values.
///
/// The view is the sequence of `(key, value)` pairs in the order in which
/// they were added.
#[derive(Clone, Debug)]
pub struct MultiDict {
    pairs: Vec<(String, String)>,
}

impl View for MultiDict {
    type V = Seq<(Seq<char>, Seq<char>)>;

    closed spec fn view(&self) -> Seq<(Seq<char>, Seq<char>)> {
        pair_views(self.pairs@)
    }
}

impl MultiDict {
    /// An empty dictionary.
    pub fn new() -> (r: MultiDict)
        ensures
            r@ == Seq::<(Seq<char>, Seq<char>)>::empty(),
    {
        let r = MultiDict { pairs: Vec::new() };
        assert(r@ =~= Seq::<(Seq<char>, Seq<char>)>::empty());
        r
    }

    /// The values held for `key`, oldest first.
    pub open spec fn spec_get_all(&self, key: Seq<char>) -> Seq<Seq<char>> {
        values_for(self@, key)
    }

    /// The dictionary of the given pairs, in their order.
    pub fn from_pairs(pairs: Vec<(String, String)>) -> (r: MultiDict)
        ensures
            r@ == pair_views(pairs@),
    {
        MultiDict { pairs }
    }

    /// Number of `(key, value)` pairs held.
    pub fn len(&self) -> (r: usize)
        ensures
            r == self@.len(),
    {
        self.pairs.len()
    }

    /// Appends `value` to the values of `key`. The values of every other key
    /// stay as they are.
    pub fn add(&mut self, key: &str, value: &str)
        ensures
            final(self)@ == old(self)@.push((key@, value@)),
            final(self).spec_get_all(key@) == old(self).spec_get_all(key@).push(value@),
            forall|other: Seq<char>|
                other != key@ ==> #[trigger] final(self).spec_get_all(other) == old(
                    self,
                ).spec_get_all(other),
    {
        self.pairs.push((String::from_str(key), String::from_str(value)));
        proof {
            assert(self@ =~= old(self)@.push((key@, value@)));
            assert(self@.drop_last() =~= old(self)@);
        }
    }

    /// Every value given for `key`, in the order in which they were added;
    /// empty when the key is absent.
    pub fn get_all(&self, key: &str) -> (r: Vec<String>)
        ensures
            views(r@) == self.spec_get_all(key@),
    {
        let mut out: Vec<String> = Vec::new();
        let n: usize = self.pairs.len();
        let mut i: usize = 0;
        assert(views(out@) =~= values_for(self@.take(0), key@));
        while i < n
            invariant
                i <= n,
                n == self.pairs@.len(),
                n == self@.len(),
                views(out@) == values_for(self@.take(i as int), key@),
            decreases n - i,
        {
            proof {
                assert(self@.take(i + 1).drop_last() =~= self@.take(i as int));
                assert(self@.take(i + 1).last() == self@[i as int]);
            }
            if str_eq(self.pairs[i].0.as_str(), key) {
                let ghost before = out@;
                out.push(self.pairs[i].1.clone());
                assert(views(out@) =~= views(before).push(self@[i as int].1));
            }
            i += 1;
        }
        assert(self@.take(n as int) =~= self@);
        out
    }

    /// The first value given for `key`, or `None` when the key is absent.
    pub fn get_first(&self, key: &str) -> (r: Option<String>)
        ensures
            self.spec_get_all(key@).len() == 0 ==> r is None,
            self.spec_get_all(key@).len() > 0 ==> r is Some && r->0@ == self.spec_get_all(
                key@,
            )[0],
    {
        let n: usize = self.pairs.len();
        let mut i: usize = 0;
        while i < n
            invariant
                i <= n,
                n == self.pairs@.len(),
                n == self@.len(),
                values_for(self@.take(i as int), key@).len() == 0,
            decreases n - i,
        {
            proof {
                assert(self@.take(i + 1).drop_last() =~= self@.take(i as int));
                assert(self@.take(i + 1).last() == self@[i as int]);
            }
            if str_eq(self.pairs[i].0.as_str(), key) {
                proof {
                    lemma_values_for_prefix(self@, i + 1, key@);
                }
                return Some(self.pairs[i].1.clone());
            }
            i += 1;
        }
        assert(self@.take(n as int) =~= self@);
        None
    }
}

/// The values found in a prefix of `pairs` are a prefix of the values found
/// in `pairs`.
pub proof fn lemma_values_for_prefix(pairs: Seq<(Seq<char>, Seq<char>)>, i: int, key: Seq<char>)
    requires
        0 <= i <= pairs.len(),
    ensures
        values_for(pairs.take(i), key).len() <= values_for(pairs, key).len(),
        forall|j: int|
            0 <= j < values_for(pairs.take(i), key).len() ==> values_for(pairs.take(i), key)[j]
                == values_for(pairs, key)[j],
    decreases pairs.len() - i,
{
    if i == pairs.len() {
        assert(pairs.take(i) =~= pairs);
    } else {
        lemma_values_for_prefix(pairs.drop_last(), i, key);
        assert(pairs.drop_last().take(i) =~= pairs.take(i));
    }
}

/// Adding a pair appends its value to the values of its key and leaves the
/// values of every other key alone.
pub proof fn lemma_values_after_add(
    pairs: Seq<(Seq<char>, Seq<char>)>,
    key: Seq<char>,
    value: Seq<char>,
    probe: Seq<char>,
)
    ensures
        values_for(pairs.push((key, value)), probe) == if probe == key {
            values_for(pairs, probe).push(value)
        } else {
            values_for(pairs, probe)
        },
{
    assert(pairs.push((key, value)).drop_last() =~= pairs);
}

/// Two values added for a key that had none are found again, in the order in
/// which they were added; a dictionary without pairs has no value for any key.
pub proof fn lemma_multi_value_fidelity(
    pairs: Seq<(Seq<char>, Seq<char>)>,
    key: Seq<char>,
    first: Seq<char>,
    second: Seq<char>,
)
    requires
        values_for(pairs, key).len() == 0,
    ensures
        values_for(pairs.push((key, first)).push((key, second)), key) == seq![first, second],
        values_for(Seq::empty(), key) == Seq::<Seq<char>>::empty(),
{
    lemma_values_after_add(pairs, key, first, key);
    lemma_values_after_add(pairs.push((key, first)), key, second, key);
    assert(values_for(pairs, key).push(first).push(second) =~= seq![first, second]);
}

/// Index of the first entry of `entries` whose name is `name` up to the case
/// of ASCII letters.
pub open spec fn index_of(entries: Seq<(Seq<char>, Seq<char>)>, name: Seq<char>) -> Option<int>
    decreases entries.len(),
{
    if entries.len() == 0 {
        None
    } else {
        match index_of(entries.drop_last(), name) {
            Some(i) => Some(i),
            None => if folded(entries.last().0) == folded(name) {
                Some(entries.len() - 1)
            } else {
                None
            },
        }
    }
}

/// The value that `entries` holds for `name`.
pub open spec fn lookup(entries: Seq<(Seq<char>, Seq<char>)>, name: Seq<char>) -> Option<
    Seq<char>,
> {
    match index_of(entries, name) {
        Some(i) => Some(entries[i].1),
        None => None,
    }
}

/// `entries` after `name` was set to `value`: an entry of that name keeps
/// its place and its spelling and takes the value, else a new entry is
/// appended.
pub open spec fn with_header(
    entries: Seq<(Seq<char>, Seq<char>)>,
    name: Seq<char>,
    value: Seq<char>,
) -> Seq<(Seq<char>, Seq<char>)> {
    match index_of(entries, name) {
        Some(i) => entries.update(i, (entries[i].0, value)),
        None => entries.push((name, value)),
    }
}

/// `entries` after each pair of `pairs` was set in turn.
pub open spec fn with_headers(
    entries: Seq<(Seq<char>, Seq<char>)>,
    pairs: Seq<(Seq<char>, Seq<char>)>,
) -> Seq<(Seq<char>, Seq<char>)>
    decreases pairs.len(),
{
    if pairs.len() == 0 {
        entries
    } else {
        with_header(with_headers(entries, pairs.drop_last()), pairs.last().0, pairs.last().1)
    }
}

/// No two entries have the same name up to case.
pub open spec fn unique_names(entries: Seq<(Seq<char>, Seq<char>)>) -> bool {
    forall|i: int, j: int|
        0 <= i < j < entries.len() ==> folded(#[trigger] entries[i].0) != folded(
            #[trigger] entries[j].0,
        )
}

/// Number of entries of `entries` named `name` up to case.
pub open spec fn count_named(entries: Seq<(Seq<char>, Seq<char>)>, name: Seq<char>) -> nat
    decreases entries.len(),
{
    if entries.len() == 0 {
        0
    } else {
        count_named(entries.drop_last(), name) + if folded(entries.last().0) == folded(name) {
            1nat
        } else {
            0nat
        }
    }
}

/// What `index_of` finds is the first entry of that name.
pub proof fn lemma_index_of(entries: Seq<(Seq<char>, Seq<char>)>, name: Seq<char>)
    ensures
        match index_of(entries, name) {
            Some(i) => 0 <= i < entries.len() && folded(entries[i].0) == folded(name) && forall|
                j: int,
            |
                0 <= j < i ==> folded(#[trigger] entries[j].0) != folded(name),
            None => forall|j: int|
                0 <= j < entries.len() ==> folded(#[trigger] entries[j].0) != folded(name),
        },
    decreases entries.len(),
{
    if entries.len() > 0 {
        lemma_index_of(entries.drop_last(), name);
        assert(forall|j: int|
            0 <= j < entries.len() - 1 ==> entries.drop_last()[j] == #[trigger] entries[j]);
    }
}

/// An entry of that name at `i`, with none before it, is what `index_of`
/// finds.
pub proof fn lemma_index_of_is(entries: Seq<(Seq<char>, Seq<char>)>, name: Seq<char>, i: int)
    requires
        0 <= i < entries.len(),
        folded(entries[i].0) == folded(name),
        forall|j: int| 0 <= j < i ==> folded(#[trigger] entries[j].0) != folded(name),
    ensures
        index_of(entries, name) == Some(i),
{
    lemma_index_of(entries, name);
}

/// Where no entry has that name, `index_of` finds none.
pub proof fn lemma_index_of_none(entries: Seq<(Seq<char>, Seq<char>)>, name: Seq<char>)
    requires
        forall|j: int| 0 <= j < entries.len() ==> folded(#[trigger] entries[j].0) != folded(name),
    ensures
        index_of(entries, name) is None,
{
    lemma_index_of(entries, name);
}

/// Among entries with unique names, a name occurs once if it is found and
/// not at all otherwise.
pub proof fn lemma_count_named(entries: Seq<(Seq<char>, Seq<char>)>, name: Seq<char>)
    requires
        unique_names(entries),
    ensures
        count_named(entries, name) == if index_of(entries, name) is Some {
            1nat
        } else {
            0nat
        },
    decreases entries.len(),
{
    if entries.len() > 0 {
        let init = entries.drop_last();
        assert(forall|j: int| 0 <= j < init.len() ==> init[j] == #[trigger] entries[j]);
        assert(unique_names(init));
        lemma_count_named(init, name);
        lemma_index_of(init, name);
        lemma_index_of(entries, name);
    }
}

/// Setting a header: the name is then found with the new value, whatever
/// its case; every other name is found as before; names stay unique; and an
/// entry that was there is replaced, not joined by a second one.
pub proof fn lemma_set_then_get(
    entries: Seq<(Seq<char>, Seq<char>)>,
    name: Seq<char>,
    value: Seq<char>,
    probe: Seq<char>,
)
    requires
        unique_names(entries),
    ensures
        unique_names(with_header(entries, name, value)),
        count_named(with_header(entries, name, value), name) == 1,
        index_of(entries, name) is Some ==> with_header(entries, name, value).len()
            == entries.len(),
        index_of(entries, name) is None ==> with_header(entries, name, value).len()
            == entries.len() + 1,
        lookup(with_header(entries, name, value), probe) == if folded(probe) == folded(name) {
            Some(value)
        } else {
            lookup(entries, probe)
        },
{
    let after = with_header(entries, name, value);
    lemma_index_of(entries, name);
    lemma_index_of(entries, probe);
    match index_of(entries, name) {
        Some(i) => {
            assert(forall|j: int| 0 <= j < entries.len() ==> (#[trigger] after[j]).0 == entries[j].0);
            assert(unique_names(after));
            if folded(probe) == folded(name) {
                lemma_index_of_is(after, probe, i);
            } else {
                match index_of(entries, probe) {
                    Some(k) => {
                        lemma_index_of_is(after, probe, k);
                    },
                    None => {
                        lemma_index_of_none(after, probe);
                    },
                }
            }
            lemma_index_of_is(after, name, i);
        },
        None => {
            assert(forall|j: int| 0 <= j < entries.len() ==> #[trigger] after[j] == entries[j]);
            assert(unique_names(after));
            let n = entries.len() as int;
            if folded(probe) == folded(name) {
                lemma_index_of_is(after, probe, n);
            } else {
                match index_of(entries, probe) {
                    Some(k) => {
                        lemma_index_of_is(after, probe, k);
                    },
                    None => {
                        lemma_index_of_none(after, probe);
                    },
                }
            }
            lemma_index_of_is(after, name, n);
        },
    }
    lemma_count_named(after, name);
}

/// The headers of one message: names are found without regard to the case
/// of ASCII letters, and each name occurs once.
///
/// The view is the sequence of `(name, value)` entries, each name spelled as
/// it was when it was first set.
#[derive(Clone, Debug)]
pub struct Headers {
    entries: Vec<(String, String)>,
}

impl View for Headers {
    type V = Seq<(Seq<char>, Seq<char>)>;

    closed spec fn view(&self) -> Seq<(Seq<char>, Seq<char>)> {
        pair_views(self.entries@)
    }
}

impl Headers {
    /// The collection holds no name twice.
    pub open spec fn wf(&self) -> bool {
        unique_names(self@)
    }

    /// The value held for `name`.
    pub open spec fn spec_get(&self, name: Seq<char>) -> Option<Seq<char>> {
        lookup(self@, name)
    }

    /// A collection holding the given pairs, set one after another; empty
    /// when there are none.
    pub fn new(initial: Option<Vec<(String, String)>>) -> (r: Headers)
        ensures
            r.wf(),
            r@ == match initial {
                Some(pairs) => with_headers(Seq::empty(), pair_views(pairs@)),
                None => Seq::empty(),
            },
    {
        let mut r = Headers { entries: Vec::new() };
        assert(r@ =~= Seq::<(Seq<char>, Seq<char>)>::empty());
        match initial {
            Some(pairs) => {
                let n: usize = pairs.len();
                let mut i: usize = 0;
                assert(pair_views(pairs@).take(0) =~= Seq::<(Seq<char>, Seq<char>)>::empty());
                while i < n
                    invariant
                        i <= n,
                        n == pairs@.len(),
                        r.wf(),
                        r@ == with_headers(Seq::empty(), pair_views(pairs@).take(i as int)),
                    decreases n - i,
                {
                    proof {
                        let pv = pair_views(pairs@);
                        assert(pv.take(i + 1).drop_last() =~= pv.take(i as int));
                        assert(pv.take(i + 1).last() == pv[i as int]);
                    }
                    r.set(pairs[i].0.as_str(), pairs[i].1.as_str());
                    i += 1;
                }
                assert(pair_views(pairs@).take(n as int) =~= pair_views(pairs@));
            },
            None => {},
        }
        r
    }

    /// Number of entries.
    pub fn len(&self) -> (r: usize)
        ensures
            r == self@.len(),
    {
        self.entries.len()
    }

    /// The entries as pairs of name and value, in their order.
    pub fn to_pairs(&self) -> (r: Vec<(String, String)>)
        ensures
            pair_views(r@) == self@,
    {
        let mut out: Vec<(String, String)> = Vec::new();
        let n: usize = self.entries.len();
        let mut i: usize = 0;
        while i < n
            invariant
                i <= n,
                n == self.entries@.len(),
                out@.len() == i,
                forall|j: int| 0 <= j < i ==> out@[j] == self.entries@[j],
            decreases n - i,
        {
            out.push((self.entries[i].0.clone(), self.entries[i].1.clone()));
            i += 1;
        }
        assert(pair_views(out@) =~= self@);
        out
    }

    fn find(&self, name: &str) -> (r: Option<usize>)
        ensures
            match r {
                Some(i) => index_of(self@, name@) == Some(i as int) && i < self.entries@.len(),
                None => index_of(self@, name@) is None,
            },
    {
        let n: usize = self.entries.len();
        let mut i: usize = 0;
        while i < n
            invariant
                i <= n,
                n == self.entries@.len(),
                n == self@.len(),
                forall|j: int| 0 <= j < i ==> folded(#[trigger] self@[j].0) != folded(name@),
            decreases n - i,
        {
            if eq_ignore_case(self.entries[i].0.as_str(), name) {
                proof {
                    lemma_index_of_is(self@, name@, i as int);
                }
                return Some(i);
            }
            i += 1;
        }
        proof {
            lemma_index_of_none(self@, name@);
        }
        None
    }

    /// Sets `name` to `value`. An entry of that name, whatever its case, keeps
    /// its spelling and takes the value; else a new entry is appended.
    pub fn set(&mut self, name: &str, value: &str)
        requires
            old(self).wf(),
        ensures
            final(self).wf(),
            final(self)@ == with_header(old(self)@, name@, value@),
            final(self).spec_get(name@) == Some(value@),
    {
        proof {
            lemma_set_then_get(self@, name@, value@, name@);
        }
        match self.find(name) {
            Some(i) => {
                let spelled = self.entries[i].0.clone();
                self.entries.set(i, (spelled, String::from_str(value)));
                assert(self@ =~= with_header(old(self)@, name@, value@));
            },
            None => {
                self.entries.push((String::from_str(name), String::from_str(value)));
                assert(self@ =~= with_header(old(self)@, name@, value@));
            },
        }
    }

    /// The value held for `name`, whatever the case in which it is given.
    pub fn get(&self, name: &str) -> (r: Option<&String>)
        ensures
            match r {
                Some(v) => self.spec_get(name@) == Some(v@),
                None => self.spec_get(name@) is None,
            },
    {
        match self.find(name) {
            Some(i) => Some(&self.entries[i].1),
            None => None,
        }
    }
}

} // verus!
