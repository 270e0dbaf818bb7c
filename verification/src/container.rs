//! The bookkeeping of an asset container: a collection of named items (all
//! skins, all emoticons, ...) kept in the order of their last use, of which
//! the ones not used for a while are dropped. The item `default` always
//! exists. The items' data stays with the caller, keyed by the same names;
//! this keeps, per name, the update in which the item was last used, in a
//! `hashlink::LinkedHashMap`.
use hashlink::LinkedHashMap;
use std::collections::hash_map::RandomState;
use vstd::prelude::*;

verus! {

#[verifier::external_type_specification]
#[verifier::external_body]
#[verifier::reject_recursive_types(K)]
#[verifier::reject_recursive_types(V)]
#[verifier::reject_recursive_types(S)]
pub struct ExLinkedHashMap<K, V, S>(LinkedHashMap<K, V, S>);

/// The entries of the map, from front to back: each name with the update
/// in which it was last used.
pub uninterp spec fn usage_entries(m: LinkedHashMap<String, usize, RandomState>) -> Seq<
    (Seq<char>, usize),
>;

pub open spec fn has_key(s: Seq<(Seq<char>, usize)>, k: Seq<char>) -> bool {
    exists|i: int| 0 <= i < s.len() && (#[trigger] s[i]).0 == k
}

/// The entries without the one of key `k`, in their order.
pub open spec fn without_key(s: Seq<(Seq<char>, usize)>, k: Seq<char>) -> Seq<(Seq<char>, usize)>
    decreases s.len(),
{
    if s.len() == 0 {
        s
    } else if s[0].0 == k {
        without_key(s.drop_first(), k)
    } else {
        seq![s[0]] + without_key(s.drop_first(), k)
    }
}

pub open spec fn keys_distinct(s: Seq<(Seq<char>, usize)>) -> bool {
    forall|i: int, j: int| 0 <= i < j < s.len() ==> (#[trigger] s[i]).0 != (#[trigger] s[j]).0
}

/// `LinkedHashMap::default` with the standard library's `RandomState`
/// hasher: claimed empty.
#[verifier::external_body]
fn usage_new() -> (r: LinkedHashMap<String, usize, RandomState>)
    ensures
        usage_entries(r) == Seq::<(Seq<char>, usize)>::empty(),
{
    LinkedHashMap::default()
}

/// `LinkedHashMap::insert`: as its documentation says, the entry goes to the
/// back of the order, and an entry of the same key is replaced (the
/// replaced value is dropped here).
#[verifier::external_body]
fn usage_insert(m: &mut LinkedHashMap<String, usize, RandomState>, k: String, v: usize)
    ensures
        usage_entries(*final(m)) == without_key(usage_entries(*old(m)), k@).push((k@, v)),
{
    m.insert(k, v);
}

/// `LinkedHashMap::remove`: claimed to take out the entry of the key, if
/// any, keeping the order of the others, and to give its value.
#[verifier::external_body]
fn usage_remove(m: &mut LinkedHashMap<String, usize, RandomState>, k: &str) -> (r: Option<usize>)
    ensures
        usage_entries(*final(m)) == without_key(usage_entries(*old(m)), k@),
        r is Some <==> has_key(usage_entries(*old(m)), k@),
{
    m.remove(k)
}

/// `LinkedHashMap::front`, with the key copied: claimed to give the first
/// entry in the order.
#[verifier::external_body]
fn usage_front(m: &LinkedHashMap<String, usize, RandomState>) -> (r: Option<(String, usize)>)
    ensures
        r is None <==> usage_entries(*m).len() == 0,
        r matches Some(e) ==> usage_entries(*m).len() > 0 && e.0@ == usage_entries(*m)[0].0
            && e.1 == usage_entries(*m)[0].1,
{
    m.front().map(|(k, v)| (k.clone(), *v))
}

/// `LinkedHashMap::contains_key`: claimed to tell whether an entry has the
/// key.
#[verifier::external_body]
fn usage_contains(m: &LinkedHashMap<String, usize, RandomState>, k: &str) -> (r: bool)
    ensures
        r == has_key(usage_entries(*m), k@),
{
    m.contains_key(k)
}

/// Name of the item every container has.
pub open spec fn default_name() -> Seq<char> {
    "default"@
}

/// An item is dropped once it went unused for more than this many updates.
pub const MAX_UNUSED_UPDATES: usize = 10;

/// The leading entries that `update` drops: not the default item, and
/// last used more than ten updates before `count`.
pub open spec fn stale_prefix(s: Seq<(Seq<char>, usize)>, count: usize) -> nat
    decreases s.len(),
{
    if s.len() == 0 || s[0].0 == default_name() || !(s[0].1 + MAX_UNUSED_UPDATES < count) {
        0
    } else {
        1 + stale_prefix(s.drop_first(), count)
    }
}

/// The loading task of an item the container does not have yet.
#[derive(Copy, Clone, Debug, PartialEq, Eq, Structural)]
pub enum LoadTaskState {
    /// No task was started for the name.
    Absent,
    /// The task still runs; it is never waited on.
    Running,
    /// The task has finished, with a loaded item (`ok`) or an error.
    Finished { ok: bool },
    /// An earlier task failed; no new one is started.
    Failed,
}

/// What asking the container for an item does.
#[derive(Copy, Clone, Debug, PartialEq, Eq, Structural)]
pub enum GetAction {
    /// The container has the item: it is used.
    UseItem,
    /// A loading task for the name is started; the default item is used.
    StartLoad,
    /// The running task is left alone; the default item is used.
    KeepWaiting,
    /// The finished task's item is converted and inserted, the task is
    /// dropped, and the new item is used.
    InsertLoaded,
    /// The task's error is reported, the task is kept as failed; the
    /// default item is used.
    ReportError,
    /// An earlier task failed; the default item is used.
    UseDefault,
}

/// The action for an item the container has (`has_item`) or whose loading
/// task is in the given state, and the task's state afterwards.
pub open spec fn spec_get_action(has_item: bool, task: LoadTaskState) -> (GetAction, LoadTaskState) {
    if has_item {
        (GetAction::UseItem, task)
    } else {
        match task {
            LoadTaskState::Absent => (GetAction::StartLoad, LoadTaskState::Running),
            LoadTaskState::Running => (GetAction::KeepWaiting, LoadTaskState::Running),
            LoadTaskState::Finished { ok } => if ok {
                (GetAction::InsertLoaded, LoadTaskState::Absent)
            } else {
                (GetAction::ReportError, LoadTaskState::Failed)
            },
            LoadTaskState::Failed => (GetAction::UseDefault, LoadTaskState::Failed),
        }
    }
}

/// The action uses the named item (else the default item).
pub open spec fn uses_named_item(a: GetAction) -> bool {
    a == GetAction::UseItem || a == GetAction::InsertLoaded
}

/// The names and last uses of a container's items.
pub struct Container {
    items: LinkedHashMap<String, usize, RandomState>,
    update_count: usize,
}

proof fn lemma_without_absent(s: Seq<(Seq<char>, usize)>, k: Seq<char>)
    requires
        !has_key(s, k),
    ensures
        without_key(s, k) == s,
    decreases s.len(),
{
    if s.len() > 0 {
        assert(s[0].0 != k);
        assert(!has_key(s.drop_first(), k)) by {
            if has_key(s.drop_first(), k) {
                let i = choose|i: int| 0 <= i < s.drop_first().len() && (#[trigger] s.drop_first()[i]).0 == k;
                assert(s[i + 1] == s.drop_first()[i]);
            }
        }
        lemma_without_absent(s.drop_first(), k);
        assert(seq![s[0]] + s.drop_first() =~= s);
    }
}

proof fn lemma_without_key_props(s: Seq<(Seq<char>, usize)>, k: Seq<char>)
    ensures
        !has_key(without_key(s, k), k),
        forall|q: Seq<char>| q != k ==> (has_key(without_key(s, k), q) <==> has_key(s, q)),
        forall|i: int|
            0 <= i < without_key(s, k).len() ==> exists|j: int|
                0 <= j < s.len() && #[trigger] without_key(s, k)[i] == s[j],
        keys_distinct(s) ==> keys_distinct(without_key(s, k)),
    decreases s.len(),
{
    if s.len() > 0 {
        let t = s.drop_first();
        lemma_without_key_props(t, k);
        let w = without_key(t, k);
        assert forall|q: Seq<char>| has_key(t, q) implies has_key(s, q) by {
            let i = choose|i: int| 0 <= i < t.len() && (#[trigger] t[i]).0 == q;
            assert(s[i + 1] == t[i]);
        }
        assert forall|q: Seq<char>| has_key(s, q) && s[0].0 != q implies has_key(t, q) by {
            let i = choose|i: int| 0 <= i < s.len() && (#[trigger] s[i]).0 == q;
            assert(t[i - 1] == s[i]);
        }
        if s[0].0 == k {
            assert forall|i: int| 0 <= i < w.len() implies exists|j: int|
                0 <= j < s.len() && #[trigger] w[i] == s[j] by {
                let j = choose|j: int| 0 <= j < t.len() && w[i] == t[j];
                assert(s[j + 1] == t[j]);
            }
        } else {
            let r = seq![s[0]] + w;
            assert(r[0] == s[0]);
            assert forall|i: int| 1 <= i < r.len() implies r[i] == w[i - 1] by {}
            assert(!has_key(r, k)) by {
                if has_key(r, k) {
                    let i = choose|i: int| 0 <= i < r.len() && (#[trigger] r[i]).0 == k;
                    if i > 0 {
                        assert(r[i] == w[i - 1]);
                    }
                }
            }
            assert forall|q: Seq<char>| q != k implies (has_key(r, q) <==> has_key(s, q)) by {
                if has_key(r, q) {
                    let i = choose|i: int| 0 <= i < r.len() && (#[trigger] r[i]).0 == q;
                    if i > 0 {
                        assert(r[i] == w[i - 1]);
                    }
                }
                if has_key(s, q) {
                    if s[0].0 == q {
                        assert(r[0].0 == q);
                    } else {
                        assert(has_key(w, q));
                        let i = choose|i: int| 0 <= i < w.len() && (#[trigger] w[i]).0 == q;
                        assert(r[i + 1] == w[i]);
                    }
                }
            }
            assert forall|i: int| 0 <= i < r.len() implies exists|j: int|
                0 <= j < s.len() && #[trigger] r[i] == s[j] by {
                if i == 0 {
                    assert(r[0] == s[0]);
                } else {
                    assert(r[i] == w[i - 1]);
                    let j = choose|j: int| 0 <= j < t.len() && w[i - 1] == t[j];
                    assert(s[j + 1] == t[j]);
                }
            }
            if keys_distinct(s) {
                assert(keys_distinct(t)) by {
                    assert forall|i: int, j: int| 0 <= i < j < t.len() implies (#[trigger] t[i]).0
                        != (#[trigger] t[j]).0 by {
                        assert(t[i] == s[i + 1] && t[j] == s[j + 1]);
                    }
                }
                assert(!has_key(t, s[0].0)) by {
                    if has_key(t, s[0].0) {
                        let i = choose|i: int| 0 <= i < t.len() && (#[trigger] t[i]).0 == s[0].0;
                        assert(t[i] == s[i + 1]);
                    }
                }
                assert forall|i: int, j: int| 0 <= i < j < r.len() implies (#[trigger] r[i]).0
                    != (#[trigger] r[j]).0 by {
                    assert(r[j] == w[j - 1]);
                    if i == 0 {
                        assert(has_key(w, w[j - 1].0));
                    } else {
                        assert(r[i] == w[i - 1]);
                    }
                }
            }
        }
        if keys_distinct(s) && s[0].0 == k {
            assert(keys_distinct(t)) by {
                assert forall|i: int, j: int| 0 <= i < j < t.len() implies (#[trigger] t[i]).0
                    != (#[trigger] t[j]).0 by {
                    assert(t[i] == s[i + 1] && t[j] == s[j + 1]);
                }
            }
        }
    }
}

proof fn lemma_without_first(s: Seq<(Seq<char>, usize)>)
    requires
        s.len() > 0,
        keys_distinct(s),
    ensures
        without_key(s, s[0].0) == s.drop_first(),
{
    assert(!has_key(s.drop_first(), s[0].0)) by {
        if has_key(s.drop_first(), s[0].0) {
            let i = choose|i: int| 0 <= i < s.drop_first().len() && (#[trigger] s.drop_first()[i]).0 == s[0].0;
            assert(s.drop_first()[i] == s[i + 1]);
        }
    }
    lemma_without_absent(s.drop_first(), s[0].0);
}

impl Container {
    pub closed spec fn entries(&self) -> Seq<(Seq<char>, usize)> {
        usage_entries(self.items)
    }

    pub closed spec fn update_count(&self) -> usize {
        self.update_count
    }

    /// Names are unique, the default item is there, and no item was used
    /// after the current update.
    pub open spec fn wf(&self) -> bool {
        &&& keys_distinct(self.entries())
        &&& has_key(self.entries(), default_name())
        &&& forall|i: int| 0 <= i < self.entries().len() ==> (#[trigger] self.entries()[i]).1
            <= self.update_count()
    }

    /// Number of updates so far.
    pub fn updates(&self) -> (r: usize)
        ensures
            r == self.update_count(),
    {
        self.update_count
    }

    /// A container holding only the default item.
    pub fn new() -> (r: Container)
        ensures
            r.wf(),
            r.entries() == seq![(default_name(), 0usize)],
            r.update_count() == 0,
    {
        let mut items = usage_new();
        usage_insert(&mut items, String::from_str("default"), 0);
        let r = Container { items, update_count: 0 };
        proof {
            assert(without_key(Seq::<(Seq<char>, usize)>::empty(), default_name()) =~= Seq::<
                (Seq<char>, usize),
            >::empty());
            assert(r.entries() =~= seq![(default_name(), 0usize)]);
            assert(r.entries()[0].0 == default_name());
        }
        r
    }

    /// Starts the next update: drops the leading items that went unused for
    /// more than ten updates (the default item is kept) and returns their
    /// names, front first; then marks the default item as used.
    pub fn update(&mut self) -> (evicted: Vec<String>)
        requires
            old(self).wf(),
            old(self).update_count() + MAX_UNUSED_UPDATES <= usize::MAX,
        ensures
            final(self).wf(),
            final(self).update_count() == old(self).update_count() + 1,
            evicted@.len() == stale_prefix(old(self).entries(), old(self).update_count()),
            forall|i: int|
                0 <= i < evicted@.len() ==> (#[trigger] evicted@[i])@ == old(self).entries()[i].0,
            final(self).entries() == without_key(
                old(self).entries().skip(evicted@.len() as int),
                default_name(),
            ).push((default_name(), final(self).update_count())),
    {
        let ghost s = self.entries();
        let count = self.update_count;
        let default = String::from_str("default");
        let mut evicted: Vec<String> = Vec::new();
        let mut done = false;
        proof {
            assert(s.skip(0) =~= s);
        }
        while !done
            invariant
                self.update_count == count,
                count + MAX_UNUSED_UPDATES <= usize::MAX,
                default@ == default_name(),
                keys_distinct(s),
                has_key(s, default_name()),
                forall|i: int| 0 <= i < s.len() ==> (#[trigger] s[i]).1 <= count,
                evicted@.len() <= stale_prefix(s, count),
                evicted@.len() <= s.len(),
                self.entries() == s.skip(evicted@.len() as int),
                stale_prefix(s, count) == evicted@.len() + stale_prefix(
                    s.skip(evicted@.len() as int),
                    count,
                ),
                done ==> stale_prefix(s, count) == evicted@.len(),
                forall|i: int| 0 <= i < evicted@.len() ==> (#[trigger] evicted@[i])@ == s[i].0,
            decreases self.entries().len() + if done {
                0int
            } else {
                1int
            },
        {
            let ghost rest = s.skip(evicted@.len() as int);
            match usage_front(&self.items) {
                None => {
                    done = true;
                },
                Some((name, used)) => {
                    proof {
                        assert(rest[0] == s[evicted@.len() as int]);
                    }
                    if !(name == default) && used + MAX_UNUSED_UPDATES < count {
                        proof {
                            assert(rest[0] == s[evicted@.len() as int]);
                            assert(keys_distinct(rest)) by {
                                assert forall|i: int, j: int| 0 <= i < j < rest.len() implies (
                                #[trigger] rest[i]).0 != (#[trigger] rest[j]).0 by {
                                    assert(rest[i] == s[i + evicted@.len()]);
                                    assert(rest[j] == s[j + evicted@.len()]);
                                }
                            }
                            lemma_without_first(rest);
                            assert(rest.drop_first() =~= s.skip(evicted@.len() + 1int));
                        }
                        usage_remove(&mut self.items, name.as_str());
                        evicted.push(name);
                    } else {
                        done = true;
                    }
                },
            }
        }
        self.update_count = count + 1;
        proof {
            let rest = s.skip(evicted@.len() as int);
            assert forall|i: int| 0 <= i < rest.len() implies (#[trigger] rest[i]).1 <= count by {
                assert(rest[i] == s[i + evicted@.len()]);
            }
            assert(keys_distinct(rest)) by {
                assert forall|i: int, j: int| 0 <= i < j < rest.len() implies (#[trigger] rest[i]).0
                    != (#[trigger] rest[j]).0 by {
                    assert(rest[i] == s[i + evicted@.len()]);
                    assert(rest[j] == s[j + evicted@.len()]);
                }
            }
            lemma_without_key_props(rest, default_name());
        }
        let ghost before_insert = self.entries();
        usage_insert(&mut self.items, default, self.update_count);
        proof {
            let w = without_key(before_insert, default_name());
            let e = self.entries();
            assert(e == w.push((default_name(), self.update_count)));
            assert(e[w.len() as int].0 == default_name());
            assert forall|i: int, j: int| 0 <= i < j < e.len() implies (#[trigger] e[i]).0
                != (#[trigger] e[j]).0 by {
                assert(e[i] == w[i]);
                if j < w.len() {
                    assert(e[j] == w[j]);
                } else {
                    assert(has_key(w, w[i].0));
                }
            }
            assert forall|i: int| 0 <= i < e.len() implies (#[trigger] e[i]).1 <= self.update_count by {
                if i < w.len() {
                    assert(e[i] == w[i]);
                    let j = choose|j: int| 0 <= j < before_insert.len() && w[i] == before_insert[j];
                    assert(before_insert[j] == s[j + evicted@.len()]);
                }
            }
        }
        evicted
    }

    /// Uses the item of this name, if the container has it: it goes to the
    /// back of the order, marked as used in this update.
    pub fn use_item(&mut self, name: &str) -> (found: bool)
        requires
            old(self).wf(),
        ensures
            final(self).wf(),
            found == has_key(old(self).entries(), name@),
            final(self).update_count() == old(self).update_count(),
            found ==> final(self).entries() == without_key(old(self).entries(), name@).push(
                (name@, old(self).update_count()),
            ),
            !found ==> final(self).entries() == old(self).entries(),
    {
        if usage_contains(&self.items, name) {
            self.insert_used(String::from_str(name));
            true
        } else {
            false
        }
    }

    /// Marks the default item as used in this update (it goes to the back).
    pub fn use_default(&mut self)
        requires
            old(self).wf(),
        ensures
            final(self).wf(),
            final(self).update_count() == old(self).update_count(),
            final(self).entries() == without_key(old(self).entries(), default_name()).push(
                (default_name(), old(self).update_count()),
            ),
    {
        self.insert_used(String::from_str("default"));
    }

    /// Asks for the item `name`, whose loading task (if the container does
    /// not have the item) is in the state `task`: an item the container has
    /// is used; otherwise one loading task is started for the name, a
    /// running task is never waited on, a finished one gives its item to the
    /// container (or reports its error once), and the default item is used
    /// meanwhile. The item used goes to the back of the order, marked as
    /// used in this update. Returns the action and the task's new state.
    pub fn get_or_default(&mut self, name: &str, task: LoadTaskState) -> (r: (
        GetAction,
        LoadTaskState,
    ))
        requires
            old(self).wf(),
        ensures
            final(self).wf(),
            r == spec_get_action(has_key(old(self).entries(), name@), task),
            final(self).update_count() == old(self).update_count(),
            uses_named_item(r.0) ==> final(self).entries() == without_key(
                old(self).entries(),
                name@,
            ).push((name@, old(self).update_count())),
            !uses_named_item(r.0) ==> final(self).entries() == without_key(
                old(self).entries(),
                default_name(),
            ).push((default_name(), old(self).update_count())),
    {
        if self.use_item(name) {
            return (GetAction::UseItem, task);
        }
        let r = match task {
            LoadTaskState::Absent => (GetAction::StartLoad, LoadTaskState::Running),
            LoadTaskState::Running => (GetAction::KeepWaiting, LoadTaskState::Running),
            LoadTaskState::Finished { ok } => {
                if ok {
                    (GetAction::InsertLoaded, LoadTaskState::Absent)
                } else {
                    (GetAction::ReportError, LoadTaskState::Failed)
                }
            },
            LoadTaskState::Failed => (GetAction::UseDefault, LoadTaskState::Failed),
        };
        if r.0 == GetAction::InsertLoaded {
            self.add_loaded(name);
        } else {
            self.use_default();
        }
        r
    }

    /// Adds a freshly loaded item, used in this update.
    pub fn add_loaded(&mut self, name: &str)
        requires
            old(self).wf(),
        ensures
            final(self).wf(),
            final(self).update_count() == old(self).update_count(),
            final(self).entries() == without_key(old(self).entries(), name@).push(
                (name@, old(self).update_count()),
            ),
    {
        self.insert_used(String::from_str(name));
    }

    fn insert_used(&mut self, name: String)
        requires
            old(self).wf(),
        ensures
            final(self).wf(),
            final(self).update_count() == old(self).update_count(),
            final(self).entries() == without_key(old(self).entries(), name@).push(
                (name@, old(self).update_count()),
            ),
    {
        let ghost s = self.entries();
        let ghost k = name@;
        proof {
            lemma_without_key_props(s, k);
        }
        usage_insert(&mut self.items, name, self.update_count);
        proof {
            let w = without_key(s, k);
            let e = self.entries();
            assert(e[w.len() as int].0 == k);
            assert forall|i: int, j: int| 0 <= i < j < e.len() implies (#[trigger] e[i]).0
                != (#[trigger] e[j]).0 by {
                assert(e[i] == w[i]);
                if j < w.len() {
                    assert(e[j] == w[j]);
                } else {
                    assert(has_key(w, w[i].0));
                }
            }
            assert forall|i: int| 0 <= i < e.len() implies (#[trigger] e[i]).1 <= self.update_count by {
                if i < w.len() {
                    assert(e[i] == w[i]);
                    let j = choose|j: int| 0 <= j < s.len() && w[i] == s[j];
                }
            }
            if k == default_name() {
                assert(has_key(e, default_name()));
            } else {
                assert(has_key(w, default_name()));
                let i = choose|i: int| 0 <= i < w.len() && (#[trigger] w[i]).0 == default_name();
                assert(e[i] == w[i]);
            }
        }
    }
}


proof fn lemma_stale_prefix_entries(s: Seq<(Seq<char>, usize)>, count: usize)
    ensures
        stale_prefix(s, count) <= s.len(),
        forall|j: int|
            0 <= j < stale_prefix(s, count) ==> (#[trigger] s[j]).0 != default_name() && s[j].1
                + MAX_UNUSED_UPDATES < count,
    decreases s.len(),
{
    if s.len() > 0 && !(s[0].0 == default_name() || !(s[0].1 + MAX_UNUSED_UPDATES < count)) {
        let t = s.drop_first();
        lemma_stale_prefix_entries(t, count);
        assert forall|j: int| 0 <= j < stale_prefix(s, count) implies (#[trigger] s[j]).0
            != default_name() && s[j].1 + MAX_UNUSED_UPDATES < count by {
            if j > 0 {
                assert(s[j] == t[j - 1]);
            }
        }
    }
}

/// An update keeps every item used in the last ten updates, and the
/// default item: only items unused for longer are dropped.
pub proof fn law_recently_used_items_stay(s: Seq<(Seq<char>, usize)>, count: usize, i: int)
    requires
        0 <= i < s.len(),
        s[i].1 + MAX_UNUSED_UPDATES >= count || s[i].0 == default_name(),
    ensures
        has_key(
            without_key(s.skip(stale_prefix(s, count) as int), default_name()).push(
                (default_name(), (count + 1) as usize),
            ),
            s[i].0,
        ),
{
    lemma_stale_prefix_entries(s, count);
    let k = stale_prefix(s, count) as int;
    let rest = s.skip(k);
    let w = without_key(rest, default_name());
    let e = w.push((default_name(), (count + 1) as usize));
    assert(i >= k);
    if s[i].0 == default_name() {
        assert(e[w.len() as int].0 == default_name());
    } else {
        assert(rest[i - k] == s[i]);
        assert(has_key(rest, s[i].0));
        lemma_without_key_props(rest, default_name());
        let j = choose|j: int| 0 <= j < w.len() && (#[trigger] w[j]).0 == s[i].0;
        assert(e[j] == w[j]);
    }
}

/// The items `update` drops are leading items other than `default`, each
/// unused for more than ten updates, and the first item it keeps is
/// `default` or one used since: `default` is never dropped and the
/// eviction stops at the first item still in use.
pub proof fn law_update_never_evicts_default(s: Seq<(Seq<char>, usize)>, count: usize)
    ensures
        stale_prefix(s, count) <= s.len(),
        forall|i: int|
            0 <= i < stale_prefix(s, count) ==> (#[trigger] s[i]).0 != default_name() && s[i].1
                + MAX_UNUSED_UPDATES < count,
        stale_prefix(s, count) < s.len() ==> (s[stale_prefix(s, count) as int].0 == default_name()
            || !(s[stale_prefix(s, count) as int].1 + MAX_UNUSED_UPDATES < count)),
    decreases s.len(),
{
    if s.len() > 0 && !(s[0].0 == default_name() || !(s[0].1 + MAX_UNUSED_UPDATES < count)) {
        let t = s.drop_first();
        law_update_never_evicts_default(t, count);
        assert forall|i: int|
            0 <= i < stale_prefix(s, count) implies (#[trigger] s[i]).0 != default_name() && s[i].1
                + MAX_UNUSED_UPDATES < count by {
            if i > 0 {
                assert(s[i] == t[i - 1]);
            }
        }
        if stale_prefix(s, count) < s.len() {
            assert(s[stale_prefix(s, count) as int] == t[stale_prefix(t, count) as int]);
        }
    }
}

} // verus!
