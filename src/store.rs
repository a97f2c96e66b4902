//! The answer store: a mapping from question name to the recorded answer
//! values, and the merge of one run's answers into it.

use vstd::prelude::*;

use crate::node::Node;
use linked_hash_map::LinkedHashMap;

use crate::outside::{
    dump_entries, load_documents, map_entries, map_get, map_insert, map_len, map_new,
    yaml_documents, yaml_store_text,
};
use crate::parse::{ConfigError, ErrorModel};
use crate::question::{all_text, text_items, text_list};

verus! {

/// What a store holds: each question name mapped to its recorded values.
pub type StoreMap = Map<Seq<char>, Seq<Seq<char>>>;

/// What a record holds: the question name, the values, and whether it was skipped.
pub type RecordModel = (Seq<char>, Seq<Seq<char>>, bool);

/// The characters of each string of `v`.
pub open spec fn texts(v: Seq<String>) -> Seq<Seq<char>> {
    v.map_values(|s: String| s@)
}

/// The answer collected for one question.
#[derive(Debug)]
pub struct AnswerRecord {
    pub name: String,
    /// No values when skipped; one for single-value prompts; any number for
    /// multiple selection.
    pub values: Vec<String>,
    pub skipped: bool,
}

impl View for AnswerRecord {
    type V = RecordModel;

    open spec fn view(&self) -> RecordModel {
        (self.name@, texts(self.values@), self.skipped)
    }
}

/// The models of a sequence of records.
pub open spec fn record_models(recs: Seq<AnswerRecord>) -> Seq<RecordModel> {
    recs.map_values(|r: AnswerRecord| r@)
}

/// `m` after folding `recs` into it in order: an answered record sets its name
/// to its values, a skipped one changes nothing.
pub open spec fn merged(m: StoreMap, recs: Seq<RecordModel>) -> StoreMap
    decreases recs.len(),
{
    if recs.len() == 0 {
        m
    } else {
        let prev = merged(m, recs.drop_last());
        let r = recs.last();
        if r.2 {
            prev
        } else {
            prev.insert(r.0, r.1)
        }
    }
}

/// What a store's map holds: each name with its values, in the map's order.
pub type Entries = Seq<(Seq<char>, Seq<Seq<char>>)>;

/// `pairs` lists exactly the entries of `m`, each name once.
pub open spec fn lists(pairs: Entries, m: StoreMap) -> bool {
    &&& forall|i: int, j: int|
        0 <= i < pairs.len() && 0 <= j < pairs.len() && i != j ==> pairs[i].0 != pairs[j].0
    &&& forall|i: int|
        0 <= i < pairs.len() ==> #[trigger] m.contains_key(pairs[i].0) && m[pairs[i].0]
            == pairs[i].1
    &&& forall|k: Seq<char>| #[trigger]
        m.contains_key(k) ==> exists|i: int| 0 <= i < pairs.len() && pairs[i].0 == k
}

/// Replacing the entry at `i`, whose name is `key`, by one at the back keeps
/// `lists` with the map updated at `key`.
proof fn lemma_lists_move_to_back(e: Entries, m: StoreMap, i: int, key: Seq<char>, vals: Seq<Seq<char>>)
    requires
        lists(e, m),
        0 <= i < e.len(),
        e[i].0 == key,
    ensures
        lists(e.remove(i).push((key, vals)), m.insert(key, vals)),
{
    let n = e.remove(i).push((key, vals));
    let m2 = m.insert(key, vals);
    assert forall|a: int| 0 <= a < n.len() - 1 implies n[a] == (if a < i {
        e[a]
    } else {
        e[a + 1]
    }) && n[a].0 != key by {
        if a < i {
            assert(e[a].0 != e[i].0);
        } else {
            assert(e[a + 1].0 != e[i].0);
        }
    }
    assert forall|a: int, b: int|
        0 <= a < n.len() && 0 <= b < n.len() && a != b implies n[a].0 != n[b].0 by {
        if a < n.len() - 1 && b < n.len() - 1 {
            let ea = if a < i { a } else { a + 1 };
            let eb = if b < i { b } else { b + 1 };
            assert(e[ea].0 != e[eb].0);
        }
    }
    assert forall|a: int| 0 <= a < n.len() implies #[trigger] m2.contains_key(n[a].0) && m2[n[a].0]
        == n[a].1 by {
        if a < n.len() - 1 {
            let ea = if a < i { a } else { a + 1 };
            assert(m.contains_key(e[ea].0));
        }
    }
    assert forall|k: Seq<char>| #[trigger] m2.contains_key(k) implies exists|a: int|
        0 <= a < n.len() && n[a].0 == k by {
        if k == key {
            assert(n[n.len() - 1].0 == k);
        } else {
            let b = choose|b: int| 0 <= b < e.len() && e[b].0 == k;
            assert(b != i);
            if b < i {
                assert(n[b].0 == k);
            } else {
                assert(n[b - 1].0 == k);
            }
        }
    }
}

/// Adding an entry for a name not listed keeps `lists` with the map updated.
proof fn lemma_lists_push(e: Entries, m: StoreMap, key: Seq<char>, vals: Seq<Seq<char>>)
    requires
        lists(e, m),
        forall|i: int| 0 <= i < e.len() ==> e[i].0 != key,
    ensures
        lists(e.push((key, vals)), m.insert(key, vals)),
{
    let n = e.push((key, vals));
    let m2 = m.insert(key, vals);
    assert forall|a: int| 0 <= a < n.len() implies #[trigger] m2.contains_key(n[a].0) && m2[n[a].0]
        == n[a].1 by {
        if a < e.len() {
            assert(n[a] == e[a]);
            assert(m.contains_key(e[a].0));
        }
    }
    assert forall|k: Seq<char>| #[trigger] m2.contains_key(k) implies exists|a: int|
        0 <= a < n.len() && n[a].0 == k by {
        if k == key {
            assert(n[e.len() as int].0 == k);
        } else {
            let b = choose|b: int| 0 <= b < e.len() && e[b].0 == k;
            assert(n[b] == e[b]);
        }
    }
}

/// The persistent mapping from question name to recorded answer values.
pub struct AnswerStore {
    map: LinkedHashMap<String, Vec<String>>,
    model: Ghost<StoreMap>,
}

impl View for AnswerStore {
    type V = StoreMap;

    closed spec fn view(&self) -> StoreMap {
        self.model@
    }
}

/// A copy of a list of strings.
pub fn copy_texts(v: &Vec<String>) -> (r: Vec<String>)
    ensures
        r@ == v@,
{
    let mut r: Vec<String> = Vec::new();
    let mut i: usize = 0;
    while i < v.len()
        invariant
            i <= v@.len(),
            r@ == v@.subrange(0, i as int),
        decreases v.len() - i,
    {
        r.push(v[i].clone());
        assert(v@.subrange(0, i + 1) =~= v@.subrange(0, i as int).push(v@[i as int]));
        i = i + 1;
    }
    assert(v@.subrange(0, v@.len() as int) =~= v@);
    r
}

impl AnswerStore {
    /// The store's map lists its entries, each name once.
    pub closed spec fn wf(&self) -> bool {
        lists(map_entries(self.map), self.model@)
    }

    /// An empty store.
    pub fn new() -> (r: AnswerStore)
        ensures
            r.wf(),
            r@ == Map::<Seq<char>, Seq<Seq<char>>>::empty(),
    {
        AnswerStore { map: map_new(), model: Ghost(Map::empty()) }
    }

    /// The number of names in the store.
    pub fn len(&self) -> (r: usize)
        requires
            self.wf(),
        ensures
            r == self@.dom().len(),
    {
        proof {
            self.lemma_dom();
        }
        map_len(&self.map)
    }

    /// The values recorded under `name`, if any.
    pub fn get(&self, name: &str) -> (r: Option<&Vec<String>>)
        requires
            self.wf(),
        ensures
            match r {
                Some(v) => self@.contains_key(name@) && self@[name@] == texts(v@),
                None => !self@.contains_key(name@),
            },
    {
        let r = map_get(&self.map, name);
        proof {
            let e = map_entries(self.map);
            if r is Some {
                let i = choose|i: int| 0 <= i < e.len() && e[i].0 == name@ && e[i].1 == texts(r->Some_0@);
                assert(self.model@.contains_key(e[i].0));
            }
        }
        r
    }

    /// Records `values` under `name`, replacing what was there.
    pub fn set(&mut self, name: String, values: Vec<String>)
        requires
            old(self).wf(),
        ensures
            final(self).wf(),
            final(self)@ == old(self)@.insert(name@, texts(values@)),
    {
        let ghost e = map_entries(self.map);
        let ghost m = self.model@;
        let ghost key = name@;
        let ghost vals = texts(values@);
        map_insert(&mut self.map, name, values);
        self.model = Ghost(m.insert(key, vals));
        proof {
            if exists|i: int| 0 <= i < e.len() && e[i].0 == key {
                let i = choose|i: int|
                    0 <= i < e.len() && e[i].0 == key && map_entries(self.map) == e.remove(i).push(
                        (key, vals),
                    );
                lemma_lists_move_to_back(e, m, i, key, vals);
            } else {
                lemma_lists_push(e, m, key, vals);
            }
        }
    }

    proof fn lemma_dom(&self)
        requires
            self.wf(),
        ensures
            self@.dom().len() == map_entries(self.map).len(),
    {
        let e = map_entries(self.map);
        let keys = e.map_values(|p: (Seq<char>, Seq<Seq<char>>)| p.0);
        assert forall|k: Seq<char>| self@.dom().contains(k) <==> keys.to_set().contains(k) by {
            if self@.dom().contains(k) {
                assert(self.model@.contains_key(k));
                let i = choose|i: int| 0 <= i < e.len() && e[i].0 == k;
                assert(keys[i] == k);
            }
            if keys.to_set().contains(k) {
                let i = choose|i: int| 0 <= i < keys.len() && keys[i] == k;
                assert(self.model@.contains_key(e[i].0));
            }
        }
        assert(self@.dom() =~= keys.to_set());
        assert(keys.no_duplicates()) by {
            assert forall|i: int, j: int|
                0 <= i < keys.len() && 0 <= j < keys.len() && i != j implies keys[i] != keys[j] by {
                assert(e[i].0 != e[j].0);
            }
        }
        keys.unique_seq_to_set();
    }

    /// Folds the records into the store in order: an answered record replaces
    /// the values under its name, a skipped one leaves the store as it was.
    pub fn merge(&mut self, records: &Vec<AnswerRecord>)
        requires
            old(self).wf(),
        ensures
            final(self).wf(),
            final(self)@ == merged(old(self)@, record_models(records@)),
    {
        let ghost start = self@;
        let ghost recs = record_models(records@);
        let mut i: usize = 0;
        assert(recs.subrange(0, 0) =~= Seq::<RecordModel>::empty());
        while i < records.len()
            invariant
                i <= records@.len(),
                recs == record_models(records@),
                self.wf(),
                self@ == merged(start, recs.subrange(0, i as int)),
            decreases records.len() - i,
        {
            let r = &records[i];
            assert(recs.subrange(0, i + 1).drop_last() =~= recs.subrange(0, i as int));
            assert(recs.subrange(0, i + 1).last() == r@);
            if !r.skipped {
                let values = copy_texts(&r.values);
                self.set(r.name.clone(), values);
            }
            i = i + 1;
        }
        assert(recs.subrange(0, records@.len() as int) =~= recs);
    }
}

/// An entry of a stored answer document: a text key and a list of texts.
pub open spec fn stored_entry(p: (Node, Node)) -> bool {
    p.0 is Text && p.1 is List && all_text(p.1->List_0@)
}

/// The map that stored entries describe; a later entry for a name wins.
pub open spec fn stored_map(pairs: Seq<(Node, Node)>) -> StoreMap
    decreases pairs.len(),
{
    if pairs.len() == 0 {
        Map::empty()
    } else {
        let p = pairs.last();
        stored_map(pairs.drop_last()).insert(p.0->Text_0@, text_items(p.1->List_0@))
    }
}

/// The store that a document describes: a mapping from names to lists of texts.
pub open spec fn store_of(doc: Node) -> Result<StoreMap, ErrorModel> {
    match doc {
        Node::Dict(pairs) => if forall|i: int|
            0 <= i < pairs@.len() ==> #[trigger] stored_entry(pairs@[i]) {
            Ok(stored_map(pairs@))
        } else {
            Err(ErrorModel::MalformedStore)
        },
        _ => Err(ErrorModel::MalformedStore),
    }
}

/// The store that a stored text describes: empty for an empty text, else the
/// first document it holds.
pub open spec fn store_of_text(text: Seq<char>) -> Result<StoreMap, ErrorModel> {
    if text.len() == 0 {
        Ok(Map::empty())
    } else {
        match yaml_documents(text) {
            None => Err(ErrorModel::MalformedStore),
            Some(docs) => if docs.len() == 0 {
                Err(ErrorModel::MalformedStore)
            } else {
                store_of(docs[0])
            },
        }
    }
}

impl AnswerStore {
    /// The entries of the store, in the order of its map.
    pub closed spec fn listing(&self) -> Entries {
        map_entries(self.map)
    }

    /// Builds the store that a document describes.
    pub fn from_node(doc: &Node) -> (r: Result<AnswerStore, ConfigError>)
        ensures
            match r {
                Ok(st) => st.wf() && store_of(*doc) == Ok::<StoreMap, ErrorModel>(st@),
                Err(e) => store_of(*doc) == Err::<StoreMap, ErrorModel>(e@),
            },
    {
        let pairs = match doc {
            Node::Dict(pairs) => pairs,
            _ => return Err(ConfigError::MalformedStore),
        };
        let mut st = AnswerStore::new();
        let mut i: usize = 0;
        assert(pairs@.subrange(0, 0) =~= Seq::<(Node, Node)>::empty());
        while i < pairs.len()
            invariant
                i <= pairs@.len(),
                st.wf(),
                store_of(*doc) == (if forall|j: int|
                    0 <= j < pairs@.len() ==> #[trigger] stored_entry(pairs@[j]) {
                    Ok::<StoreMap, ErrorModel>(stored_map(pairs@))
                } else {
                    Err::<StoreMap, ErrorModel>(ErrorModel::MalformedStore)
                }),
                forall|j: int| 0 <= j < i ==> #[trigger] stored_entry(pairs@[j]),
                st@ == stored_map(pairs@.subrange(0, i as int)),
            decreases pairs.len() - i,
        {
            let key = match &pairs[i].0 {
                Node::Text(k) => k,
                _ => {
                    assert(!stored_entry(pairs@[i as int]));
                    return Err(ConfigError::MalformedStore);
                },
            };
            let values = match &pairs[i].1 {
                Node::List(items) => match text_list(items) {
                    Some(v) => v,
                    None => {
                        assert(!stored_entry(pairs@[i as int]));
                        return Err(ConfigError::MalformedStore);
                    },
                },
                _ => {
                    assert(!stored_entry(pairs@[i as int]));
                    return Err(ConfigError::MalformedStore);
                },
            };
            assert(pairs@.subrange(0, i + 1).drop_last() =~= pairs@.subrange(0, i as int));
            assert(pairs@.subrange(0, i + 1).last() == pairs@[i as int]);
            st.set(key.clone(), values);
            i = i + 1;
        }
        assert(pairs@.subrange(0, pairs@.len() as int) =~= pairs@);
        Ok(st)
    }

    /// Builds the store that a stored text describes: an empty text gives an
    /// empty store, anything else must hold a mapping from names to lists of
    /// texts as its first document.
    pub fn from_text(text: &str) -> (r: Result<AnswerStore, ConfigError>)
        ensures
            match r {
                Ok(st) => st.wf() && store_of_text(text@) == Ok::<StoreMap, ErrorModel>(st@),
                Err(e) => store_of_text(text@) == Err::<StoreMap, ErrorModel>(e@),
            },
    {
        if text.unicode_len() == 0 {
            return Ok(AnswerStore::new());
        }
        match load_documents(text) {
            Err(_) => Err(ConfigError::MalformedStore),
            Ok(docs) => {
                if docs.len() == 0 {
                    Err(ConfigError::MalformedStore)
                } else {
                    AnswerStore::from_node(&docs[0])
                }
            },
        }
    }

    /// The text of the store as a structured mapping document.
    pub fn to_text(&self) -> (r: String)
        requires
            self.wf(),
        ensures
            r@ == yaml_store_text(self.listing()),
            lists(self.listing(), self@),
    {
        match dump_entries(&self.map) {
            Ok(s) => s,
            Err(_) => String::new(),
        }
    }
}

/// Why the answer store could not be loaded.
#[derive(Debug)]
pub enum LoadError {
    /// The directory that should hold the store does not exist.
    MissingDirectory,
    /// The stored text does not describe a store.
    Config(ConfigError),
}

/// Loads the store at the start of a run, from whether the directory that
/// holds it exists and the stored text, if the file exists: a missing file is
/// an empty store (the caller creates the file), and so is an empty text.
pub fn load_store(dir_exists: bool, content: Option<&str>) -> (r: Result<AnswerStore, LoadError>)
    ensures
        !dir_exists ==> r matches Err(LoadError::MissingDirectory),
        dir_exists && content is None ==> (r matches Ok(st) && st.wf() && st@ == Map::<
            Seq<char>,
            Seq<Seq<char>>,
        >::empty()),
        dir_exists && content is Some ==> match r {
            Ok(st) => st.wf() && store_of_text(content->Some_0@) == Ok::<StoreMap, ErrorModel>(
                st@,
            ),
            Err(LoadError::Config(e)) => store_of_text(content->Some_0@) == Err::<
                StoreMap,
                ErrorModel,
            >(e@),
            Err(LoadError::MissingDirectory) => false,
        },
{
    if !dir_exists {
        return Err(LoadError::MissingDirectory);
    }
    match content {
        None => Ok(AnswerStore::new()),
        Some(text) => match AnswerStore::from_text(text) {
            Ok(st) => Ok(st),
            Err(e) => Err(LoadError::Config(e)),
        },
    }
}

} // verus!
