//! Header collections: an insertion-ordered map from header names to values.

use vstd::prelude::*;

verus! {

/// A header as its name and value, each as a sequence of characters.
pub type Pair = (Seq<char>, Seq<char>);

/// One header line: a name and its value.
#[derive(Debug)]
pub struct Header {
    pub name: String,
    pub value: String,
}

impl Clone for Header {
    fn clone(&self) -> (copy: Header)
        ensures
            copy@ == self@,
    {
        Header { name: self.name.clone(), value: self.value.clone() }
    }
}

impl View for Header {
    type V = Pair;

    open spec fn view(&self) -> Pair {
        (self.name@, self.value@)
    }
}

/// The headers of a sequence, each by its view.
pub open spec fn pairs_of(headers: Seq<Header>) -> Seq<Pair> {
    Seq::new(headers.len(), |i: int| headers[i]@)
}

/// The map that results from writing the pairs one after another: where a
/// name occurs more than once, the last value written stays.
pub open spec fn written(pairs: Seq<Pair>) -> Map<Seq<char>, Seq<char>>
    decreases pairs.len(),
{
    if pairs.len() == 0 {
        Map::empty()
    } else {
        written(pairs.drop_last()).insert(pairs.last().0, pairs.last().1)
    }
}

/// True when no name occurs twice among the pairs.
pub open spec fn names_distinct(pairs: Seq<Pair>) -> bool {
    forall|i: int, j: int| 0 <= i < j < pairs.len() ==> pairs[i].0 != pairs[j].0
}

/// True when some pair carries the name.
pub open spec fn names(pairs: Seq<Pair>, name: Seq<char>) -> bool {
    exists|i: int| 0 <= i < pairs.len() && #[trigger] pairs[i].0 == name
}

/// The names written are exactly the names of the pairs.
pub proof fn lemma_written_dom(pairs: Seq<Pair>, name: Seq<char>)
    ensures
        written(pairs).dom().contains(name) <==> names(pairs, name),
    decreases pairs.len(),
{
    if pairs.len() > 0 {
        let front = pairs.drop_last();
        lemma_written_dom(front, name);
        if names(front, name) {
            let i = choose|i: int| 0 <= i < front.len() && #[trigger] front[i].0 == name;
            assert(pairs[i].0 == name);
        }
        if pairs.last().0 == name {
            assert(pairs[pairs.len() - 1].0 == name);
        }
        if names(pairs, name) {
            let i = choose|i: int| 0 <= i < pairs.len() && #[trigger] pairs[i].0 == name;
            if i < front.len() {
                assert(front[i].0 == name);
            }
        }
    }
}

/// Where no name occurs twice, every pair is found in the map under its name.
pub proof fn lemma_written_value(pairs: Seq<Pair>, i: int)
    requires
        names_distinct(pairs),
        0 <= i < pairs.len(),
    ensures
        written(pairs).dom().contains(pairs[i].0),
        written(pairs)[pairs[i].0] == pairs[i].1,
    decreases pairs.len(),
{
    let front = pairs.drop_last();
    if i < pairs.len() - 1 {
        assert(names_distinct(front)) by {
            assert forall|a: int, b: int| 0 <= a < b < front.len() implies front[a].0
                != front[b].0 by {
                assert(pairs[a].0 != pairs[b].0);
            }
        }
        lemma_written_value(front, i);
        assert(front[i] == pairs[i]);
        assert(pairs[i].0 != pairs[pairs.len() - 1].0);
    }
}

/// Where no name occurs twice, every header of the map stands among the
/// pairs, under its name and with its value.
pub proof fn lemma_written_pair(pairs: Seq<Pair>, name: Seq<char>)
    requires
        names_distinct(pairs),
        written(pairs).dom().contains(name),
    ensures
        pairs.contains((name, written(pairs)[name])),
{
    lemma_written_dom(pairs, name);
    let i = choose|i: int| 0 <= i < pairs.len() && #[trigger] pairs[i].0 == name;
    lemma_written_value(pairs, i);
    assert(pairs[i] == (name, written(pairs)[name]));
}

/// Where no name occurs twice, the map holds as many headers as there are pairs.
pub proof fn lemma_written_len(pairs: Seq<Pair>)
    requires
        names_distinct(pairs),
    ensures
        written(pairs).dom().finite(),
        written(pairs).dom().len() == pairs.len(),
    decreases pairs.len(),
{
    if pairs.len() > 0 {
        let front = pairs.drop_last();
        let last = pairs.last();
        assert(names_distinct(front)) by {
            assert forall|a: int, b: int| 0 <= a < b < front.len() implies front[a].0
                != front[b].0 by {
                assert(pairs[a].0 != pairs[b].0);
            }
        }
        lemma_written_len(front);
        lemma_written_dom(front, last.0);
        if names(front, last.0) {
            let i = choose|i: int| 0 <= i < front.len() && #[trigger] front[i].0 == last.0;
            assert(pairs[i].0 != pairs[pairs.len() - 1].0);
        }
        assert(written(pairs).dom() =~= written(front).dom().insert(last.0));
    }
}

/// The pairs after one more write: the value replaces the one that stood
/// under the name, or the pair is added at the end where the name is new.
pub open spec fn with_pair(pairs: Seq<Pair>, name: Seq<char>, value: Seq<char>) -> Seq<Pair> {
    if names(pairs, name) {
        Seq::new(
            pairs.len(),
            |i: int|
                if pairs[i].0 == name {
                    (name, value)
                } else {
                    pairs[i]
                },
        )
    } else {
        pairs.push((name, value))
    }
}

/// One more write keeps the names distinct and writes the pair into the map.
pub proof fn lemma_with_pair(pairs: Seq<Pair>, name: Seq<char>, value: Seq<char>)
    requires
        names_distinct(pairs),
    ensures
        names_distinct(with_pair(pairs, name, value)),
        written(with_pair(pairs, name, value)) == written(pairs).insert(name, value),
{
    let next = with_pair(pairs, name, value);
    if names(pairs, name) {
        let at = choose|i: int| 0 <= i < pairs.len() && #[trigger] pairs[i].0 == name;
        assert forall|i: int| 0 <= i < pairs.len() implies #[trigger] next[i].0 == pairs[i].0 by {}
        assert(names_distinct(next)) by {
            assert forall|a: int, b: int| 0 <= a < b < next.len() implies next[a].0
                != next[b].0 by {
                assert(pairs[a].0 != pairs[b].0);
            }
        }
        assert forall|key: Seq<char>|
            written(next).dom().contains(key) <==> written(pairs).insert(name, value).dom().contains(
                key,
            ) by {
            lemma_written_dom(next, key);
            lemma_written_dom(pairs, key);
            if names(next, key) {
                let i = choose|i: int| 0 <= i < next.len() && #[trigger] next[i].0 == key;
                assert(pairs[i].0 == key);
            }
            if names(pairs, key) {
                let i = choose|i: int| 0 <= i < pairs.len() && #[trigger] pairs[i].0 == key;
                assert(next[i].0 == key);
            }
            if key == name {
                assert(next[at].0 == key);
            }
        }
        assert forall|key: Seq<char>| written(next).dom().contains(key) implies written(next)[key]
            == written(pairs).insert(name, value)[key] by {
            lemma_written_dom(next, key);
            let i = choose|i: int| 0 <= i < next.len() && #[trigger] next[i].0 == key;
            lemma_written_value(next, i);
            lemma_written_value(pairs, i);
        }
        assert(written(next) =~= written(pairs).insert(name, value));
    } else {
        assert(names_distinct(next)) by {
            assert forall|a: int, b: int| 0 <= a < b < next.len() implies next[a].0
                != next[b].0 by {
                if b < pairs.len() {
                    assert(pairs[a].0 != pairs[b].0);
                } else {
                    assert(pairs[a].0 != name);
                }
            }
        }
        assert(next.drop_last() =~= pairs);
    }
}

/// A map from header names to values that remembers the order in which the
/// names were first written. Names are told apart exactly as written.
#[derive(Debug)]
pub struct HeaderMap {
    entries: Vec<Header>,
}

impl Clone for HeaderMap {
    fn clone(&self) -> (copy: HeaderMap)
        ensures
            copy.order() == self.order(),
    {
        proof {
            use_type_invariant(self);
        }
        let entries = copy_headers(&self.entries);
        HeaderMap { entries }
    }
}

/// Copies a list of headers.
pub fn copy_headers(headers: &Vec<Header>) -> (copy: Vec<Header>)
    ensures
        pairs_of(copy@) == pairs_of(headers@),
{
    let mut copy: Vec<Header> = Vec::new();
    let mut i: usize = 0;
    while i < headers.len()
        invariant
            i <= headers.len(),
            copy.len() == i,
            forall|k: int| 0 <= k < i ==> (#[trigger] copy[k])@ == headers[k]@,
        decreases headers.len() - i,
    {
        copy.push(headers[i].clone());
        i += 1;
    }
    assert(pairs_of(copy@) =~= pairs_of(headers@));
    copy
}

impl View for HeaderMap {
    type V = Map<Seq<char>, Seq<char>>;

    open spec fn view(&self) -> Map<Seq<char>, Seq<char>> {
        written(self.order())
    }
}

impl HeaderMap {
    /// The pairs held, in the order in which their names were first written.
    pub closed spec fn order(&self) -> Seq<Pair> {
        pairs_of(self.entries@)
    }

    /// No name is held twice.
    pub open spec fn wf(&self) -> bool {
        names_distinct(self.order())
    }

    #[verifier::type_invariant]
    closed spec fn distinct(&self) -> bool {
        names_distinct(pairs_of(self.entries@))
    }

    /// A map without headers.
    pub fn new() -> (map: HeaderMap)
        ensures
            map.order() == Seq::<Pair>::empty(),
            map@ == Map::<Seq<char>, Seq<char>>::empty(),
            map.wf(),
    {
        let map = HeaderMap { entries: Vec::new() };
        assert(map.order() =~= Seq::<Pair>::empty());
        map
    }

    /// The number of headers held.
    pub fn len(&self) -> (n: usize)
        ensures
            n == self.order().len(),
            n == self@.dom().len(),
    {
        proof {
            use_type_invariant(self);
            lemma_written_len(self.order());
        }
        self.entries.len()
    }

    /// True when the map holds no header.
    pub fn is_empty(&self) -> (empty: bool)
        ensures
            empty == (self.order().len() == 0),
            empty == (self@ == Map::<Seq<char>, Seq<char>>::empty()),
    {
        proof {
            use_type_invariant(self);
            lemma_written_len(self.order());
            if self.order().len() > 0 {
                lemma_written_value(self.order(), 0);
            }
        }
        self.entries.len() == 0
    }

    /// The headers held, in order.
    pub fn entries(&self) -> (entries: &Vec<Header>)
        ensures
            pairs_of(entries@) == self.order(),
            self.wf(),
    {
        proof {
            use_type_invariant(self);
        }
        &self.entries
    }

    /// Gives the headers up, in order.
    pub fn into_entries(self) -> (entries: Vec<Header>)
        ensures
            pairs_of(entries@) == self.order(),
            self.wf(),
    {
        proof {
            use_type_invariant(&self);
        }
        self.entries
    }

    fn find(&self, name: &String) -> (found: Option<usize>)
        ensures
            match found {
                Some(i) => i < self.order().len() && self.order()[i as int].0 == name@,
                None => !names(self.order(), name@),
            },
    {
        let mut i: usize = 0;
        while i < self.entries.len()
            invariant
                i <= self.entries.len(),
                forall|k: int| 0 <= k < i ==> (#[trigger] self.order()[k]).0 != name@,
            decreases self.entries.len() - i,
        {
            if self.entries[i].name == *name {
                return Some(i);
            }
            i += 1;
        }
        None
    }

    /// The value held under a name, if there is one.
    pub fn get(&self, name: &str) -> (value: Option<&String>)
        ensures
            self.wf(),
            match value {
                Some(v) => self@.dom().contains(name@) && self@[name@] == v@,
                None => !self@.dom().contains(name@),
            },
    {
        let owned = name.to_owned();
        proof {
            use_type_invariant(self);
            lemma_written_dom(self.order(), name@);
        }
        match self.find(&owned) {
            Some(i) => {
                proof {
                    lemma_written_value(self.order(), i as int);
                }
                Some(&self.entries[i].value)
            },
            None => None,
        }
    }

    /// True when a value is held under the name.
    pub fn contains(&self, name: &str) -> (held: bool)
        ensures
            held == self@.dom().contains(name@),
    {
        self.get(name).is_some()
    }

    /// The map with one more header written.
    fn with(self, name: String, value: String) -> (map: HeaderMap)
        ensures
            map.order() == with_pair(self.order(), name@, value@),
    {
        proof {
            use_type_invariant(&self);
            lemma_with_pair(self.order(), name@, value@);
        }
        let found = self.find(&name);
        let ghost before = self.order();
        let mut entries = self.entries;
        match found {
            Some(i) => {
                entries.set(i, Header { name, value });
            },
            None => {
                entries.push(Header { name, value });
            },
        }
        assert(pairs_of(entries@) =~= with_pair(before, name@, value@));
        HeaderMap { entries }
    }

    /// Writes a header: a value already held under the name is replaced, a
    /// new name is added behind the others.
    pub fn insert(&mut self, name: String, value: String)
        ensures
            final(self).order() == with_pair(old(self).order(), name@, value@),
            final(self)@ == old(self)@.insert(name@, value@),
            final(self).wf(),
    {
        proof {
            use_type_invariant(&*self);
            lemma_with_pair(self.order(), name@, value@);
        }
        let mut held = HeaderMap::new();
        core::mem::swap(self, &mut held);
        *self = held.with(name, value);
    }
}

} // verus!
