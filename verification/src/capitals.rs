//! A table from countries to their capitals: inserting replaces an
//! earlier capital of the same country, and looking up gives the capital.
use vstd::prelude::*;

verus! {

/// The map that a list of (country, capital) pairs holds, a later pair of
/// a country taking the place of an earlier one.
pub open spec fn to_map(s: Seq<(String, String)>) -> Map<Seq<char>, Seq<char>>
    decreases s.len(),
{
    if s.len() == 0 {
        Map::empty()
    } else {
        to_map(s.drop_last()).insert(s.last().0@, s.last().1@)
    }
}

/// No country occurs twice.
pub open spec fn keys_distinct(s: Seq<(String, String)>) -> bool {
    forall|i: int, j: int| 0 <= i < j < s.len() ==> s[i].0@ != s[j].0@
}

/// A country is in the map exactly when some pair names it.
proof fn lemma_to_map_dom(s: Seq<(String, String)>, k: Seq<char>)
    ensures
        to_map(s).dom().contains(k) <==> exists|i: int| 0 <= i < s.len() && s[i].0@ == k,
    decreases s.len(),
{
    if s.len() > 0 {
        lemma_to_map_dom(s.drop_last(), k);
        if to_map(s.drop_last()).dom().contains(k) {
            let i = choose|i: int| 0 <= i < s.len() - 1 && s.drop_last()[i].0@ == k;
            assert(s[i].0@ == k);
        }
        if exists|i: int| 0 <= i < s.len() && s[i].0@ == k {
            let i = choose|i: int| 0 <= i < s.len() && s[i].0@ == k;
            if i < s.len() - 1 {
                assert(s.drop_last()[i].0@ == k);
            }
        }
    }
}

/// With distinct countries, the map gives each pair's capital.
proof fn lemma_to_map_value(s: Seq<(String, String)>, i: int)
    requires
        keys_distinct(s),
        0 <= i < s.len(),
    ensures
        to_map(s).dom().contains(s[i].0@),
        to_map(s)[s[i].0@] == s[i].1@,
    decreases s.len(),
{
    if i < s.len() - 1 {
        assert(s.drop_last()[i] == s[i]);
        lemma_to_map_value(s.drop_last(), i);
    }
}

/// Replacing the capital of pair `i` replaces it in the map.
proof fn lemma_to_map_update(s: Seq<(String, String)>, i: int, e: (String, String))
    requires
        keys_distinct(s),
        0 <= i < s.len(),
        e.0@ == s[i].0@,
    ensures
        to_map(s.update(i, e)) == to_map(s).insert(e.0@, e.1@),
    decreases s.len(),
{
    let t = s.update(i, e);
    if i == s.len() - 1 {
        assert(t.drop_last() =~= s.drop_last());
        assert(to_map(t) =~= to_map(s).insert(e.0@, e.1@));
    } else {
        assert(t.drop_last() =~= s.drop_last().update(i, e));
        lemma_to_map_update(s.drop_last(), i, e);
        assert(s.last().0@ != e.0@);
        assert(to_map(t) =~= to_map(s).insert(e.0@, e.1@));
    }
}

/// Countries and their capitals.
pub struct Capitals {
    entries: Vec<(String, String)>,
}

impl View for Capitals {
    type V = Map<Seq<char>, Seq<char>>;

    closed spec fn view(&self) -> Map<Seq<char>, Seq<char>> {
        to_map(self.entries@)
    }
}

impl Capitals {
    #[verifier::type_invariant]
    spec fn distinct(self) -> bool {
        keys_distinct(self.entries@)
    }

    /// An empty table.
    pub fn new() -> (c: Self)
        ensures
            c@ == Map::<Seq<char>, Seq<char>>::empty(),
    {
        Capitals { entries: Vec::new() }
    }

    /// The index of the pair of `country`, if there is one.
    fn find(&self, country: &String) -> (r: Option<usize>)
        ensures
            match r {
                Some(i) => i < self.entries@.len() && self.entries@[i as int].0@ == country@,
                None => forall|i: int|
                    0 <= i < self.entries@.len() ==> self.entries@[i].0@ != country@,
            },
    {
        let mut i: usize = 0;
        while i < self.entries.len()
            invariant
                i <= self.entries@.len(),
                forall|j: int| 0 <= j < i ==> self.entries@[j].0@ != country@,
            decreases self.entries@.len() - i,
        {
            if self.entries[i].0 == *country {
                return Some(i);
            }
            i = i + 1;
        }
        None
    }

    /// Sets the capital of `country`, giving back the capital it replaces.
    pub fn insert(&mut self, country: &str, capital: &str) -> (previous: Option<String>)
        ensures
            final(self)@ == old(self)@.insert(country@, capital@),
            match previous {
                Some(p) => old(self)@.dom().contains(country@) && p@ == old(self)@[country@],
                None => !old(self)@.dom().contains(country@),
            },
    {
        proof {
            use_type_invariant(&*self);
        }
        let key = String::from_str(country);
        let value = String::from_str(capital);
        let ghost s = self.entries@;
        match self.find(&key) {
            Some(i) => {
                proof {
                    lemma_to_map_value(s, i as int);
                    lemma_to_map_update(s, i as int, (key, value));
                }
                let previous = self.entries[i].1.clone();
                let mut entries: Vec<(String, String)> = Vec::new();
                std::mem::swap(&mut entries, &mut self.entries);
                entries.set(i, (key, value));
                assert(entries@ == s.update(i as int, (key, value)));
                self.entries = entries;
                Some(previous)
            },
            None => {
                proof {
                    lemma_to_map_dom(s, country@);
                }
                let mut entries: Vec<(String, String)> = Vec::new();
                std::mem::swap(&mut entries, &mut self.entries);
                entries.push((key, value));
                assert(entries@.drop_last() =~= s);
                self.entries = entries;
                None
            },
        }
    }

    /// The capital of `country`, if the table has one.
    pub fn get(&self, country: &str) -> (r: Option<String>)
        ensures
            match r {
                Some(c) => self@.dom().contains(country@) && c@ == self@[country@],
                None => !self@.dom().contains(country@),
            },
    {
        proof {
            use_type_invariant(self);
        }
        let key = String::from_str(country);
        match self.find(&key) {
            Some(i) => {
                proof {
                    lemma_to_map_value(self.entries@, i as int);
                }
                Some(self.entries[i].1.clone())
            },
            None => {
                proof {
                    lemma_to_map_dom(self.entries@, country@);
                }
                None
            },
        }
    }
}

/// A lookup gives the capital last set for the country, and setting one
/// country's capital leaves every other country's as it was.
pub proof fn lemma_insert_then_get(m: Map<Seq<char>, Seq<char>>, country: Seq<char>, capital: Seq<char>, other: Seq<char>)
    requires
        other != country,
    ensures
        m.insert(country, capital).dom().contains(country),
        m.insert(country, capital)[country] == capital,
        m.insert(country, capital).dom().contains(other) == m.dom().contains(other),
        m.dom().contains(other) ==> m.insert(country, capital)[other] == m[other],
{
}

} // verus!
