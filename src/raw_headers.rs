//! The header fields of a message as read from the wire: a map from
//! lower-cased field name to value, kept in the order names first appeared.

use vstd::prelude::*;

use crate::text::{ascii_lowercase, ascii_lowercase_of, str_eq};

verus! {

pub type Fields = Seq<(Seq<char>, Seq<char>)>;

/// The map that a list of fields with distinct names stands for.
pub open spec fn fields_map(es: Fields) -> Map<Seq<char>, Seq<char>>
    decreases es.len(),
{
    if es.len() == 0 {
        Map::empty()
    } else {
        fields_map(es.drop_last()).insert(es.last().0, es.last().1)
    }
}

pub open spec fn names_distinct(es: Fields) -> bool {
    forall|i: int, j: int| 0 <= i < j < es.len() ==> #[trigger] es[i].0 != #[trigger] es[j].0
}

pub open spec fn pair_views(v: Seq<(String, String)>) -> Fields {
    v.map_values(|p: (String, String)| (p.0@, p.1@))
}

proof fn lemma_fields_map_lookup(es: Fields)
    requires
        names_distinct(es),
    ensures
        forall|k: Seq<char>|
            #[trigger] fields_map(es).dom().contains(k) <==> exists|i: int|
                0 <= i < es.len() && #[trigger] es[i].0 == k,
        forall|i: int| 0 <= i < es.len() ==> #[trigger] fields_map(es)[es[i].0] == es[i].1,
    decreases es.len(),
{
    if es.len() > 0 {
        let p = es.drop_last();
        let last = es.last();
        assert forall|a: int, b: int| 0 <= a < b < p.len() implies #[trigger] p[a].0 != #[trigger] p[
            b
        ].0 by {
            assert(p[a] == es[a] && p[b] == es[b]);
        }
        lemma_fields_map_lookup(p);
        assert(fields_map(es) == fields_map(p).insert(last.0, last.1));
        assert forall|k: Seq<char>| #[trigger]
            fields_map(es).dom().contains(k) <==> exists|i: int|
                0 <= i < es.len() && #[trigger] es[i].0 == k by {
            if fields_map(es).dom().contains(k) {
                if k == last.0 {
                    assert(es[es.len() - 1].0 == k);
                } else {
                    assert(fields_map(p).dom().contains(k));
                    let i = choose|i: int| 0 <= i < p.len() && #[trigger] p[i].0 == k;
                    assert(p[i] == es[i]);
                    assert(es[i].0 == k);
                }
            }
            if exists|i: int| 0 <= i < es.len() && #[trigger] es[i].0 == k {
                let i = choose|i: int| 0 <= i < es.len() && #[trigger] es[i].0 == k;
                if i < p.len() {
                    assert(p[i] == es[i]);
                    assert(p[i].0 == k);
                    assert(fields_map(p).dom().contains(k));
                }
            }
        }
        assert forall|i: int| 0 <= i < es.len() implies #[trigger] fields_map(es)[es[i].0]
            == es[i].1 by {
            if i < p.len() {
                assert(p[i] == es[i]);
                assert(es[i].0 != es[es.len() - 1].0);
                assert(fields_map(p)[p[i].0] == p[i].1);
            }
        }
    }
}

proof fn lemma_fields_map_update(es: Fields, i: int, v: Seq<char>)
    requires
        names_distinct(es),
        0 <= i < es.len(),
    ensures
        fields_map(es.update(i, (es[i].0, v))) == fields_map(es).insert(es[i].0, v),
    decreases es.len(),
{
    let k = es[i].0;
    let u = es.update(i, (k, v));
    let p = es.drop_last();
    if i == es.len() - 1 {
        assert(u.drop_last() =~= p);
        assert(fields_map(u) =~= fields_map(es).insert(k, v));
    } else {
        assert(u.drop_last() =~= p.update(i, (k, v)));
        lemma_fields_map_update(p, i, v);
        assert(es.last().0 != k);
        assert(fields_map(u) =~= fields_map(es).insert(k, v));
    }
}

proof fn lemma_fields_map_remove(es: Fields, i: int)
    requires
        names_distinct(es),
        0 <= i < es.len(),
    ensures
        fields_map(es.remove(i)) == fields_map(es).remove(es[i].0),
        names_distinct(es.remove(i)),
    decreases es.len(),
{
    let k = es[i].0;
    let p = es.drop_last();
    let r = es.remove(i);
    if i == es.len() - 1 {
        assert(r =~= p);
        lemma_fields_map_lookup(p);
        assert(!fields_map(p).dom().contains(k));
        assert(fields_map(r) =~= fields_map(es).remove(k));
    } else {
        lemma_fields_map_remove(p, i);
        assert(r.drop_last() =~= p.remove(i));
        assert(r.last() == es.last());
        assert(es.last().0 != k);
        assert(fields_map(r) =~= fields_map(es).remove(k));
    }
    assert forall|a: int, b: int| 0 <= a < b < r.len() implies #[trigger] r[a].0 != #[trigger] r[
        b
    ].0 by {
        let a2 = if a < i { a } else { a + 1 };
        let b2 = if b < i { b } else { b + 1 };
        assert(r[a] == es[a2]);
        assert(r[b] == es[b2]);
    }
}

/// Header fields by lower-cased name; a later value for a name replaces the earlier one.
#[derive(Debug)]
pub struct RawHeaders {
    entries: Vec<(String, String)>,
}

impl RawHeaders {
    /// No name appears twice.
    pub closed spec fn wf(&self) -> bool {
        names_distinct(pair_views(self.entries@))
    }

    /// The fields in the order their names first appeared.
    pub closed spec fn fields(&self) -> Fields {
        pair_views(self.entries@)
    }

    pub open spec fn view(&self) -> Map<Seq<char>, Seq<char>> {
        fields_map(self.fields())
    }

    pub fn new() -> (r: RawHeaders)
        ensures
            r.wf(),
            r.fields() == Seq::<(Seq<char>, Seq<char>)>::empty(),
            r@ == Map::<Seq<char>, Seq<char>>::empty(),
    {
        let r = RawHeaders { entries: Vec::new() };
        assert(r.fields() =~= Seq::<(Seq<char>, Seq<char>)>::empty());
        r
    }

    /// Position of the field named exactly `name`.
    fn position(&self, name: &str) -> (r: Option<usize>)
        ensures
            r matches Some(i) ==> i < self.fields().len() && self.fields()[i as int].0 == name@,
            r is None ==> forall|i: int|
                0 <= i < self.fields().len() ==> #[trigger] self.fields()[i].0 != name@,
    {
        let mut i: usize = 0;
        while i < self.entries.len()
            invariant
                i <= self.entries.len(),
                self.fields() == pair_views(self.entries@),
                forall|k: int| 0 <= k < i ==> #[trigger] self.fields()[k].0 != name@,
            decreases self.entries.len() - i,
        {
            if str_eq(self.entries[i].0.as_str(), name) {
                return Some(i);
            }
            i = i + 1;
        }
        None
    }

    /// Records a field; its name is compared without regard to ASCII case.
    pub fn insert(&mut self, name: &str, value: String)
        requires
            old(self).wf(),
        ensures
            final(self).wf(),
            final(self)@ == old(self)@.insert(ascii_lowercase_of(name@), value@),
            old(self)@.dom().contains(ascii_lowercase_of(name@)) ==> final(self).fields().len()
                == old(self).fields().len(),
            !old(self)@.dom().contains(ascii_lowercase_of(name@)) ==> final(self).fields()
                == old(self).fields().push((ascii_lowercase_of(name@), value@)),
    {
        proof {
            lemma_fields_map_lookup(self.fields());
        }
        let key = ascii_lowercase(name);
        match self.position(key.as_str()) {
            Some(i) => {
                let ghost es = self.fields();
                proof {
                    lemma_fields_map_update(es, i as int, value@);
                }
                let ghost v = value@;
                self.entries.set(i, (key, value));
                assert(self.fields() =~= es.update(i as int, (es[i as int].0, v)));
            },
            None => {
                let ghost es = self.fields();
                let ghost k = key@;
                let ghost v = value@;
                assert(!old(self)@.dom().contains(k));
                self.entries.push((key, value));
                assert(self.fields() =~= es.push((k, v)));
                assert(self.fields().drop_last() =~= es);
            },
        }
    }

    /// Takes out the field named exactly `name`, giving back its value.
    pub fn remove(&mut self, name: &str) -> (r: Option<String>)
        requires
            old(self).wf(),
        ensures
            final(self).wf(),
            final(self)@ == old(self)@.remove(name@),
            r is Some <==> old(self)@.dom().contains(name@),
            r matches Some(v) ==> v@ == old(self)@[name@],
    {
        proof {
            lemma_fields_map_lookup(self.fields());
        }
        match self.position(name) {
            Some(i) => {
                let ghost es = self.fields();
                proof {
                    lemma_fields_map_remove(es, i as int);
                }
                let (_, v) = self.entries.remove(i);
                assert(self.fields() =~= es.remove(i as int));
                Some(v)
            },
            None => {
                assert(old(self)@.remove(name@) =~= old(self)@);
                None
            },
        }
    }

    /// The value of the field named exactly `name`.
    pub fn get(&self, name: &str) -> (r: Option<&String>)
        requires
            self.wf(),
        ensures
            r is Some <==> self@.dom().contains(name@),
            r matches Some(v) ==> v@ == self@[name@],
    {
        proof {
            lemma_fields_map_lookup(self.fields());
        }
        match self.position(name) {
            Some(i) => Some(&self.entries[i].1),
            None => None,
        }
    }

    pub fn len(&self) -> (r: usize)
        ensures
            r == self.fields().len(),
    {
        self.entries.len()
    }

    /// The `i`-th field as (name, value).
    pub fn entry(&self, i: usize) -> (r: (&String, &String))
        requires
            i < self.fields().len(),
        ensures
            r.0@ == self.fields()[i as int].0,
            r.1@ == self.fields()[i as int].1,
    {
        (&self.entries[i].0, &self.entries[i].1)
    }
}

} // verus!
