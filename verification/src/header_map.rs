//! The header fields of a request: a map from field name to field value in
//! which a name occurs at most once.

use vstd::prelude::*;

verus! {

/// One header field.
#[derive(Debug)]
struct HeaderField {
    name: String,
    value: String,
}

/// True when `entries[i]` carries the name `name`.
spec fn names(entries: Seq<HeaderField>, name: Seq<char>, i: int) -> bool {
    0 <= i < entries.len() && entries[i].name@ == name
}

/// True when no two entries carry the same name.
spec fn distinct(entries: Seq<HeaderField>) -> bool {
    forall|i: int, j: int|
        0 <= i < j < entries.len() ==> (#[trigger] entries[i]).name@ != (#[trigger] entries[j]).name@
}

/// The map that a list of entries with distinct names stands for.
spec fn map_of(entries: Seq<HeaderField>) -> Map<Seq<char>, Seq<char>> {
    Map::new(
        |name: Seq<char>| exists|i: int| names(entries, name, i),
        |name: Seq<char>| entries[choose|i: int| names(entries, name, i)].value@,
    )
}

/// In a list with distinct names, the entry at `i` is what the map holds for
/// its name.
proof fn lemma_entry(entries: Seq<HeaderField>, i: int)
    requires
        distinct(entries),
        0 <= i < entries.len(),
    ensures
        map_of(entries).contains_key(entries[i].name@),
        map_of(entries)[entries[i].name@] == entries[i].value@,
{
    let name = entries[i].name@;
    assert(names(entries, name, i));
    let j = choose|j: int| names(entries, name, j);
    if j < i {
        assert(entries[j].name@ != entries[i].name@);
    } else if i < j {
        assert(entries[i].name@ != entries[j].name@);
    }
}

/// Appending an entry under a name not yet present inserts it.
proof fn lemma_append(entries: Seq<HeaderField>, field: HeaderField)
    requires
        distinct(entries),
        forall|i: int| 0 <= i < entries.len() ==> (#[trigger] entries[i]).name@ != field.name@,
    ensures
        distinct(entries.push(field)),
        map_of(entries.push(field)) == map_of(entries).insert(field.name@, field.value@),
{
    let after = entries.push(field);
    let last = entries.len() as int;
    assert(distinct(after));
    let want = map_of(entries).insert(field.name@, field.value@);
    assert forall|name: Seq<char>| map_of(after).contains_key(name) <==> want.contains_key(
        name,
    ) by {
        if map_of(after).contains_key(name) {
            let i = choose|i: int| names(after, name, i);
            if i < last {
                assert(names(entries, name, i));
            }
        }
        if want.contains_key(name) {
            if name == field.name@ {
                assert(names(after, name, last));
            } else {
                let i = choose|i: int| names(entries, name, i);
                assert(names(after, name, i));
            }
        }
    }
    assert forall|name: Seq<char>| map_of(after).contains_key(name) implies map_of(after)[name]
        == want[name] by {
        let i = choose|i: int| names(after, name, i);
        lemma_entry(after, i);
        if i < last {
            lemma_entry(entries, i);
        }
    }
    assert(map_of(after) =~= want);
}

/// Replacing the entry that carries a name by another of that name inserts
/// the new value.
proof fn lemma_replace(entries: Seq<HeaderField>, at: int, field: HeaderField)
    requires
        distinct(entries),
        0 <= at < entries.len(),
        entries[at].name@ == field.name@,
    ensures
        distinct(entries.update(at, field)),
        map_of(entries.update(at, field)) == map_of(entries).insert(field.name@, field.value@),
{
    let after = entries.update(at, field);
    assert forall|i: int, j: int| 0 <= i < j < after.len() implies (#[trigger] after[i]).name@ != (
    #[trigger] after[j]).name@ by {
        assert(after[i].name@ == entries[i].name@);
        assert(after[j].name@ == entries[j].name@);
    }
    let want = map_of(entries).insert(field.name@, field.value@);
    assert forall|name: Seq<char>| map_of(after).contains_key(name) <==> want.contains_key(
        name,
    ) by {
        if map_of(after).contains_key(name) {
            let i = choose|i: int| names(after, name, i);
            assert(after[i].name@ == entries[i].name@);
            assert(names(entries, name, i));
        }
        if want.contains_key(name) {
            if name == field.name@ {
                assert(names(after, name, at));
            } else {
                let i = choose|i: int| names(entries, name, i);
                assert(after[i].name@ == entries[i].name@);
                assert(names(after, name, i));
            }
        }
    }
    assert forall|name: Seq<char>| map_of(after).contains_key(name) implies map_of(after)[name]
        == want[name] by {
        let i = choose|i: int| names(after, name, i);
        lemma_entry(after, i);
        assert(after[i].name@ == entries[i].name@);
        if i != at {
            lemma_entry(entries, i);
        }
    }
    assert(map_of(after) =~= want);
}

/// A list with distinct names stands for a finite map with one key per entry.
proof fn lemma_size(entries: Seq<HeaderField>)
    requires
        distinct(entries),
    ensures
        map_of(entries).dom().finite(),
        map_of(entries).dom().len() == entries.len(),
    decreases entries.len(),
{
    if entries.len() == 0 {
        assert(map_of(entries).dom() =~= Set::<Seq<char>>::empty());
    } else {
        let before = entries.drop_last();
        let last = entries.last();
        assert(distinct(before)) by {
            assert forall|i: int, j: int| 0 <= i < j < before.len() implies (#[trigger] before[i]).name@
                != (#[trigger] before[j]).name@ by {
                assert(before[i] == entries[i]);
                assert(before[j] == entries[j]);
            }
        }
        lemma_size(before);
        assert forall|i: int| 0 <= i < before.len() implies (#[trigger] before[i]).name@
            != last.name@ by {
            assert(before[i] == entries[i]);
            assert(entries[i].name@ != entries[entries.len() - 1].name@);
        }
        lemma_append(before, last);
        assert(before.push(last) =~= entries);
        assert(!map_of(before).dom().contains(last.name@)) by {
            if map_of(before).contains_key(last.name@) {
                let i = choose|i: int| names(before, last.name@, i);
                assert(before[i].name@ == last.name@);
            }
        }
        assert(map_of(entries).dom() =~= map_of(before).dom().insert(last.name@));
    }
}

/// Header fields by name. A name is held at most once; inserting under a name
/// already present replaces its value.
#[derive(Debug)]
pub struct HeaderMap {
    entries: Vec<HeaderField>,
}

impl View for HeaderMap {
    type V = Map<Seq<char>, Seq<char>>;

    closed spec fn view(&self) -> Map<Seq<char>, Seq<char>> {
        map_of(self.entries@)
    }
}

impl HeaderMap {
    #[verifier::type_invariant]
    spec fn well_formed(self) -> bool {
        distinct(self.entries@)
    }

    /// A map with no fields.
    pub fn new() -> (m: Self)
        ensures
            m@ == Map::<Seq<char>, Seq<char>>::empty(),
    {
        let m = Self { entries: Vec::new() };
        assert(m@ =~= Map::<Seq<char>, Seq<char>>::empty());
        m
    }

    /// Position of the entry named `name`, or the number of entries if no
    /// entry carries that name.
    fn find(entries: &Vec<HeaderField>, name: &String) -> (at: usize)
        ensures
            at <= entries.len(),
            at < entries.len() ==> entries@[at as int].name@ == name@,
            forall|i: int| 0 <= i < at ==> (#[trigger] entries@[i]).name@ != name@,
    {
        let mut at: usize = 0;
        while at < entries.len()
            invariant
                at <= entries.len(),
                forall|i: int| 0 <= i < at ==> (#[trigger] entries@[i]).name@ != name@,
            decreases entries.len() - at,
        {
            if entries[at].name == *name {
                return at;
            }
            at += 1;
        }
        at
    }

    /// Sets the value of `name` to `value`, replacing any earlier value.
    pub fn insert(&mut self, name: String, value: String)
        ensures
            final(self)@ == old(self)@.insert(name@, value@),
    {
        proof {
            use_type_invariant(&*self);
        }
        let mut entries: Vec<HeaderField> = Vec::new();
        std::mem::swap(&mut entries, &mut self.entries);
        let at = Self::find(&entries, &name);
        let field = HeaderField { name, value };
        proof {
            if at < entries.len() {
                lemma_replace(entries@, at as int, field);
            } else {
                lemma_append(entries@, field);
            }
        }
        if at < entries.len() {
            entries.set(at, field);
        } else {
            entries.push(field);
        }
        self.entries = entries;
    }

    /// The value held for `name`, if there is one.
    pub fn get(&self, name: &str) -> (value: Option<&String>)
        ensures
            match value {
                Some(v) => self@.contains_key(name@) && v@ == self@[name@],
                None => !self@.contains_key(name@),
            },
    {
        proof {
            use_type_invariant(self);
        }
        let wanted = name.to_owned();
        let at = Self::find(&self.entries, &wanted);
        if at < self.entries.len() {
            proof {
                lemma_entry(self.entries@, at as int);
            }
            Some(&self.entries[at].value)
        } else {
            assert forall|i: int| !names(self.entries@, name@, i) by {
                if 0 <= i < self.entries@.len() {
                    assert(self.entries@[i].name@ != name@);
                }
            }
            None
        }
    }

    /// The number of fields held.
    pub fn len(&self) -> (n: usize)
        ensures
            self@.dom().finite(),
            n == self@.dom().len(),
    {
        proof {
            use_type_invariant(self);
            lemma_size(self.entries@);
        }
        self.entries.len()
    }

    /// True when a value is held for `name`.
    pub fn contains_key(&self, name: &str) -> (held: bool)
        ensures
            held == self@.contains_key(name@),
    {
        self.get(name).is_some()
    }
}

impl Clone for HeaderMap {
    /// A copy of the map, holding the same fields.
    fn clone(&self) -> (m: Self)
        ensures
            m@ == self@,
    {
        proof {
            use_type_invariant(self);
        }
        let mut entries: Vec<HeaderField> = Vec::new();
        let mut i: usize = 0;
        while i < self.entries.len()
            invariant
                i <= self.entries.len(),
                entries@.len() == i,
                forall|j: int| 0 <= j < i ==> entries@[j] == self.entries@[j],
            decreases self.entries.len() - i,
        {
            let field = &self.entries[i];
            entries.push(HeaderField { name: field.name.clone(), value: field.value.clone() });
            i += 1;
        }
        assert(entries@ =~= self.entries@);
        Self { entries }
    }
}

} // verus!
