//! A table of values under names.
use crate::text::{copy, same};
use vstd::prelude::*;

verus! {

broadcast use vstd::string::group_string_axioms;

/// A table of values under names, each name once.
pub struct Registry<V> {
    entries: Vec<(String, V)>,
}

/// What entries say, the later ones before the earlier ones.
pub open spec fn as_map<V>(entries: Seq<(String, V)>) -> Map<Seq<char>, V>
    decreases entries.len(),
{
    if entries.len() == 0 {
        Map::empty()
    } else {
        as_map(entries.drop_last()).insert(entries.last().0@, entries.last().1)
    }
}

/// Whether no name occurs twice.
pub open spec fn names_differ<V>(entries: Seq<(String, V)>) -> bool {
    forall|i: int, j: int|
        0 <= i < j < entries.len() ==> (#[trigger] entries[i]).0@ != (#[trigger] entries[j]).0@
}

proof fn lemma_domain<V>(entries: Seq<(String, V)>, name: Seq<char>)
    ensures
        as_map(entries).dom().contains(name) <==> exists|i: int|
            0 <= i < entries.len() && (#[trigger] entries[i]).0@ == name,
    decreases entries.len(),
{
    if entries.len() > 0 {
        let rest = entries.drop_last();
        lemma_domain(rest, name);
        if entries.last().0@ == name {
            assert(entries[entries.len() - 1].0@ == name);
        }
        if exists|i: int| 0 <= i < rest.len() && (#[trigger] rest[i]).0@ == name {
            let i = choose|i: int| 0 <= i < rest.len() && (#[trigger] rest[i]).0@ == name;
            assert(entries[i].0@ == name);
        }
        if exists|i: int| 0 <= i < entries.len() && (#[trigger] entries[i]).0@ == name {
            let i = choose|i: int| 0 <= i < entries.len() && (#[trigger] entries[i]).0@ == name;
            if i < rest.len() {
                assert(rest[i].0@ == name);
            }
        }
    }
}

proof fn lemma_entry<V>(entries: Seq<(String, V)>, i: int)
    requires
        names_differ(entries),
        0 <= i < entries.len(),
    ensures
        as_map(entries).dom().contains(entries[i].0@),
        as_map(entries)[entries[i].0@] == entries[i].1,
    decreases entries.len(),
{
    if i < entries.len() - 1 {
        let rest = entries.drop_last();
        assert(rest[i] == entries[i]);
        assert forall|a: int, b: int| 0 <= a < b < rest.len() implies (#[trigger] rest[a]).0@ != (
        #[trigger] rest[b]).0@ by {
            assert(rest[a] == entries[a] && rest[b] == entries[b]);
        }
        lemma_entry(rest, i);
        assert(entries[i].0@ != entries[entries.len() - 1].0@);
    }
}

proof fn lemma_removed<V>(entries: Seq<(String, V)>, i: int)
    requires
        names_differ(entries),
        0 <= i < entries.len(),
    ensures
        names_differ(entries.remove(i)),
        as_map(entries.remove(i)) == as_map(entries).remove(entries[i].0@),
    decreases entries.len(),
{
    let left = entries.remove(i);
    assert forall|a: int, b: int| 0 <= a < b < left.len() implies (#[trigger] left[a]).0@ != (
    #[trigger] left[b]).0@ by {
        let c = if a < i {
            a
        } else {
            a + 1
        };
        let d = if b < i {
            b
        } else {
            b + 1
        };
        assert(left[a] == entries[c] && left[b] == entries[d]);
    }
    let rest = entries.drop_last();
    let name = entries[i].0@;
    if i == entries.len() - 1 {
        assert(left =~= rest);
        lemma_domain(rest, name);
        assert forall|j: int| 0 <= j < rest.len() implies (#[trigger] rest[j]).0@ != name by {
            assert(rest[j] == entries[j]);
        }
        assert(as_map(entries).remove(name) =~= as_map(rest));
    } else {
        assert(rest[i] == entries[i]);
        assert forall|a: int, b: int| 0 <= a < b < rest.len() implies (#[trigger] rest[a]).0@ != (
        #[trigger] rest[b]).0@ by {
            assert(rest[a] == entries[a] && rest[b] == entries[b]);
        }
        lemma_removed(rest, i);
        assert(left.drop_last() =~= rest.remove(i));
        assert(left.last() == entries.last());
        assert(entries[i].0@ != entries[entries.len() - 1].0@);
        assert(as_map(left) =~= as_map(entries).remove(name));
    }
}

impl<V> View for Registry<V> {
    type V = Map<Seq<char>, V>;

    closed spec fn view(&self) -> Map<Seq<char>, V> {
        as_map(self.entries@)
    }
}

impl<V> Registry<V> {
    #[verifier::type_invariant]
    spec fn well_formed(self) -> bool {
        names_differ(self.entries@)
    }

    pub fn new() -> (res: Self)
        ensures
            res@ == Map::<Seq<char>, V>::empty(),
    {
        Registry { entries: Vec::new() }
    }

    fn position(&self, name: &str) -> (res: usize)
        ensures
            res <= self.entries@.len(),
            res < self.entries@.len() ==> self.entries@[res as int].0@ == name@,
            res == self.entries@.len() <==> !self@.dom().contains(name@),
    {
        let mut i: usize = 0;
        while i < self.entries.len() && !same(self.entries[i].0.as_str(), name)
            invariant
                i <= self.entries@.len(),
                forall|j: int| 0 <= j < i ==> (#[trigger] self.entries@[j]).0@ != name@,
            decreases self.entries@.len() - i,
        {
            i += 1;
        }
        proof {
            lemma_domain(self.entries@, name@);
        }
        i
    }

    pub fn has(&self, name: &str) -> (res: bool)
        ensures
            res == self@.dom().contains(name@),
    {
        self.position(name) < self.entries.len()
    }

    pub fn get(&self, name: &str) -> (res: Option<&V>)
        ensures
            match res {
                Some(value) => self@.dom().contains(name@) && *value == self@[name@],
                None => !self@.dom().contains(name@),
            },
    {
        proof {
            use_type_invariant(self);
        }
        let i = self.position(name);
        if i < self.entries.len() {
            proof {
                lemma_entry(self.entries@, i as int);
            }
            Some(&self.entries[i].1)
        } else {
            None
        }
    }

    /// Takes the value under `name` out of the table.
    pub fn remove(&mut self, name: &str) -> (res: Option<V>)
        ensures
            final(self)@ == old(self)@.remove(name@),
            match res {
                Some(value) => old(self)@.dom().contains(name@) && value == old(self)@[name@],
                None => !old(self)@.dom().contains(name@),
            },
    {
        proof {
            use_type_invariant(&*self);
        }
        let i = self.position(name);
        if i < self.entries.len() {
            proof {
                lemma_entry(self.entries@, i as int);
                lemma_removed(self.entries@, i as int);
            }
            let mut entries: Vec<(String, V)> = Vec::new();
            std::mem::swap(&mut entries, &mut self.entries);
            let (_, value) = entries.remove(i);
            self.entries = entries;
            Some(value)
        } else {
            assert(self@.remove(name@) =~= self@);
            None
        }
    }

    /// Puts `value` under `name`, in place of what was there.
    pub fn insert(&mut self, name: &str, value: V)
        ensures
            final(self)@ == old(self)@.insert(name@, value),
    {
        let ghost before = self@;
        let _ = self.remove(name);
        proof {
            use_type_invariant(&*self);
            lemma_domain(self.entries@, name@);
        }
        let mut entries: Vec<(String, V)> = Vec::new();
        std::mem::swap(&mut entries, &mut self.entries);
        let ghost kept = entries@;
        entries.push((copy(name), value));
        proof {
            assert(entries@.drop_last() =~= kept);
            assert forall|a: int, b: int| 0 <= a < b < entries@.len() implies (
            #[trigger] entries@[a]).0@ != (#[trigger] entries@[b]).0@ by {
                if b == kept.len() {
                    assert(kept[a].0@ != name@);
                } else {
                    assert(entries@[a] == kept[a] && entries@[b] == kept[b]);
                }
            }
            assert(as_map(entries@) =~= before.insert(name@, value));
        }
        self.entries = entries;
    }

    /// The names in the table, each once.
    pub fn names(&self) -> (res: Vec<String>)
        ensures
            crate::text::views(res@).no_duplicates(),
            forall|name: Seq<char>| #[trigger]
                crate::text::views(res@).contains(name) <==> self@.dom().contains(name),
    {
        proof {
            use_type_invariant(self);
        }
        let mut out: Vec<String> = Vec::new();
        let mut i: usize = 0;
        while i < self.entries.len()
            invariant
                i <= self.entries@.len(),
                out@.len() == i,
                forall|j: int| 0 <= j < i ==> (#[trigger] out@[j])@ == self.entries@[j].0@,
            decreases self.entries@.len() - i,
        {
            out.push(self.entries[i].0.clone());
            i += 1;
        }
        proof {
            let names = crate::text::views(out@);
            assert forall|a: int, b: int| 0 <= a < b < names.len() implies names[a]
                != names[b] by {
                assert(names[a] == self.entries@[a].0@ && names[b] == self.entries@[b].0@);
            }
            assert forall|name: Seq<char>| #[trigger]
                names.contains(name) <==> self@.dom().contains(name) by {
                lemma_domain(self.entries@, name);
                if self@.dom().contains(name) {
                    let j = choose|j: int|
                        0 <= j < self.entries@.len() && (#[trigger] self.entries@[j]).0@ == name;
                    assert(names[j] == name);
                }
                if names.contains(name) {
                    let j = choose|j: int| 0 <= j < names.len() && names[j] == name;
                    assert(self.entries@[j].0@ == name);
                }
            }
        }
        out
    }

    /// Takes the entries whose values pass `test` out of the table.
    pub(crate) fn take_where(
        &mut self,
        test: impl Fn(&V) -> bool,
        Ghost(p): Ghost<spec_fn(V) -> bool>,
    ) -> (res: Vec<(String, V)>)
        requires
            forall|value: &V| test.requires((value,)),
            forall|value: &V, b: bool| #[trigger] test.ensures((value,), b) ==> b == p(*value),
        ensures
            names_differ(res@),
            forall|name: Seq<char>|
                #![trigger final(self)@.dom().contains(name)]
                #![trigger as_map(res@).dom().contains(name)]
                {
                    &&& final(self)@.dom().contains(name) <==> old(self)@.dom().contains(name) && !p(
                        old(self)@[name],
                    )
                    &&& as_map(res@).dom().contains(name) <==> old(self)@.dom().contains(name) && p(
                        old(self)@[name],
                    )
                },
            forall|name: Seq<char>|
                final(self)@.dom().contains(name) ==> #[trigger] final(self)@[name] == old(self)@[name],
            forall|name: Seq<char>|
                as_map(res@).dom().contains(name) ==> #[trigger] as_map(res@)[name] == old(self)@[name],
    {
        proof {
            use_type_invariant(&*self);
        }
        let ghost all = self.entries@;
        let ghost not_p = |value: V| !p(value);
        let mut entries: Vec<(String, V)> = Vec::new();
        std::mem::swap(&mut entries, &mut self.entries);
        let mut taken: Vec<(String, V)> = Vec::new();
        let mut kept: Vec<(String, V)> = Vec::new();
        assert(all.take(all.len() as int) =~= all);
        assert(all.skip(all.len() as int) =~= Seq::empty());
        while entries.len() > 0
            invariant
                forall|value: &V| test.requires((value,)),
                forall|value: &V, b: bool| #[trigger] test.ensures((value,), b) ==> b == p(*value),
                names_differ(all),
                entries@ == all.take(entries@.len() as int),
                entries@.len() <= all.len(),
                not_p == (|value: V| !p(value)),
                forall|i: int|
                    0 <= i < taken@.len() ==> comes_from(
                        all,
                        #[trigger] taken@[i],
                        entries@.len() as int,
                        p,
                    ),
                forall|i: int|
                    0 <= i < kept@.len() ==> comes_from(
                        all,
                        #[trigger] kept@[i],
                        entries@.len() as int,
                        not_p,
                    ),
                forall|j: int|
                    entries@.len() <= j < all.len() ==> if p((#[trigger] all[j]).1) {
                        taken@.contains(all[j])
                    } else {
                        kept@.contains(all[j])
                    },
                names_differ(taken@),
                names_differ(kept@),
            decreases entries@.len(),
        {
            let ghost n = entries@.len() - 1;
            let ghost taken0 = taken@;
            let ghost kept0 = kept@;
            match entries.pop() {
                Some(entry) => {
                    assert(entry == all[n]);
                    assert(entries@ =~= all.take(n));
                    if test(&entry.1) {
                        taken.push(entry);
                        proof {
                            lemma_push_differs(all, taken0, n, p);
                            assert(taken@.last() == all[n]);
                            assert forall|j: int| n <= j < all.len() implies if p(
                                (#[trigger] all[j]).1,
                            ) {
                                taken@.contains(all[j])
                            } else {
                                kept@.contains(all[j])
                            } by {
                                if j == n {
                                    assert(taken@[taken0.len() as int] == all[n]);
                                } else if p(all[j].1) {
                                    let i = choose|i: int|
                                        0 <= i < taken0.len() && taken0[i] == all[j];
                                    assert(taken@[i] == all[j]);
                                }
                            }
                        }
                    } else {
                        kept.push(entry);
                        proof {
                            lemma_push_differs(all, kept0, n, not_p);
                            assert forall|j: int| n <= j < all.len() implies if p(
                                (#[trigger] all[j]).1,
                            ) {
                                taken@.contains(all[j])
                            } else {
                                kept@.contains(all[j])
                            } by {
                                if j == n {
                                    assert(kept@[kept0.len() as int] == all[n]);
                                } else if !p(all[j].1) {
                                    let i = choose|i: int|
                                        0 <= i < kept0.len() && kept0[i] == all[j];
                                    assert(kept@[i] == all[j]);
                                }
                            }
                        }
                    }
                },
                None => {},
            }
        }
        proof {
            lemma_part(all, taken@, p);
            lemma_part(all, kept@, not_p);
        }
        self.entries = kept;
        taken
    }
}

/// Whether `entry` stands in `all` at `from` or later, and passes `q`.
spec fn comes_from<V>(
    all: Seq<(String, V)>,
    entry: (String, V),
    from: int,
    q: spec_fn(V) -> bool,
) -> bool {
    exists|j: int| from <= j < all.len() && #[trigger] all[j] == entry && q(all[j].1)
}

/// An entry of `all` before those in `some` can be put behind them.
proof fn lemma_push_differs<V>(
    all: Seq<(String, V)>,
    some: Seq<(String, V)>,
    n: int,
    q: spec_fn(V) -> bool,
)
    requires
        names_differ(all),
        names_differ(some),
        0 <= n < all.len(),
        q(all[n].1),
        forall|i: int| 0 <= i < some.len() ==> comes_from(all, #[trigger] some[i], n + 1, q),
    ensures
        names_differ(some.push(all[n])),
        forall|i: int|
            0 <= i < some.len() + 1 ==> comes_from(all, #[trigger] some.push(all[n])[i], n, q),
{
    assert forall|i: int| 0 <= i < some.len() + 1 implies comes_from(
        all,
        #[trigger] some.push(all[n])[i],
        n,
        q,
    ) by {
        if i < some.len() {
            assert(comes_from(all, some[i], n + 1, q));
        }
    }
    let more = some.push(all[n]);
    assert forall|a: int, b: int| 0 <= a < b < more.len() implies (#[trigger] more[a]).0@ != (
    #[trigger] more[b]).0@ by {
        if b == some.len() {
            assert(comes_from(all, some[a], n + 1, q));
            let j = choose|j: int|
                n + 1 <= j < all.len() && #[trigger] all[j] == some[a] && q(all[j].1);
            assert(all[n].0@ != all[j].0@);
        } else {
            assert(more[a] == some[a] && more[b] == some[b]);
        }
    }
}

/// The entries of `all` that pass `q` say what `all` says of them.
proof fn lemma_part<V>(all: Seq<(String, V)>, some: Seq<(String, V)>, q: spec_fn(V) -> bool)
    requires
        names_differ(all),
        names_differ(some),
        forall|i: int| 0 <= i < some.len() ==> comes_from(all, #[trigger] some[i], 0, q),
        forall|j: int|
            0 <= j < all.len() ==> q((#[trigger] all[j]).1) ==> some.contains(all[j]),
    ensures
        forall|name: Seq<char>| #[trigger]
            as_map(some).dom().contains(name) <==> as_map(all).dom().contains(name) && q(
                as_map(all)[name],
            ),
        forall|name: Seq<char>|
            as_map(some).dom().contains(name) ==> #[trigger] as_map(some)[name] == as_map(
                all,
            )[name],
{
    assert forall|name: Seq<char>| #[trigger]
        as_map(some).dom().contains(name) implies as_map(all).dom().contains(name) && q(
        as_map(all)[name],
    ) && as_map(some)[name] == as_map(all)[name] by {
        lemma_domain(some, name);
        let i = choose|i: int| 0 <= i < some.len() && (#[trigger] some[i]).0@ == name;
        lemma_entry(some, i);
        assert(comes_from(all, some[i], 0, q));
        let j = choose|j: int| 0 <= j < all.len() && #[trigger] all[j] == some[i] && q(all[j].1);
        lemma_entry(all, j);
    }
    assert forall|name: Seq<char>|
        as_map(all).dom().contains(name) && q(as_map(all)[name]) implies #[trigger] as_map(
        some,
    ).dom().contains(name) by {
        lemma_domain(all, name);
        let j = choose|j: int| 0 <= j < all.len() && (#[trigger] all[j]).0@ == name;
        lemma_entry(all, j);
        assert(some.contains(all[j]));
        let i = choose|i: int| 0 <= i < some.len() && some[i] == all[j];
        lemma_domain(some, name);
        assert(some[i].0@ == name);
    }
}

} // verus!
