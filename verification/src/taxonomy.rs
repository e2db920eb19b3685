use vstd::prelude::*;
use crate::events::same_text;

verus! {

/// A kind of thing, named, with the kinds it is a special case of.
#[derive(Debug)]
pub struct TaxonEntry {
    pub name: String,
    pub parents: Vec<usize>,
}

/// The kinds of things the game knows, each known by its position; a kind's parents
/// come before it.
#[derive(Debug)]
pub struct Taxonomy {
    taxons: Vec<TaxonEntry>,
}

/// The value of a taxonomy: each kind's name and the positions of its parents.
pub type TaxaView = Seq<(Seq<char>, Seq<usize>)>;

/// Whether kind `a` is kind `b` or, through its parents, a special case of it.
pub open spec fn descends(t: TaxaView, a: int, b: int) -> bool
    decreases a, 1int, 0int,
{
    if a == b {
        true
    } else if 0 <= a < t.len() {
        through_parents(t, a, b, t[a].1.len() as int)
    } else {
        false
    }
}

/// Whether one of the first `k` parents of kind `a` (each before `a`) is kind `b`
/// or a special case of it.
pub open spec fn through_parents(t: TaxaView, a: int, b: int, k: int) -> bool
    decreases a, 0int, k,
{
    if 0 < k && 0 <= a < t.len() && k <= t[a].1.len() {
        (t[a].1[k - 1] < a && descends(t, t[a].1[k - 1] as int, b)) || through_parents(t, a, b, k - 1)
    } else {
        false
    }
}

/// Whether every kind's parents come before it and no two kinds share a name.
pub open spec fn well_ordered(t: TaxaView) -> bool {
    &&& forall|i: int, k: int| 0 <= i < t.len() && 0 <= k < t[i].1.len() ==> #[trigger] t[i].1[k] < i
    &&& forall|i: int, j: int| 0 <= i < j < t.len() ==> #[trigger] t[i].0 != #[trigger] t[j].0
}

/// The position of the kind named `name`, if there is one.
pub open spec fn named(t: TaxaView, name: Seq<char>) -> Option<int> {
    if exists|i: int| 0 <= i < t.len() && t[i].0 == name {
        Some(choose|i: int| 0 <= i < t.len() && t[i].0 == name)
    } else {
        None
    }
}

impl View for Taxonomy {
    type V = TaxaView;

    closed spec fn view(&self) -> TaxaView {
        self.taxons@.map_values(|e: TaxonEntry| (e.name@, e.parents@))
    }
}

fn copy_indices(v: &Vec<usize>) -> (r: Vec<usize>)
    ensures
        r@ == v@,
{
    let mut r: Vec<usize> = Vec::new();
    let mut i: usize = 0;
    while i < v.len()
        invariant
            i <= v@.len(),
            r@ == v@.subrange(0, i as int),
        decreases v.len() - i,
    {
        r.push(v[i]);
        i = i + 1;
    }
    r
}

impl Taxonomy {
    /// A taxonomy with no kinds.
    pub fn new() -> (t: Taxonomy)
        ensures
            t@.len() == 0,
            well_ordered(t@),
    {
        let t = Taxonomy { taxons: Vec::new() };
        t
    }

    /// The number of kinds.
    pub fn len(&self) -> (n: usize)
        ensures
            n == self@.len(),
    {
        self.taxons.len()
    }

    /// The name of kind `i`.
    pub fn name(&self, i: usize) -> (r: &String)
        requires
            i < self@.len(),
        ensures
            r@ == self@[i as int].0,
    {
        &self.taxons[i].name
    }

    /// The parents of kind `i`.
    pub fn parents(&self, i: usize) -> (r: Vec<usize>)
        requires
            i < self@.len(),
        ensures
            r@ == self@[i as int].1,
    {
        copy_indices(&self.taxons[i].parents)
    }

    /// The position of the kind named `name`, if there is one.
    pub fn taxon_by_name(&self, name: &String) -> (r: Option<usize>)
        requires
            well_ordered(self@),
        ensures
            match named(self@, name@) {
                Some(i) => r == Some(i as usize),
                None => r is None,
            },
    {
        let mut i: usize = 0;
        while i < self.taxons.len()
            invariant
                i <= self@.len(),
                well_ordered(self@),
                forall|j: int| 0 <= j < i ==> self@[j].0 != name@,
            decreases self.taxons.len() - i,
        {
            if same_text(&self.taxons[i].name, name) {
                proof {
                    assert(self@[i as int].0 == name@);
                    let k = choose|k: int| 0 <= k < self@.len() && self@[k].0 == name@;
                    assert(k == i);
                }
                return Some(i);
            }
            i = i + 1;
        }
        None
    }

    /// The kind named `name`: the existing one if there is one, which keeps its
    /// parents, else a new kind with the given parents.
    pub fn create_new_taxon(&mut self, name: String, parents: Vec<usize>) -> (r: usize)
        requires
            well_ordered(old(self)@),
            forall|k: int| 0 <= k < parents@.len() ==> #[trigger] parents@[k] < old(self)@.len(),
            old(self)@.len() < usize::MAX,
        ensures
            well_ordered(final(self)@),
            match named(old(self)@, name@) {
                Some(i) => r == i && final(self)@ == old(self)@,
                None => r == old(self)@.len() && final(self)@ == old(self)@.push((name@, parents@)),
            },
    {
        match self.taxon_by_name(&name) {
            Some(i) => i,
            None => {
                let n = self.taxons.len();
                let ghost nv = name@;
                let ghost pv = parents@;
                self.taxons.push(TaxonEntry { name, parents });
                proof {
                    assert(self@ =~= old(self)@.push((nv, pv)));
                    assert forall|i: int, j: int| 0 <= i < j < self@.len() implies #[trigger] self@[i].0 != #[trigger] self@[j].0 by {}
                }
                n
            },
        }
    }

    /// Whether kind `a` is kind `b` or, through its parents, a special case of it.
    pub fn is_a(&self, a: usize, b: usize) -> (r: bool)
        requires
            well_ordered(self@),
            a < self@.len(),
        ensures
            r == descends(self@, a as int, b as int),
        decreases a,
    {
        if a == b {
            return true;
        }
        let ps = &self.taxons[a].parents;
        let mut k: usize = 0;
        while k < ps.len()
            invariant
                well_ordered(self@),
                a < self@.len(),
                a != b,
                ps@ == self@[a as int].1,
                k <= ps@.len(),
                !through_parents(self@, a as int, b as int, k as int),
            decreases ps.len() - k,
        {
            let p = ps[k];
            if self.is_a(p, b) {
                proof {
                    lemma_through_parents_grows(self@, a as int, b as int, k + 1, ps@.len() as int);
                }
                return true;
            }
            k = k + 1;
        }
        false
    }
}

proof fn lemma_through_parents_grows(t: TaxaView, a: int, b: int, k: int, m: int)
    requires
        through_parents(t, a, b, k),
        k <= m <= t[a].1.len(),
    ensures
        through_parents(t, a, b, m),
    decreases m - k,
{
    if k < m {
        lemma_through_parents_grows(t, a, b, k, m - 1);
    }
}

/// Every kind is itself.
pub proof fn lemma_is_a_reflexive(t: TaxaView, a: int)
    ensures
        descends(t, a, a),
{
}

/// Being a special case is transitive: a special case of a special case of `c` is a
/// special case of `c`.
pub proof fn lemma_is_a_transitive(t: TaxaView, a: int, b: int, c: int)
    requires
        descends(t, a, b),
        descends(t, b, c),
    ensures
        descends(t, a, c),
    decreases a, 1int, 0int,
{
    if a != b && a != c {
        lemma_through_parents_transitive(t, a, b, c, t[a].1.len() as int);
    }
}

proof fn lemma_through_parents_transitive(t: TaxaView, a: int, b: int, c: int, k: int)
    requires
        through_parents(t, a, b, k),
        descends(t, b, c),
    ensures
        through_parents(t, a, c, k),
    decreases a, 0int, k,
{
    let p = t[a].1[k - 1] as int;
    if t[a].1[k - 1] < a && descends(t, p, b) {
        lemma_is_a_transitive(t, p, b, c);
    } else {
        lemma_through_parents_transitive(t, a, b, c, k - 1);
    }
}

} // verus!
