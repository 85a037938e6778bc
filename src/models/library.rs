//! Core domain models: Library, Unit, Equipment, Personnel.

use vstd::prelude::*;
use crate::text::str_equal;

verus! {

/// A library: a named table of organization holding a forest of units.
#[derive(Debug)]
pub struct Library {
    pub id: Option<i64>,
    pub name: String,
    pub country: String,
    pub era: String,
    pub author: String,
    /// Current version number; starts at 1 and only grows.
    pub version: i64,
    pub tags: Vec<String>,
    /// The top-level units, left to right.
    pub units: Vec<Unit>,
}

/// One node of the organizational hierarchy. Children are owned values, so
/// the hierarchy is a tree by construction.
#[derive(Debug)]
pub struct Unit {
    pub id: Option<i64>,
    pub name: String,
    pub unit_type: String,
    pub parent_id: Option<i64>,
    pub personnel: Vec<Personnel>,
    pub equipment: Vec<Equipment>,
    pub children: Vec<Unit>,
}

/// An equipment line: a name and how many of it a unit holds.
#[derive(Debug)]
pub struct Equipment {
    pub name: String,
    pub quantity: usize,
}

/// A personnel position with an optional rank.
#[derive(Debug)]
pub struct Personnel {
    pub position: String,
    pub rank: Option<String>,
}

/// Personnel positions in a unit and all of its descendants.
pub open spec fn unit_personnel(u: Unit) -> int
    decreases u, 1int, 0int,
{
    u.personnel.len() + children_personnel(u, u.children.len() as int)
}

/// Personnel positions in the subtrees of the first `k` children of `u`.
pub open spec fn children_personnel(u: Unit, k: int) -> int
    decreases u, 0int, k,
{
    if k <= 0 || k > u.children.len() {
        0
    } else {
        children_personnel(u, k - 1) + unit_personnel(u.children@[k - 1])
    }
}

/// Personnel positions in the first `k` units of a forest.
pub open spec fn forest_personnel(units: Seq<Unit>, k: int) -> int
    decreases k,
{
    if k <= 0 || k > units.len() {
        0
    } else {
        forest_personnel(units, k - 1) + unit_personnel(units[k - 1])
    }
}

pub proof fn lemma_personnel_nonneg(u: Unit)
    ensures
        unit_personnel(u) >= u.personnel.len(),
        forall|k: int| 0 <= k <= u.children.len() ==> children_personnel(u, k) >= 0,
    decreases u,
{
    assert forall|k: int| 0 <= k <= u.children.len() implies children_personnel(u, k) >= 0 by {
        lemma_children_personnel_nonneg(u, k);
    }
    lemma_children_personnel_nonneg(u, u.children.len() as int);
}

proof fn lemma_children_personnel_nonneg(u: Unit, k: int)
    requires
        0 <= k <= u.children.len(),
    ensures
        children_personnel(u, k) >= 0,
    decreases u, k,
{
    if k > 0 {
        lemma_children_personnel_nonneg(u, k - 1);
        lemma_personnel_nonneg(u.children@[k - 1]);
    }
}

pub proof fn lemma_children_personnel_mono(u: Unit, j: int, k: int)
    requires
        0 <= j <= k <= u.children.len(),
    ensures
        children_personnel(u, j) <= children_personnel(u, k),
    decreases k - j,
{
    if j < k {
        lemma_children_personnel_mono(u, j, k - 1);
        lemma_personnel_nonneg(u.children@[k - 1]);
    }
}

pub proof fn lemma_forest_personnel_mono(units: Seq<Unit>, j: int, k: int)
    requires
        0 <= j <= k <= units.len(),
    ensures
        0 <= forest_personnel(units, j) <= forest_personnel(units, k),
    decreases k,
{
    if j < k {
        lemma_forest_personnel_mono(units, j, k - 1);
        lemma_personnel_nonneg(units[k - 1]);
    } else if k > 0 {
        lemma_forest_personnel_mono(units, 0, k - 1);
        lemma_personnel_nonneg(units[k - 1]);
    }
}

impl Library {
    /// A new library at version 1, with no tags and no units.
    pub fn new(name: String, country: String, era: String, author: String) -> (r: Library)
        ensures
            r.id is None,
            r.name@ == name@,
            r.country@ == country@,
            r.era@ == era@,
            r.author@ == author@,
            r.version == 1,
            r.tags@.len() == 0,
            r.units@.len() == 0,
    {
        Library {
            id: None,
            name,
            country,
            era,
            author,
            version: 1,
            tags: Vec::new(),
            units: Vec::new(),
        }
    }

    /// Moves the library to its next version.
    pub fn increment_version(&mut self)
        requires
            old(self).version < i64::MAX,
        ensures
            final(self).version == old(self).version + 1,
            final(self).id == old(self).id,
            final(self).name == old(self).name,
            final(self).units == old(self).units,
            final(self).tags == old(self).tags,
    {
        self.version = self.version + 1;
    }

    /// Sets the version number.
    pub fn set_version(&mut self, version: i64)
        ensures
            final(self).version == version,
            final(self).id == old(self).id,
            final(self).name == old(self).name,
            final(self).units == old(self).units,
            final(self).tags == old(self).tags,
    {
        self.version = version;
    }

    /// Appends a top-level unit.
    pub fn add_unit(&mut self, unit: Unit)
        ensures
            final(self).units@ == old(self).units@.push(unit),
            final(self).version == old(self).version,
            final(self).name == old(self).name,
    {
        self.units.push(unit);
    }

    /// Personnel positions over all units and their descendants.
    pub fn total_personnel(&self) -> (r: usize)
        requires
            forest_personnel(self.units@, self.units@.len() as int) <= usize::MAX,
        ensures
            r == forest_personnel(self.units@, self.units@.len() as int),
    {
        let mut total: usize = 0;
        let mut i: usize = 0;
        while i < self.units.len()
            invariant
                i <= self.units@.len(),
                total == forest_personnel(self.units@, i as int),
                forest_personnel(self.units@, self.units@.len() as int) <= usize::MAX,
            decreases self.units@.len() - i,
        {
            proof {
                lemma_forest_personnel_mono(self.units@, i + 1, self.units@.len() as int);
                lemma_personnel_nonneg(self.units@[i as int]);
            }
            let n = self.units[i].total_personnel();
            total = total + n;
            i = i + 1;
        }
        total
    }
}

impl Unit {
    /// A new unit with no personnel, equipment or children.
    pub fn new(name: String, unit_type: String) -> (r: Unit)
        ensures
            r.id is None,
            r.parent_id is None,
            r.name@ == name@,
            r.unit_type@ == unit_type@,
            r.personnel@.len() == 0,
            r.equipment@.len() == 0,
            r.children@.len() == 0,
    {
        Unit {
            id: None,
            name,
            unit_type,
            parent_id: None,
            personnel: Vec::new(),
            equipment: Vec::new(),
            children: Vec::new(),
        }
    }

    /// Appends a personnel position.
    pub fn add_personnel(&mut self, personnel: Personnel)
        ensures
            final(self).personnel@ == old(self).personnel@.push(personnel),
            final(self).equipment == old(self).equipment,
            final(self).children == old(self).children,
            final(self).name == old(self).name,
    {
        self.personnel.push(personnel);
    }

    /// Appends an equipment line.
    pub fn add_equipment(&mut self, equipment: Equipment)
        ensures
            final(self).equipment@ == old(self).equipment@.push(equipment),
            final(self).personnel == old(self).personnel,
            final(self).children == old(self).children,
            final(self).name == old(self).name,
    {
        self.equipment.push(equipment);
    }

    /// Appends a child unit.
    pub fn add_child(&mut self, child: Unit)
        ensures
            final(self).children@ == old(self).children@.push(child),
            final(self).personnel == old(self).personnel,
            final(self).equipment == old(self).equipment,
            final(self).name == old(self).name,
    {
        self.children.push(child);
    }

    /// Personnel positions in this unit and all of its descendants.
    pub fn total_personnel(&self) -> (r: usize)
        requires
            unit_personnel(*self) <= usize::MAX,
        ensures
            r == unit_personnel(*self),
        decreases *self,
    {
        proof {
            lemma_personnel_nonneg(*self);
        }
        let mut total: usize = self.personnel.len();
        let mut i: usize = 0;
        while i < self.children.len()
            invariant
                i <= self.children@.len(),
                total == self.personnel@.len() + children_personnel(*self, i as int),
                unit_personnel(*self) <= usize::MAX,
            decreases self.children@.len() - i,
        {
            proof {
                lemma_children_personnel_mono(*self, i + 1, self.children@.len() as int);
                lemma_personnel_nonneg(*self);
            }
            let n = self.children[i].total_personnel();
            total = total + n;
            i = i + 1;
        }
        total
    }
}

impl Equipment {
    /// An equipment line.
    pub fn new(name: String, quantity: usize) -> (r: Equipment)
        ensures
            r.name@ == name@,
            r.quantity == quantity,
    {
        Equipment { name, quantity }
    }
}

impl Personnel {
    /// A position without rank.
    pub fn new(position: String) -> (r: Personnel)
        ensures
            r.position@ == position@,
            r.rank is None,
    {
        Personnel { position, rank: None }
    }

    /// A position with a rank.
    pub fn with_rank(position: String, rank: String) -> (r: Personnel)
        ensures
            r.position@ == position@,
            r.rank == Some(rank),
    {
        Personnel { position, rank: Some(rank) }
    }
}

/// Summed quantity of the equipment lines named `n` in a list.
pub open spec fn named_quantity(s: Seq<Equipment>, n: Seq<char>) -> int
    decreases s.len(),
{
    if s.len() == 0 {
        0
    } else {
        named_quantity(s.drop_last(), n) + if s.last().name@ == n {
            s.last().quantity as int
        } else {
            0
        }
    }
}

/// Whether a list holds an equipment line named `n`.
pub open spec fn lists_name(s: Seq<Equipment>, n: Seq<char>) -> bool {
    exists|i: int| 0 <= i < s.len() && (#[trigger] s[i]).name@ == n
}

/// Summed quantity of equipment named `n` in a unit and its descendants.
pub open spec fn unit_quantity(u: Unit, n: Seq<char>) -> int
    decreases u, 1int, 0int,
{
    named_quantity(u.equipment@, n) + children_quantity(u, u.children.len() as int, n)
}

/// Summed quantity of equipment named `n` in the first `k` children's subtrees.
pub open spec fn children_quantity(u: Unit, k: int, n: Seq<char>) -> int
    decreases u, 0int, k,
{
    if k <= 0 || k > u.children.len() {
        0
    } else {
        children_quantity(u, k - 1, n) + unit_quantity(u.children@[k - 1], n)
    }
}

/// Whether a unit or one of its descendants lists equipment named `n`.
pub open spec fn unit_lists(u: Unit, n: Seq<char>) -> bool
    decreases u, 1int, 0int,
{
    lists_name(u.equipment@, n) || children_list(u, u.children.len() as int, n)
}

/// Whether one of the first `k` children's subtrees lists equipment named `n`.
pub open spec fn children_list(u: Unit, k: int, n: Seq<char>) -> bool
    decreases u, 0int, k,
{
    if k <= 0 || k > u.children.len() {
        false
    } else {
        children_list(u, k - 1, n) || unit_lists(u.children@[k - 1], n)
    }
}

/// Every equipment total of a unit's subtree fits in a `usize`.
pub open spec fn quantities_fit(u: Unit) -> bool {
    forall|n: Seq<char>| #[trigger] unit_quantity(u, n) <= usize::MAX
}

proof fn lemma_named_quantity_nonneg(s: Seq<Equipment>, n: Seq<char>)
    ensures
        named_quantity(s, n) >= 0,
    decreases s.len(),
{
    if s.len() > 0 {
        lemma_named_quantity_nonneg(s.drop_last(), n);
    }
}

proof fn lemma_quantity_facts(u: Unit, n: Seq<char>)
    ensures
        unit_quantity(u, n) >= named_quantity(u.equipment@, n) >= 0,
        forall|j: int| 0 <= j < u.children.len() ==> #[trigger] unit_quantity(u.children@[j], n) <= unit_quantity(u, n),
        forall|k: int| 0 <= k <= u.children.len() ==> #[trigger] children_quantity(u, k, n) <= children_quantity(u, u.children.len() as int, n),
    decreases u, 1int,
{
    lemma_named_quantity_nonneg(u.equipment@, n);
    lemma_children_quantity(u, u.children.len() as int, n);
}

proof fn lemma_children_quantity(u: Unit, k: int, n: Seq<char>)
    requires
        0 <= k <= u.children.len(),
    ensures
        children_quantity(u, k, n) >= 0,
        forall|j: int| 0 <= j < k ==> #[trigger] unit_quantity(u.children@[j], n) <= children_quantity(u, k, n),
        forall|i: int| 0 <= i <= k ==> #[trigger] children_quantity(u, i, n) <= children_quantity(u, k, n),
    decreases u, 0int, k,
{
    if k > 0 {
        lemma_children_quantity(u, k - 1, n);
        lemma_quantity_facts(u.children@[k - 1], n);
    }
}

/// Equipment totals by name: one entry per distinct name.
pub struct EquipmentTotals {
    entries: Vec<(String, usize)>,
}

/// Index of the first entry named `n` at or after `i`, or -1.
pub open spec fn entry_index_from(es: Seq<(String, usize)>, n: Seq<char>, i: int) -> int
    decreases es.len() - i,
{
    if i < 0 || i >= es.len() {
        -1
    } else if es[i].0@ == n {
        i
    } else {
        entry_index_from(es, n, i + 1)
    }
}

impl EquipmentTotals {
    /// The total recorded for a name, if any.
    pub closed spec fn total_of(&self, n: Seq<char>) -> Option<int> {
        let i = entry_index_from(self.entries@, n, 0);
        if i >= 0 {
            Some(self.entries@[i].1 as int)
        } else {
            None
        }
    }

    /// Number of distinct names.
    pub closed spec fn count(&self) -> nat {
        self.entries@.len()
    }

    /// The total for `name`, if the subtree lists it.
    pub fn get(&self, name: &str) -> (r: Option<&usize>)
        ensures
            match self.total_of(name@) {
                Some(t) => r matches Some(q) && *q == t,
                None => r is None,
            },
    {
        let mut i: usize = 0;
        while i < self.entries.len()
            invariant
                i <= self.entries@.len(),
                entry_index_from(self.entries@, name@, 0) == entry_index_from(self.entries@, name@, i as int),
            decreases self.entries@.len() - i,
        {
            if str_equal(self.entries[i].0.as_str(), name) {
                return Some(&self.entries[i].1);
            }
            i = i + 1;
        }
        None
    }

    /// Number of distinct names.
    pub fn len(&self) -> (r: usize)
        ensures
            r == self.count(),
    {
        self.entries.len()
    }
}

/// Whether `names` holds `n`.
pub open spec fn holds_name(names: Seq<String>, n: Seq<char>) -> bool {
    exists|i: int| 0 <= i < names.len() && (#[trigger] names[i])@ == n
}

/// No name occurs twice.
pub open spec fn names_distinct(names: Seq<String>) -> bool {
    forall|i: int, j: int| 0 <= i < j < names.len() ==> (#[trigger] names[i])@ != (#[trigger] names[j])@
}

fn holds(names: &Vec<String>, name: &String) -> (r: bool)
    ensures
        r == holds_name(names@, name@),
{
    let mut i: usize = 0;
    while i < names.len()
        invariant
            i <= names@.len(),
            forall|j: int| 0 <= j < i ==> (#[trigger] names@[j])@ != name@,
        decreases names@.len() - i,
    {
        if names[i] == *name {
            return true;
        }
        i = i + 1;
    }
    false
}

/// Appends to `names` each equipment name of the subtree that it lacks.
fn collect_names(u: &Unit, names: &mut Vec<String>)
    requires
        names_distinct(old(names)@),
    ensures
        names_distinct(final(names)@),
        forall|n: Seq<char>| #[trigger] holds_name(final(names)@, n) <==> holds_name(old(names)@, n) || unit_lists(*u, n),
    decreases *u,
{
    let ghost start = names@;
    let mut i: usize = 0;
    while i < u.equipment.len()
        invariant
            i <= u.equipment@.len(),
            names_distinct(names@),
            forall|n: Seq<char>| #[trigger] holds_name(names@, n) <==> holds_name(start, n)
                || lists_name(u.equipment@.subrange(0, i as int), n),
        decreases u.equipment@.len() - i,
    {
        let name = &u.equipment[i].name;
        let ghost before = names@;
        if !holds(names, name) {
            names.push(name.clone());
            assert(names@[names@.len() - 1]@ == name@);
        }
        assert forall|n: Seq<char>| #[trigger] holds_name(names@, n) <==> holds_name(start, n)
            || lists_name(u.equipment@.subrange(0, i + 1), n) by {
            let pre = u.equipment@.subrange(0, i as int);
            let post = u.equipment@.subrange(0, i + 1);
            if lists_name(post, n) {
                let j = choose|j: int| 0 <= j < post.len() && (#[trigger] post[j]).name@ == n;
                if j < i {
                    assert(pre[j].name@ == n);
                } else {
                    assert(holds_name(names@, name@)) by {
                        if holds_name(before, name@) {
                            let t = choose|t: int| 0 <= t < before.len() && (#[trigger] before[t])@ == name@;
                            assert(names@[t] == before[t]);
                        }
                    }
                }
            }
            if lists_name(pre, n) {
                let j = choose|j: int| 0 <= j < pre.len() && (#[trigger] pre[j]).name@ == n;
                assert(post[j].name@ == n);
            }
            if holds_name(before, n) {
                let t = choose|t: int| 0 <= t < before.len() && (#[trigger] before[t])@ == n;
                assert(names@[t] == before[t]);
            }
            if holds_name(names@, n) && !holds_name(before, n) {
                let t = choose|t: int| 0 <= t < names@.len() && (#[trigger] names@[t])@ == n;
                assert(t == before.len());
                assert(post[i as int].name@ == n);
            }
        }
        i = i + 1;
    }
    assert(u.equipment@.subrange(0, u.equipment@.len() as int) =~= u.equipment@);
    let mut k: usize = 0;
    while k < u.children.len()
        invariant
            k <= u.children@.len(),
            names_distinct(names@),
            forall|n: Seq<char>| #[trigger] holds_name(names@, n) <==> holds_name(start, n)
                || lists_name(u.equipment@, n) || children_list(*u, k as int, n),
        decreases u.children@.len() - k,
    {
        collect_names(&u.children[k], names);
        k = k + 1;
    }
}

/// Summed quantity of equipment named `name` in a unit's own lines.
fn own_quantity(u: &Unit, name: &String) -> (q: usize)
    requires
        named_quantity(u.equipment@, name@) <= usize::MAX,
    ensures
        q == named_quantity(u.equipment@, name@),
{
    let mut q: usize = 0;
    let mut i: usize = 0;
    while i < u.equipment.len()
        invariant
            i <= u.equipment@.len(),
            q == named_quantity(u.equipment@.subrange(0, i as int), name@),
            named_quantity(u.equipment@, name@) <= usize::MAX,
        decreases u.equipment@.len() - i,
    {
        proof {
            lemma_named_quantity_prefix(u.equipment@, name@, i + 1);
        }
        assert(u.equipment@.subrange(0, i + 1).drop_last() =~= u.equipment@.subrange(0, i as int));
        if u.equipment[i].name == *name {
            q = q + u.equipment[i].quantity;
        }
        i = i + 1;
    }
    assert(u.equipment@.subrange(0, i as int) =~= u.equipment@);
    q
}

proof fn lemma_named_quantity_prefix(s: Seq<Equipment>, n: Seq<char>, k: int)
    requires
        0 <= k <= s.len(),
    ensures
        named_quantity(s.subrange(0, k), n) <= named_quantity(s, n),
    decreases s.len() - k,
{
    if k < s.len() {
        lemma_named_quantity_prefix(s, n, k + 1);
        assert(s.subrange(0, k + 1).drop_last() =~= s.subrange(0, k));
    } else {
        assert(s.subrange(0, k) =~= s);
    }
}

/// Summed quantity of equipment named `name` in a unit and its descendants.
fn subtree_quantity(u: &Unit, name: &String) -> (q: usize)
    requires
        unit_quantity(*u, name@) <= usize::MAX,
    ensures
        q == unit_quantity(*u, name@),
    decreases *u,
{
    proof {
        lemma_quantity_facts(*u, name@);
    }
    let mut q = own_quantity(u, name);
    let mut k: usize = 0;
    while k < u.children.len()
        invariant
            k <= u.children@.len(),
            q == named_quantity(u.equipment@, name@) + children_quantity(*u, k as int, name@),
            unit_quantity(*u, name@) <= usize::MAX,
            forall|j: int| 0 <= j < u.children.len() ==> #[trigger] unit_quantity(u.children@[j], name@) <= unit_quantity(*u, name@),
            forall|i: int| 0 <= i <= u.children.len() ==> #[trigger] children_quantity(*u, i, name@) <= children_quantity(*u, u.children.len() as int, name@),
        decreases u.children@.len() - k,
    {
        assert(children_quantity(*u, k + 1, name@) <= children_quantity(*u, u.children.len() as int, name@));
        let c = subtree_quantity(&u.children[k], name);
        q = q + c;
        k = k + 1;
    }
    q
}

impl Unit {
    /// Equipment totals by name over this unit and all of its descendants.
    pub fn total_equipment(&self) -> (r: EquipmentTotals)
        requires
            quantities_fit(*self),
        ensures
            forall|n: Seq<char>| #[trigger] r.total_of(n) == if unit_lists(*self, n) {
                Some(unit_quantity(*self, n))
            } else {
                None::<int>
            },
    {
        let mut names: Vec<String> = Vec::new();
        let ghost none = names@;
        assert(forall|n: Seq<char>| !holds_name(none, n));
        collect_names(self, &mut names);
        let mut entries: Vec<(String, usize)> = Vec::new();
        let mut i: usize = 0;
        while i < names.len()
            invariant
                i <= names@.len(),
                names_distinct(names@),
                forall|n: Seq<char>| #[trigger] holds_name(names@, n) <==> unit_lists(*self, n),
                entries@.len() == i,
                quantities_fit(*self),
                forall|j: int| 0 <= j < i ==> (#[trigger] entries@[j]).0@ == names@[j]@ && entries@[j].1
                    == unit_quantity(*self, names@[j]@),
            decreases names@.len() - i,
        {
            assert(unit_quantity(*self, names@[i as int]@) <= usize::MAX);
            let q = subtree_quantity(self, &names[i]);
            entries.push((names[i].clone(), q));
            i = i + 1;
        }
        let r = EquipmentTotals { entries };
        assert forall|n: Seq<char>| #[trigger] r.total_of(n) == if unit_lists(*self, n) {
            Some(unit_quantity(*self, n))
        } else {
            None::<int>
        } by {
            lemma_entry_index(r.entries@, names@, n, 0);
            assert(holds_name(names@, n) <==> unit_lists(*self, n));
            if holds_name(names@, n) {
                let j = choose|j: int| 0 <= j < names@.len() && (#[trigger] names@[j])@ == n;
                assert(0 <= j < names@.len() && names@[j]@ == n);
            }
        }
        r
    }
}

proof fn lemma_entry_index(es: Seq<(String, usize)>, names: Seq<String>, n: Seq<char>, i: int)
    requires
        es.len() == names.len(),
        names_distinct(names),
        forall|j: int| 0 <= j < es.len() ==> (#[trigger] es[j]).0@ == names[j]@,
        0 <= i <= es.len(),
    ensures
        entry_index_from(es, n, i) >= 0 <==> exists|j: int| i <= j < names.len() && (#[trigger] names[j])@ == n,
        entry_index_from(es, n, i) >= 0 ==> i <= entry_index_from(es, n, i) < es.len()
            && names[entry_index_from(es, n, i)]@ == n,
    decreases es.len() - i,
{
    if i < es.len() {
        lemma_entry_index(es, names, n, i + 1);
        assert(es[i].0@ == names[i]@);
    }
}

} // verus!
