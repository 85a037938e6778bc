//! Structural difference between two JSON trees.

use vstd::prelude::*;
use vstd::string::*;
use crate::json::{JsonMember, JsonNode, JsonValue};
use crate::text::{decimal, push_char, write_decimal};

verus! {

/// One difference found between two trees, at a dotted and bracketed path.
pub enum Change {
    /// A member present only in the new object.
    Added { path: String },
    /// A member present only in the old object.
    Removed { path: String },
    /// Two different values that are not both objects nor both arrays.
    Changed { path: String, old_value: String, new_value: String },
    /// Two arrays of different lengths.
    LengthChanged { path: String, old_len: usize, new_len: usize },
}

/// Mathematical view of a `Change`.
pub enum ChangeView {
    Added(Seq<char>),
    Removed(Seq<char>),
    Changed(Seq<char>, Seq<char>, Seq<char>),
    LengthChanged(Seq<char>, nat, nat),
}

impl View for Change {
    type V = ChangeView;

    open spec fn view(&self) -> ChangeView {
        match self {
            Change::Added { path } => ChangeView::Added(path@),
            Change::Removed { path } => ChangeView::Removed(path@),
            Change::Changed { path, old_value, new_value } => ChangeView::Changed(
                path@,
                old_value@,
                new_value@,
            ),
            Change::LengthChanged { path, old_len, new_len } => ChangeView::LengthChanged(
                path@,
                *old_len as nat,
                *new_len as nat,
            ),
        }
    }
}

pub open spec fn changes_view(cs: Seq<Change>) -> Seq<ChangeView> {
    cs.map_values(|c: Change| c@)
}

/// Path of an object member: `path.key`, or `key` at the top.
pub open spec fn member_path(path: Seq<char>, key: Seq<char>) -> Seq<char> {
    if path.len() == 0 {
        key
    } else {
        path + seq!['.'] + key
    }
}

/// Path of an array item: `path[i]`.
pub open spec fn item_path(path: Seq<char>, i: nat) -> Seq<char> {
    path + seq!['['] + decimal(i) + seq![']']
}

/// Index of the first member at or after `i` whose key is `key`, or -1.
pub open spec fn key_index_from(ms: Seq<JsonMember>, key: Seq<char>, i: int) -> int
    decreases ms.len() - i,
{
    if i < 0 || i >= ms.len() {
        -1
    } else if ms[i].key@ == key {
        i
    } else {
        key_index_from(ms, key, i + 1)
    }
}

/// Index of the first member whose key is `key`, or -1.
pub open spec fn key_index(ms: Seq<JsonMember>, key: Seq<char>) -> int {
    key_index_from(ms, key, 0)
}

/// The members of an object value (none for other values).
pub open spec fn members_of(v: JsonValue) -> Seq<JsonMember> {
    match v.node {
        JsonNode::Object(ms) => ms@,
        _ => Seq::empty(),
    }
}

/// The items of an array value (none for other values).
pub open spec fn items_of(v: JsonValue) -> Seq<JsonValue> {
    match v.node {
        JsonNode::Array(xs) => xs@,
        _ => Seq::empty(),
    }
}

/// The differences between `old` and `new` at `path`: none for equal values;
/// member by member for two objects; a length record and then item by item up
/// to the shorter length for two arrays; one `Changed` record otherwise.
pub open spec fn diff_of(path: Seq<char>, old: JsonValue, new: JsonValue) -> Seq<ChangeView>
    decreases old, 2int, 0int,
{
    if old.text@ == new.text@ {
        Seq::empty()
    } else {
        match (old.node, new.node) {
            (JsonNode::Object(_), JsonNode::Object(nm)) => old_members_diff(
                path,
                old,
                nm@,
                members_of(old).len() as int,
            ) + added_members(path, members_of(old), nm@, nm@.len() as int),
            (JsonNode::Array(oa), JsonNode::Array(na)) => {
                let lo = oa@.len();
                let ln = na@.len();
                let m = if lo < ln {
                    lo
                } else {
                    ln
                };
                (if lo != ln {
                    seq![ChangeView::LengthChanged(path, lo, ln)]
                } else {
                    Seq::empty()
                }) + items_diff(path, old, na@, m as int)
            },
            _ => seq![ChangeView::Changed(path, old.text@, new.text@)],
        }
    }
}

/// Differences for the first `k` members of the object `old` against the
/// members `nm` of the new object: a `Removed` record or a recursive diff.
pub open spec fn old_members_diff(path: Seq<char>, old: JsonValue, nm: Seq<JsonMember>, k: int) -> Seq<
    ChangeView,
>
    decreases old, 1int, k,
{
    match old.node {
        JsonNode::Object(om) => if k <= 0 || k > om.len() {
            Seq::empty()
        } else {
            let m = om@[k - 1];
            let p = member_path(path, m.key@);
            let j = key_index(nm, m.key@);
            old_members_diff(path, old, nm, k - 1) + if j >= 0 {
                diff_of(p, m.value, nm[j].value)
            } else {
                seq![ChangeView::Removed(p)]
            }
        },
        _ => Seq::empty(),
    }
}

/// `Added` records for the first `k` members of the new object whose key the
/// old object lacks.
pub open spec fn added_members(path: Seq<char>, om: Seq<JsonMember>, nm: Seq<JsonMember>, k: int) -> Seq<
    ChangeView,
>
    decreases k,
{
    if k <= 0 || k > nm.len() {
        Seq::empty()
    } else {
        added_members(path, om, nm, k - 1) + if key_index(om, nm[k - 1].key@) < 0 {
            seq![ChangeView::Added(member_path(path, nm[k - 1].key@))]
        } else {
            Seq::empty()
        }
    }
}

/// Differences for the first `k` items of the array `old` against the items
/// `na` of the new array, index by index.
pub open spec fn items_diff(path: Seq<char>, old: JsonValue, na: Seq<JsonValue>, k: int) -> Seq<
    ChangeView,
>
    decreases old, 1int, k,
{
    match old.node {
        JsonNode::Array(oa) => if k <= 0 || k > oa.len() || k > na.len() {
            Seq::empty()
        } else {
            items_diff(path, old, na, k - 1) + diff_of(
                item_path(path, (k - 1) as nat),
                oa@[k - 1],
                na[k - 1],
            )
        },
        _ => Seq::empty(),
    }
}

fn member_path_string(path: &String, key: &String) -> (r: String)
    ensures
        r@ == member_path(path@, key@),
{
    if path.as_str().is_empty() {
        key.clone()
    } else {
        let mut r = path.clone();
        push_char(&mut r, '.');
        r.append(key.as_str());
        r
    }
}

fn item_path_string(path: &String, i: usize) -> (r: String)
    ensures
        r@ == item_path(path@, i as nat),
{
    let mut r = path.clone();
    push_char(&mut r, '[');
    write_decimal(&mut r, i as u128);
    push_char(&mut r, ']');
    assert(r@ =~= item_path(path@, i as nat));
    r
}

proof fn lemma_key_index_range(ms: Seq<JsonMember>, key: Seq<char>, i: int)
    requires
        0 <= i,
    ensures
        key_index_from(ms, key, i) == -1 || (i <= key_index_from(ms, key, i) < ms.len()
            && ms[key_index_from(ms, key, i)].key@ == key),
    decreases ms.len() - i,
{
    if i < ms.len() && ms[i].key@ != key {
        lemma_key_index_range(ms, key, i + 1);
    }
}

/// Index of the first member whose key equals `key`, if any.
fn find_key(ms: &Vec<JsonMember>, key: &String) -> (r: Option<usize>)
    ensures
        match r {
            Some(j) => j as int == key_index(ms@, key@) && j < ms@.len(),
            None => key_index(ms@, key@) == -1,
        },
{
    proof {
        lemma_key_index_range(ms@, key@, 0);
    }
    let mut i: usize = 0;
    while i < ms.len()
        invariant
            i <= ms@.len(),
            key_index(ms@, key@) == key_index_from(ms@, key@, i as int),
        decreases ms@.len() - i,
    {
        if ms[i].key == *key {
            return Some(i);
        }
        i = i + 1;
    }
    None
}

/// Appends to `changes` the differences between `prev` and `next` at `path`.
pub fn diff_values(path: &String, prev: &JsonValue, next: &JsonValue, changes: &mut Vec<Change>)
    ensures
        changes_view(final(changes)@) == changes_view(old(changes)@) + diff_of(path@, *prev, *next),
    decreases *prev, 2int,
{
    let ghost start = changes_view(changes@);
    if prev.text == next.text {
        assert(changes_view(changes@) =~= start + diff_of(path@, *prev, *next));
        return;
    }
    match (&prev.node, &next.node) {
        (JsonNode::Object(om), JsonNode::Object(nm)) => {
            let mut i: usize = 0;
            while i < om.len()
                invariant
                    prev.node == JsonNode::Object(*om),
                    i <= om@.len(),
                    changes_view(changes@) == start + old_members_diff(path@, *prev, nm@, i as int),
                decreases om@.len() - i,
            {
                let m = &om[i];
                let p = member_path_string(path, &m.key);
                let ghost before = changes_view(changes@);
                match find_key(nm, &m.key) {
                    Some(j) => {
                        diff_values(&p, &m.value, &nm[j].value, changes);
                        assert(changes_view(changes@) == before + diff_of(p@, m.value, nm@[j as int].value));
                    },
                    None => {
                        changes.push(Change::Removed { path: p });
                        assert(changes_view(changes@) =~= before + seq![ChangeView::Removed(p@)]);
                    },
                }
                assert(changes_view(changes@) =~= start + old_members_diff(path@, *prev, nm@, i + 1));
                i = i + 1;
            }
            let ghost mid = changes_view(changes@);
            let mut k: usize = 0;
            while k < nm.len()
                invariant
                    prev.node == JsonNode::Object(*om),
                    k <= nm@.len(),
                    changes_view(changes@) == mid + added_members(path@, om@, nm@, k as int),
                decreases nm@.len() - k,
            {
                let key = &nm[k].key;
                let ghost before = changes_view(changes@);
                match find_key(om, key) {
                    Some(_) => {
                        assert(changes_view(changes@) =~= before + Seq::<ChangeView>::empty());
                    },
                    None => {
                        let p = member_path_string(path, key);
                        changes.push(Change::Added { path: p });
                        assert(changes_view(changes@) =~= before + seq![ChangeView::Added(p@)]);
                    },
                }
                assert(changes_view(changes@) =~= mid + added_members(path@, om@, nm@, k + 1));
                k = k + 1;
            }
            assert(changes_view(changes@) =~= start + diff_of(path@, *prev, *next));
        },
        (JsonNode::Array(oa), JsonNode::Array(na)) => {
            let lo = oa.len();
            let ln = na.len();
            if lo != ln {
                changes.push(Change::LengthChanged { path: path.clone(), old_len: lo, new_len: ln });
            }
            let ghost mid = changes_view(changes@);
            assert(mid =~= start + (if lo != ln {
                seq![ChangeView::LengthChanged(path@, lo as nat, ln as nat)]
            } else {
                Seq::<ChangeView>::empty()
            }));
            let m = if lo < ln {
                lo
            } else {
                ln
            };
            let mut i: usize = 0;
            while i < m
                invariant
                    prev.node == JsonNode::Array(*oa),
                    m <= oa@.len(),
                    m <= na@.len(),
                    i <= m,
                    changes_view(changes@) == mid + items_diff(path@, *prev, na@, i as int),
                decreases m - i,
            {
                let p = item_path_string(path, i);
                diff_values(&p, &oa[i], &na[i], changes);
                assert(changes_view(changes@) =~= mid + items_diff(path@, *prev, na@, i + 1));
                i = i + 1;
            }
            assert(changes_view(changes@) =~= start + diff_of(path@, *prev, *next));
        },
        _ => {
            changes.push(
                Change::Changed { path: path.clone(), old_value: prev.text.clone(), new_value: next.text.clone() },
            );
            assert(changes_view(changes@) =~= start + diff_of(path@, *prev, *next));
        },
    }
}

/// All differences between two trees, from the top.
pub fn diff_trees(old: &JsonValue, new: &JsonValue) -> (r: Vec<Change>)
    ensures
        changes_view(r@) == diff_of(Seq::empty(), *old, *new),
{
    let mut r: Vec<Change> = Vec::new();
    let top = String::new();
    diff_values(&top, old, new, &mut r);
    assert(changes_view(Seq::<Change>::empty()) =~= Seq::empty());
    assert(top@ =~= Seq::<char>::empty());
    assert(changes_view(Seq::<Change>::empty()) + diff_of(top@, *old, *new) =~= diff_of(Seq::empty(), *old, *new));
    r
}

/// No two members of an object share a key.
pub open spec fn keys_unique(ms: Seq<JsonMember>) -> bool {
    forall|i: int, j: int| 0 <= i < j < ms.len() ==> (#[trigger] ms[i]).key@ != (#[trigger] ms[j]).key@
}

/// A tree whose objects, at every depth, have distinct keys (as every
/// parsed JSON object does).
pub open spec fn well_formed(v: JsonValue) -> bool
    decreases v,
{
    match v.node {
        JsonNode::Scalar => true,
        JsonNode::Array(xs) => forall|i: int| 0 <= i < xs.len() ==> well_formed(#[trigger] xs@[i]),
        JsonNode::Object(ms) => keys_unique(ms@) && forall|i: int|
            0 <= i < ms.len() ==> well_formed(#[trigger] ms@[i].value),
    }
}

/// Two equal values differ nowhere.
pub proof fn lemma_diff_same(path: Seq<char>, v: JsonValue)
    ensures
        diff_of(path, v, v) == Seq::<ChangeView>::empty(),
{
}

proof fn lemma_key_index_unique(ms: Seq<JsonMember>, i: int)
    requires
        keys_unique(ms),
        0 <= i < ms.len(),
    ensures
        key_index(ms, ms[i].key@) == i,
{
    let key = ms[i].key@;
    lemma_key_index_range(ms, key, 0);
    let k = key_index(ms, key);
    if k != i {
        assert(k >= 0) by {
            lemma_first_found(ms, key, 0, i);
        }
        if k < i {
            assert(ms[k].key@ != ms[i].key@);
        } else {
            assert(ms[i].key@ != ms[k].key@);
        }
    }
}

proof fn lemma_first_found(ms: Seq<JsonMember>, key: Seq<char>, from: int, i: int)
    requires
        0 <= from <= i < ms.len(),
        ms[i].key@ == key,
    ensures
        from <= key_index_from(ms, key, from) <= i,
    decreases i - from,
{
    if ms[from].key@ != key {
        lemma_first_found(ms, key, from + 1, i);
    }
}

proof fn lemma_added_members_contains(path: Seq<char>, om: Seq<JsonMember>, nm: Seq<JsonMember>, k: int, c: ChangeView)
    requires
        0 <= k <= nm.len(),
    ensures
        added_members(path, om, nm, k).contains(c) <==> exists|j: int|
            0 <= j < k && key_index(om, (#[trigger] nm[j]).key@) < 0 && c == ChangeView::Added(
                member_path(path, nm[j].key@),
            ),
    decreases k,
{
    if k > 0 {
        lemma_added_members_contains(path, om, nm, k - 1, c);
        let prev = added_members(path, om, nm, k - 1);
        let last = if key_index(om, nm[k - 1].key@) < 0 {
            seq![ChangeView::Added(member_path(path, nm[k - 1].key@))]
        } else {
            Seq::<ChangeView>::empty()
        };
        assert(added_members(path, om, nm, k) == prev + last);
        if added_members(path, om, nm, k).contains(c) {
            let t = choose|t: int| 0 <= t < (prev + last).len() && (prev + last)[t] == c;
            if t >= prev.len() {
                assert(last[t - prev.len()] == c);
            } else {
                assert(prev[t] == c);
            }
        }
        if exists|j: int|
            0 <= j < k && key_index(om, (#[trigger] nm[j]).key@) < 0 && c == ChangeView::Added(
                member_path(path, nm[j].key@),
            ) {
            let j = choose|j: int|
                0 <= j < k && key_index(om, (#[trigger] nm[j]).key@) < 0 && c == ChangeView::Added(
                    member_path(path, nm[j].key@),
                );
            if j == k - 1 {
                assert((prev + last)[prev.len() as int] == c);
            } else {
                let t = choose|t: int| 0 <= t < prev.len() && prev[t] == c;
                assert((prev + last)[t] == c);
            }
        }
    }
}

proof fn lemma_old_members_contains(path: Seq<char>, x: JsonValue, nm: Seq<JsonMember>, k: int, c: ChangeView)
    requires
        0 <= k <= members_of(x).len(),
        x.node is Object,
    ensures
        old_members_diff(path, x, nm, k).contains(c) <==> exists|i: int|
            0 <= i < k && #[trigger] member_change(path, members_of(x)[i], nm, c),
    decreases k,
{
    if k > 0 {
        lemma_old_members_contains(path, x, nm, k - 1, c);
        let prev = old_members_diff(path, x, nm, k - 1);
        let m = members_of(x)[k - 1];
        let p = member_path(path, m.key@);
        let j = key_index(nm, m.key@);
        let last = if j >= 0 {
            diff_of(p, m.value, nm[j].value)
        } else {
            seq![ChangeView::Removed(p)]
        };
        assert(old_members_diff(path, x, nm, k) == prev + last);
        if j < 0 {
            if last.contains(c) {
                let t = choose|t: int| 0 <= t < last.len() && last[t] == c;
                assert(last[t] == c);
            }
            if c == ChangeView::Removed(p) {
                assert(last[0] == c);
            }
        }
        assert(member_change(path, m, nm, c) <==> last.contains(c));
        if (prev + last).contains(c) {
            let t = choose|t: int| 0 <= t < (prev + last).len() && (prev + last)[t] == c;
            if t >= prev.len() {
                assert(last[t - prev.len()] == c);
                assert(member_change(path, members_of(x)[k - 1], nm, c));
            } else {
                assert(prev[t] == c);
            }
        }
        if exists|i: int| 0 <= i < k && #[trigger] member_change(path, members_of(x)[i], nm, c) {
            let i = choose|i: int| 0 <= i < k && #[trigger] member_change(path, members_of(x)[i], nm, c);
            if i == k - 1 {
                let t = choose|t: int| 0 <= t < last.len() && last[t] == c;
                assert((prev + last)[prev.len() + t] == c);
            } else {
                let t = choose|t: int| 0 <= t < prev.len() && prev[t] == c;
                assert((prev + last)[t] == c);
            }
        }
    }
}

/// Whether the record `c` comes from the member `m` of an old object against
/// the members `nm` of a new one.
pub open spec fn member_change(path: Seq<char>, m: JsonMember, nm: Seq<JsonMember>, c: ChangeView) -> bool {
    let p = member_path(path, m.key@);
    let j = key_index(nm, m.key@);
    if j >= 0 {
        diff_of(p, m.value, nm[j].value).contains(c)
    } else {
        c == ChangeView::Removed(p)
    }
}

proof fn lemma_items_contains(path: Seq<char>, x: JsonValue, ys: Seq<JsonValue>, k: int, c: ChangeView)
    requires
        0 <= k <= items_of(x).len(),
        k <= ys.len(),
        x.node is Array,
    ensures
        items_diff(path, x, ys, k).contains(c) <==> exists|i: int|
            0 <= i < k && (#[trigger] diff_of(item_path(path, i as nat), items_of(x)[i], ys[i])).contains(c),
    decreases k,
{
    if k > 0 {
        lemma_items_contains(path, x, ys, k - 1, c);
        let prev = items_diff(path, x, ys, k - 1);
        let last = diff_of(item_path(path, (k - 1) as nat), items_of(x)[k - 1], ys[k - 1]);
        assert(items_diff(path, x, ys, k) == prev + last);
        if (prev + last).contains(c) {
            let t = choose|t: int| 0 <= t < (prev + last).len() && (prev + last)[t] == c;
            if t >= prev.len() {
                assert(last[t - prev.len()] == c);
            } else {
                assert(prev[t] == c);
            }
        }
        if exists|i: int|
            0 <= i < k && (#[trigger] diff_of(item_path(path, i as nat), items_of(x)[i], ys[i])).contains(c) {
            let i = choose|i: int|
                0 <= i < k && (#[trigger] diff_of(item_path(path, i as nat), items_of(x)[i], ys[i])).contains(c);
            if i == k - 1 {
                let t = choose|t: int| 0 <= t < last.len() && last[t] == c;
                assert((prev + last)[prev.len() + t] == c);
            } else {
                let t = choose|t: int| 0 <= t < prev.len() && prev[t] == c;
                assert((prev + last)[t] == c);
            }
        }
    }
}

proof fn lemma_concat_contains(s: Seq<ChangeView>, t: Seq<ChangeView>, c: ChangeView)
    ensures
        (s + t).contains(c) <==> s.contains(c) || t.contains(c),
{
    if (s + t).contains(c) {
        let i = choose|i: int| 0 <= i < (s + t).len() && (s + t)[i] == c;
        if i >= s.len() {
            assert(t[i - s.len()] == c);
        } else {
            assert(s[i] == c);
        }
    }
    if s.contains(c) {
        let i = choose|i: int| 0 <= i < s.len() && s[i] == c;
        assert((s + t)[i] == c);
    }
    if t.contains(c) {
        let i = choose|i: int| 0 <= i < t.len() && t[i] == c;
        assert((s + t)[s.len() + i] == c);
    }
}

/// Swapping the two trees swaps `Added` and `Removed`: a member reported added
/// at a path going one way is reported removed at that path going the other.
pub proof fn lemma_diff_added_removed(path: Seq<char>, a: JsonValue, b: JsonValue, q: Seq<char>)
    requires
        well_formed(a),
        well_formed(b),
    ensures
        diff_of(path, a, b).contains(ChangeView::Added(q)) <==> diff_of(path, b, a).contains(
            ChangeView::Removed(q),
        ),
    decreases a,
{
    let add = ChangeView::Added(q);
    let rem = ChangeView::Removed(q);
    if a.text@ == b.text@ {
        return;
    }
    match (a.node, b.node) {
        (JsonNode::Object(am_v), JsonNode::Object(bm_v)) => {
            let am = am_v@;
            let bm = bm_v@;
            lemma_concat_contains(old_members_diff(path, a, bm, am.len() as int), added_members(path, am, bm, bm.len() as int), add);
            lemma_concat_contains(old_members_diff(path, b, am, bm.len() as int), added_members(path, bm, am, am.len() as int), rem);
            lemma_old_members_contains(path, a, bm, am.len() as int, add);
            lemma_old_members_contains(path, b, am, bm.len() as int, rem);
            lemma_added_members_contains(path, am, bm, bm.len() as int, add);
            lemma_added_members_contains(path, bm, am, am.len() as int, rem);
            assert(diff_of(path, a, b) == old_members_diff(path, a, bm, am.len() as int) + added_members(path, am, bm, bm.len() as int));
            assert(diff_of(path, b, a) == old_members_diff(path, b, am, bm.len() as int) + added_members(path, bm, am, am.len() as int));
            assert(members_of(a) == am);
            assert(members_of(b) == bm);
            assert(!added_members(path, bm, am, am.len() as int).contains(rem)) by {
                if added_members(path, bm, am, am.len() as int).contains(rem) {
                    let j = choose|j: int|
                        0 <= j < am.len() && key_index(bm, (#[trigger] am[j]).key@) < 0 && rem == ChangeView::Added(
                            member_path(path, am[j].key@),
                        );
                }
            }
            // Members on both sides: recurse, matching each key with its partner.
            if exists|i: int| 0 <= i < am.len() && #[trigger] member_change(path, am[i], bm, add) {
                let i = choose|i: int| 0 <= i < am.len() && #[trigger] member_change(path, am[i], bm, add);
                let j = key_index(bm, am[i].key@);
                lemma_key_index_range(bm, am[i].key@, 0);
                assert(j >= 0);
                lemma_key_index_unique(am, i);
                assert(well_formed(am[i].value));
                assert(well_formed(bm[j].value));
                lemma_diff_added_removed(member_path(path, am[i].key@), am[i].value, bm[j].value, q);
                assert(member_change(path, bm[j], am, rem));
            }
            if exists|j: int| 0 <= j < bm.len() && #[trigger] member_change(path, bm[j], am, rem) {
                let j = choose|j: int| 0 <= j < bm.len() && #[trigger] member_change(path, bm[j], am, rem);
                let i = key_index(am, bm[j].key@);
                lemma_key_index_range(am, bm[j].key@, 0);
                if i >= 0 {
                    lemma_key_index_unique(bm, j);
                    assert(well_formed(am[i].value));
                    assert(well_formed(bm[j].value));
                    lemma_diff_added_removed(member_path(path, am[i].key@), am[i].value, bm[j].value, q);
                    assert(member_change(path, am[i], bm, add));
                } else {
                    assert(key_index(am, (bm[j]).key@) < 0 && add == ChangeView::Added(member_path(path, bm[j].key@)));
                }
            }
            if exists|j: int|
                0 <= j < bm.len() && key_index(am, (#[trigger] bm[j]).key@) < 0 && add == ChangeView::Added(
                    member_path(path, bm[j].key@),
                ) {
                let j = choose|j: int|
                    0 <= j < bm.len() && key_index(am, (#[trigger] bm[j]).key@) < 0 && add == ChangeView::Added(
                        member_path(path, bm[j].key@),
                    );
                assert(member_change(path, bm[j], am, rem));
            }
        },
        (JsonNode::Array(ax_v), JsonNode::Array(bx_v)) => {
            let ax = ax_v@;
            let bx = bx_v@;
            let m = if ax.len() < bx.len() {
                ax.len()
            } else {
                bx.len()
            };
            let la = if ax.len() != bx.len() {
                seq![ChangeView::LengthChanged(path, ax.len(), bx.len())]
            } else {
                Seq::empty()
            };
            let lb = if ax.len() != bx.len() {
                seq![ChangeView::LengthChanged(path, bx.len(), ax.len())]
            } else {
                Seq::empty()
            };
            assert(diff_of(path, a, b) == la + items_diff(path, a, bx, m as int));
            assert(diff_of(path, b, a) == lb + items_diff(path, b, ax, m as int));
            assert(items_of(a) == ax);
            assert(items_of(b) == bx);
            lemma_concat_contains(la, items_diff(path, a, bx, m as int), add);
            lemma_concat_contains(lb, items_diff(path, b, ax, m as int), rem);
            assert(!la.contains(add));
            assert(!lb.contains(rem));
            lemma_items_contains(path, a, bx, m as int, add);
            lemma_items_contains(path, b, ax, m as int, rem);
            assert forall|i: int| 0 <= i < m implies (#[trigger] diff_of(item_path(path, i as nat), ax[i], bx[i])).contains(add)
                <==> diff_of(item_path(path, i as nat), bx[i], ax[i]).contains(rem) by {
                assert(well_formed(ax[i]));
                assert(well_formed(bx[i]));
                lemma_diff_added_removed(item_path(path, i as nat), ax[i], bx[i], q);
            }
            if items_diff(path, b, ax, m as int).contains(rem) {
                let i = choose|i: int|
                    0 <= i < m && (#[trigger] diff_of(item_path(path, i as nat), items_of(b)[i], ax[i])).contains(rem);
                assert(diff_of(item_path(path, i as nat), ax[i], bx[i]).contains(add));
            }
        },
        _ => {
            let ca = diff_of(path, a, b);
            let cb = diff_of(path, b, a);
            assert(ca == seq![ChangeView::Changed(path, a.text@, b.text@)]);
            assert(cb == seq![ChangeView::Changed(path, b.text@, a.text@)]);
            assert(!ca.contains(add)) by {
                if ca.contains(add) {
                    assert(ca[0] == add);
                }
            }
            assert(!cb.contains(rem)) by {
                if cb.contains(rem) {
                    assert(cb[0] == rem);
                }
            }
        },
    }
}

/// The converse: a member reported removed one way is reported added the
/// other way.
pub proof fn lemma_diff_removed_added(path: Seq<char>, a: JsonValue, b: JsonValue, q: Seq<char>)
    requires
        well_formed(a),
        well_formed(b),
    ensures
        diff_of(path, a, b).contains(ChangeView::Removed(q)) <==> diff_of(path, b, a).contains(
            ChangeView::Added(q),
        ),
{
    lemma_diff_added_removed(path, b, a, q);
}

} // verus!
