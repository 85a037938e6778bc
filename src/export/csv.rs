//! Spreadsheet (CSV) listing of a library's units.

use vstd::prelude::*;
use vstd::string::*;
use crate::export::svg::{join_strings, strings_view};
use crate::models::library::{Equipment, Library, Unit};
use crate::models::version::join_lines;
use crate::text::{decimal, push_char, write_decimal};

verus! {

pub open spec fn is_csv_special(c: char) -> bool {
    c == ',' || c == '"' || c == '\n'
}

/// `s` with each double quote doubled.
pub open spec fn quotes_doubled(s: Seq<char>) -> Seq<char>
    decreases s.len(),
{
    if s.len() == 0 {
        Seq::empty()
    } else {
        quotes_doubled(s.drop_last()) + if s.last() == '"' {
            seq!['"', '"']
        } else {
            seq![s.last()]
        }
    }
}

/// A CSV field: quoted, with inner quotes doubled, when it holds a comma, a
/// quote or a newline; as it is otherwise.
pub open spec fn csv_field(s: Seq<char>) -> Seq<char> {
    if exists|i: int| 0 <= i < s.len() && is_csv_special(#[trigger] s[i]) {
        seq!['"'] + quotes_doubled(s) + seq!['"']
    } else {
        s
    }
}

/// Escapes a string for CSV.
pub fn csv_escape(s: &str) -> (r: String)
    ensures
        r@ == csv_field(s@),
{
    let n = s.unicode_len();
    let mut special = false;
    let mut doubled = String::new();
    let mut i: usize = 0;
    while i < n
        invariant
            n == s@.len(),
            i <= n,
            doubled@ == quotes_doubled(s@.subrange(0, i as int)),
            special == exists|j: int| 0 <= j < i && is_csv_special(#[trigger] s@[j]),
        decreases n - i,
    {
        let c = s.get_char(i);
        if c == ',' || c == '"' || c == '\n' {
            special = true;
        }
        if c == '"' {
            push_char(&mut doubled, '"');
        }
        push_char(&mut doubled, c);
        assert(s@.subrange(0, i + 1).drop_last() =~= s@.subrange(0, i as int));
        assert(doubled@ =~= quotes_doubled(s@.subrange(0, i + 1)));
        i = i + 1;
    }
    assert(s@.subrange(0, n as int) =~= s@);
    if special {
        let mut r = String::new();
        push_char(&mut r, '"');
        r.append(doubled.as_str());
        push_char(&mut r, '"');
        assert(r@ =~= csv_field(s@));
        r
    } else {
        String::from_str(s)
    }
}

/// One equipment line as `<quantity>x<name>`.
pub open spec fn equipment_item(e: Equipment) -> Seq<char> {
    decimal(e.quantity as nat) + "x"@ + e.name@
}

/// The first `k` equipment lines, joined with `; `.
pub open spec fn equipment_summary(s: Seq<Equipment>, k: int) -> Seq<char>
    decreases k,
{
    if k <= 0 || k > s.len() {
        Seq::empty()
    } else if k == 1 {
        equipment_item(s[0])
    } else {
        equipment_summary(s, k - 1) + "; "@ + equipment_item(s[k - 1])
    }
}

/// The row of one unit under a parent's name.
pub open spec fn unit_row(u: Unit, parent: Seq<char>) -> Seq<char> {
    csv_field(u.name@) + ","@ + csv_field(u.unit_type@) + ","@ + csv_field(parent) + ","@ + decimal(
        u.personnel.len() as nat,
    ) + ","@ + csv_field(equipment_summary(u.equipment@, u.equipment.len() as int))
}

/// The rows of a unit and of its descendants, depth first.
pub open spec fn unit_rows(u: Unit, parent: Seq<char>) -> Seq<Seq<char>>
    decreases u, 1int, 0int,
{
    seq![unit_row(u, parent)] + child_rows(u, u.children.len() as int)
}

/// The rows of the first `k` children of `u` and their descendants.
pub open spec fn child_rows(u: Unit, k: int) -> Seq<Seq<char>>
    decreases u, 0int, k,
{
    if k <= 0 || k > u.children.len() {
        Seq::empty()
    } else {
        child_rows(u, k - 1) + unit_rows(u.children@[k - 1], u.name@)
    }
}

/// The rows of the first `k` top-level units, which have no parent.
pub open spec fn forest_rows(units: Seq<Unit>, k: int) -> Seq<Seq<char>>
    decreases k,
{
    if k <= 0 || k > units.len() {
        Seq::empty()
    } else {
        forest_rows(units, k - 1) + unit_rows(units[k - 1], Seq::empty())
    }
}

/// The listing of a library: a header, one row per unit, and a comment line
/// naming the library when it has no unit.
pub open spec fn csv_text(l: Library) -> Seq<char> {
    join_lines(
        seq!["Unit,Type,Parent,Personnel,Equipment"@] + forest_rows(l.units@, l.units@.len() as int)
            + if l.units@.len() == 0 {
            seq!["# Library: "@ + l.name@ + " | Country: "@ + l.country@ + " | Era: "@ + l.era@]
        } else {
            Seq::empty()
        },
    )
}

fn summary_text(equipment: &Vec<Equipment>) -> (r: String)
    ensures
        r@ == equipment_summary(equipment@, equipment@.len() as int),
{
    let mut r = String::new();
    let mut i: usize = 0;
    while i < equipment.len()
        invariant
            i <= equipment@.len(),
            r@ == equipment_summary(equipment@, i as int),
        decreases equipment@.len() - i,
    {
        if i > 0 {
            r.append("; ");
        }
        write_decimal(&mut r, equipment[i].quantity as u128);
        r.append("x");
        r.append(equipment[i].name.as_str());
        assert(r@ =~= equipment_summary(equipment@, i + 1));
        i = i + 1;
    }
    r
}

fn row_text(u: &Unit, parent: &str) -> (r: String)
    ensures
        r@ == unit_row(*u, parent@),
{
    let mut r = csv_escape(u.name.as_str());
    r.append(",");
    let t = csv_escape(u.unit_type.as_str());
    r.append(t.as_str());
    r.append(",");
    let p = csv_escape(parent);
    r.append(p.as_str());
    r.append(",");
    write_decimal(&mut r, u.personnel.len() as u128);
    r.append(",");
    let s = summary_text(&u.equipment);
    let e = csv_escape(s.as_str());
    r.append(e.as_str());
    r
}

/// Appends the rows of a unit and of its descendants.
pub fn write_unit_rows(u: &Unit, parent: &str, lines: &mut Vec<String>)
    ensures
        strings_view(final(lines)@) == strings_view(old(lines)@) + unit_rows(*u, parent@),
    decreases *u,
{
    let ghost start = strings_view(lines@);
    lines.push(row_text(u, parent));
    let ghost mid = strings_view(lines@);
    assert(mid =~= start + seq![unit_row(*u, parent@)]);
    let mut k: usize = 0;
    while k < u.children.len()
        invariant
            k <= u.children@.len(),
            strings_view(lines@) == mid + child_rows(*u, k as int),
        decreases u.children@.len() - k,
    {
        write_unit_rows(&u.children[k], u.name.as_str(), lines);
        assert(strings_view(lines@) =~= mid + child_rows(*u, k + 1));
        k = k + 1;
    }
    assert(strings_view(lines@) =~= start + unit_rows(*u, parent@));
}

/// The listing of a library as CSV text.
pub fn csv_document(library: &Library) -> (r: String)
    ensures
        r@ == csv_text(*library),
{
    let mut lines: Vec<String> = Vec::new();
    lines.push(String::from_str("Unit,Type,Parent,Personnel,Equipment"));
    let ghost head = strings_view(lines@);
    assert(head =~= seq!["Unit,Type,Parent,Personnel,Equipment"@]);
    let mut i: usize = 0;
    while i < library.units.len()
        invariant
            i <= library.units@.len(),
            strings_view(lines@) == head + forest_rows(library.units@, i as int),
        decreases library.units@.len() - i,
    {
        proof {
            reveal_strlit("");
        }
        assert(""@ =~= Seq::<char>::empty());
        write_unit_rows(&library.units[i], "", &mut lines);
        assert(strings_view(lines@) =~= head + forest_rows(library.units@, i + 1));
        i = i + 1;
    }
    let ghost body = strings_view(lines@);
    if library.units.len() == 0 {
        let mut c = String::from_str("# Library: ");
        c.append(library.name.as_str());
        c.append(" | Country: ");
        c.append(library.country.as_str());
        c.append(" | Era: ");
        c.append(library.era.as_str());
        lines.push(c);
    }
    assert(strings_view(lines@) =~= seq!["Unit,Type,Parent,Personnel,Equipment"@] + forest_rows(
        library.units@,
        library.units@.len() as int,
    ) + if library.units@.len() == 0 {
        seq!["# Library: "@ + library.name@ + " | Country: "@ + library.country@ + " | Era: "@ + library.era@]
    } else {
        Seq::empty()
    });
    join_strings(&lines)
}

} // verus!
