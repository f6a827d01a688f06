//! What holds of laid out containers.
use vstd::prelude::*;
use crate::container_config::distinct_names;
use crate::container_config::has_part;
use crate::container_config::law_layout_is_packed;
use crate::container_config::lemma_columns_split;
use crate::container_config::lemma_last_named;
use crate::container_config::lemma_same_totals;
use crate::container_config::one_part;
use crate::container_config::packed;
use crate::container_config::part_index;
use crate::container_config::same_columns;
use crate::container_config::seg_total;
use crate::container_config::segment_totals;
use crate::container_config::ColumnView;
use crate::container_config::ConfigView;
use crate::container_config::Layout;
use crate::container_config::LocationView;
use crate::container_config::N_SEGMENTS;
use crate::paths::words;

verus! {

/// The columns of the `i`-th tree among those of all.
proof fn lemma_column_among_all(trees: Seq<ConfigView>, i: int, k: int)
    requires
        0 <= i < trees.len(),
        0 <= k < trees[i].columns().len(),
    ensures
        ConfigView::columns_of(trees.take(i)).len() + k < ConfigView::columns_of(trees).len(),
        ConfigView::columns_of(trees)[ConfigView::columns_of(trees.take(i)).len() + k] == trees[i].columns()[k],
{
    lemma_columns_split(trees, i);
}

/// Once trees with different names are laid out, every column is resolved, and the
/// instruction of a stored column is its place in the gadget's own statement.
pub proof fn law_stored_column_is_its_place(trees: Seq<ConfigView>, i: int, k: int)
    requires
        Layout::possible(trees),
        distinct_names(trees),
        0 <= i < trees.len(),
        0 <= k < Layout::of(trees).trees[i].columns().len(),
    ensures
        ({
            let loc = Layout::of(trees).trees[i].columns()[k].loc;
            &&& loc.src.5
            &&& loc.dest matches Some(d) ==> loc.instruction() == (0i32, d.0, d.1, d.2)
        }),
{
    law_layout_is_packed(trees);
    Layout::lemma_of_first(trees, trees.len());
    let t = Layout::of(trees).trees;
    lemma_column_among_all(t, i, k);
    let cols = ConfigView::columns_of(t);
    assert(cols[ConfigView::columns_of(t.take(i)).len() + k].loc.src.5);
}

proof fn lemma_same_trans(a: Seq<ColumnView>, b: Seq<ColumnView>, c: Seq<ColumnView>)
    requires
        same_columns(a, b),
        same_columns(b, c),
    ensures
        same_columns(a, c),
{
    assert forall|k: int| 0 <= k < a.len() implies {
        &&& (#[trigger] a[k]).name == c[k].name
        &&& a[k].path == c[k].path
        &&& match (a[k].loc.dest, c[k].loc.dest) {
            (Some(d), Some(e)) => d.0 == e.0 && d.2 == e.2,
            (None, None) => true,
            _ => false,
        }
    } by {
        assert(b[k].name == c[k].name);
    }
}

proof fn lemma_step_keeps_sizes(l: Layout, r: int, j: int, i: int)
    requires
        0 <= r < l.trees.len(),
        0 <= i < l.trees.len(),
        0 <= j < l.trees[r].columns().len(),
    ensures
        same_columns(l.step(r, j).trees[i].columns(), l.trees[i].columns()),
{
    l.trees[r].lemma_with_location(j, l.placed(r, l.trees[r].columns()[j].loc));
}

proof fn lemma_place_keeps_sizes(l: Layout, r: int, n: nat, i: int)
    requires
        0 <= r < l.trees.len(),
        0 <= i < l.trees.len(),
        n <= l.trees[r].columns().len(),
        l.next.len() == N_SEGMENTS,
    ensures
        same_columns(l.place(r, n).trees[i].columns(), l.trees[i].columns()),
    decreases n,
{
    if n > 0 {
        let m = (n - 1) as nat;
        lemma_place_keeps_sizes(l, r, m, i);
        l.lemma_place(r, m);
        lemma_step_keeps_sizes(l.place(r, m), r, m as int, i);
        lemma_same_trans(l.place(r, n).trees[i].columns(), l.place(r, m).trees[i].columns(), l.trees[i].columns());
    }
}

proof fn lemma_first_keeps_sizes(trees: Seq<ConfigView>, k: nat, i: int)
    requires
        k <= trees.len(),
        0 <= i < trees.len(),
    ensures
        same_columns(Layout::of_first(trees, k).trees[i].columns(), trees[i].columns()),
    decreases k,
{
    if k > 0 {
        let before = Layout::of_first(trees, (k - 1) as nat);
        lemma_first_keeps_sizes(trees, (k - 1) as nat, i);
        Layout::lemma_of_first(trees, (k - 1) as nat);
        lemma_last_named(before.trees, k - 1);
        let r = before.root(k - 1);
        let n = before.trees[r].columns().len();
        lemma_place_keeps_sizes(before, r, n, i);
        lemma_same_trans(
            Layout::of_first(trees, k).trees[i].columns(),
            before.trees[i].columns(),
            trees[i].columns(),
        );
    }
}

/// Laying out keeps what each tree adds to the segments: its columns, their names, paths,
/// segments and lengths.
pub proof fn law_layout_keeps_sizes(trees: Seq<ConfigView>, i: int)
    requires
        0 <= i < trees.len(),
    ensures
        same_columns(Layout::of(trees).trees[i].columns(), trees[i].columns()),
        segment_totals(Layout::of(trees).trees[i].columns()) == segment_totals(trees[i].columns()),
{
    lemma_first_keeps_sizes(trees, trees.len(), i);
    let (a, b) = (Layout::of(trees).trees[i].columns(), trees[i].columns());
    assert forall|s: int| 0 <= s < N_SEGMENTS implies seg_total(a, s) == seg_total(b, s) by {
        lemma_same_totals(a, b, s);
    }
    assert(segment_totals(a) =~= segment_totals(b));
}

/// Which of the tree's columns the names lead to.
pub open spec fn place_of(tree: ConfigView, names: Seq<Seq<char>>) -> int
    decreases names.len(),
{
    match tree {
        ConfigView::Column(_, _, _) => 0,
        ConfigView::Complex(parts, _, _) => if names.len() <= 1 {
            0
        } else {
            let i = part_index(parts, names[1]);
            ConfigView::columns_of(parts.take(i)).len() + place_of(parts[i], names.drop_first())
        },
    }
}

/// Whether the names lead to a column.
pub open spec fn leads_to_column(tree: ConfigView, names: Seq<Seq<char>>) -> bool {
    &&& tree.find_ok(names)
    &&& tree.find(names) matches Some(ConfigView::Column(_, _, _))
}

/// The column that the names lead to is the one at their place.
proof fn lemma_place_of(tree: ConfigView, names: Seq<Seq<char>>)
    requires
        leads_to_column(tree, names),
    ensures
        0 <= place_of(tree, names) < tree.columns().len(),
        ({
            let c = tree.columns()[place_of(tree, names)];
            tree.find(names) == Some(ConfigView::Column(c.loc, c.name, c.path))
        }),
    decreases names.len(),
{
    match tree {
        ConfigView::Column(_, _, _) => {},
        ConfigView::Complex(parts, _, _) => {
            let i = part_index(parts, names[1]);
            lemma_place_of(parts[i], names.drop_first());
            lemma_column_among_all(parts, i, place_of(parts[i], names.drop_first()));
        },
    }
}

/// The tree of the list that has the `j`-th column.
proof fn lemma_owner(s: Seq<ConfigView>, j: int) -> (i: int)
    requires
        0 <= j < ConfigView::columns_of(s).len(),
    ensures
        0 <= i < s.len(),
        ConfigView::columns_of(s.take(i)).len() <= j < ConfigView::columns_of(s.take(i + 1)).len(),
    decreases s.len(),
{
    let p = s.drop_last();
    if j < ConfigView::columns_of(p).len() {
        let i = lemma_owner(p, j);
        assert(p.take(i) =~= s.take(i));
        assert(p.take(i + 1) =~= s.take(i + 1));
        i
    } else {
        assert(s.take(s.len() - 1) =~= p);
        assert(s.take(s.len() as int) =~= s);
        s.len() - 1
    }
}

/// A tree in a list may be replaced by one with as many columns without moving the others'.
proof fn lemma_counts_stay(s: Seq<ConfigView>, i: int, new: ConfigView, k: int)
    requires
        0 <= i < s.len(),
        0 <= k <= s.len(),
        new.columns().len() == s[i].columns().len(),
    ensures
        ConfigView::columns_of(s.update(i, new).take(k)).len() == ConfigView::columns_of(s.take(k)).len(),
    decreases k,
{
    let u = s.update(i, new);
    if k > 0 {
        lemma_counts_stay(s, i, new, k - 1);
        assert(u.take(k).drop_last() =~= u.take(k - 1));
        assert(s.take(k).drop_last() =~= s.take(k - 1));
    } else {
        assert(u.take(0) =~= s.take(0));
    }
}

/// A new location for a column does not change which column the names lead to.
proof fn lemma_place_stays(tree: ConfigView, j: int, loc: LocationView, names: Seq<Seq<char>>)
    requires
        0 <= j < tree.columns().len(),
        leads_to_column(tree, names),
    ensures
        leads_to_column(tree.with_location(j, loc), names),
        place_of(tree.with_location(j, loc), names) == place_of(tree, names),
    decreases names.len(),
{
    match tree {
        ConfigView::Column(_, _, _) => {},
        ConfigView::Complex(parts, _, _) => {
            let o = lemma_owner(parts, j);
            lemma_columns_split(parts, o);
            let skipped = ConfigView::columns_of(parts.take(o)).len();
            let new = parts[o].with_location(j - skipped, loc);
            ConfigView::lemma_with_location_of(parts, o, j, loc);
            parts[o].lemma_with_location(j - skipped, loc);
            let u = parts.update(o, new);
            assert forall|k: int| 0 <= k < parts.len() implies (#[trigger] u[k]).name() == parts[k].name() by {}
            let i = part_index(parts, names[1]);
            assert(u[i].name() == names[1]);
            assert(has_part(u, names[1]));
            assert(one_part(u, names[1])) by {
                assert forall|a: int, b: int|
                    0 <= a < u.len() && 0 <= b < u.len() && (#[trigger] u[a]).name() == names[1] && (
                    #[trigger] u[b]).name() == names[1] implies a == b by {
                    assert(parts[a].name() == names[1] && parts[b].name() == names[1]);
                }
            }
            let i2 = part_index(u, names[1]);
            assert(i2 == i);
            lemma_counts_stay(parts, o, new, i);
            if i == o {
                lemma_place_stays(parts[o], j - skipped, loc, names.drop_first());
            }
        },
    }
}

/// A column's own location in its place leaves the tree as it is.
proof fn lemma_same_location(tree: ConfigView, j: int)
    requires
        0 <= j < tree.columns().len(),
    ensures
        tree.with_location(j, tree.columns()[j].loc) == tree,
    decreases tree, 0nat,
{
    match tree {
        ConfigView::Column(_, _, _) => {},
        ConfigView::Complex(parts, _, _) => {
            lemma_same_location_of(parts, j);
        },
    }
}

proof fn lemma_same_location_of(s: Seq<ConfigView>, j: int)
    requires
        0 <= j < ConfigView::columns_of(s).len(),
    ensures
        ConfigView::with_location_of(s, j, ConfigView::columns_of(s)[j].loc) == s,
    decreases s, 1nat,
{
    let p = s.drop_last();
    let before = ConfigView::columns_of(p).len();
    if j < before {
        lemma_same_location_of(p, j);
    } else {
        lemma_same_location(s.last(), j - before);
    }
    assert(p.push(s.last()) =~= s);
}

/// A new location for a column leaves the paths absolute.
proof fn lemma_absolute_stays(tree: ConfigView, j: int, loc: LocationView, above: Seq<Seq<char>>)
    requires
        0 <= j < tree.columns().len(),
        tree.absolute(above),
    ensures
        tree.with_location(j, loc).absolute(above),
    decreases tree, 0nat,
{
    match tree {
        ConfigView::Column(_, _, _) => {},
        ConfigView::Complex(parts, name, _) => {
            lemma_absolute_stays_of(parts, j, loc, above.push(name));
            let u = ConfigView::with_location_of(parts, j, loc);
            let o = lemma_owner(parts, j);
            let skipped = ConfigView::columns_of(parts.take(o)).len();
            lemma_columns_split(parts, o);
            ConfigView::lemma_with_location_of(parts, o, j, loc);
            parts[o].lemma_with_location(j - skipped, loc);
            assert forall|k: int| 0 <= k < parts.len() implies (#[trigger] u[k]).name() == parts[k].name() by {}
            assert forall|n: Seq<char>| #[trigger] one_part(u, n) by {
                assert(one_part(parts, n));
                assert forall|a: int, b: int|
                    0 <= a < u.len() && 0 <= b < u.len() && (#[trigger] u[a]).name() == n && (#[trigger] u[b]).name()
                        == n implies a == b by {
                    assert(parts[a].name() == n && parts[b].name() == n);
                }
            }
        },
    }
}

proof fn lemma_absolute_stays_of(s: Seq<ConfigView>, j: int, loc: LocationView, above: Seq<Seq<char>>)
    requires
        0 <= j < ConfigView::columns_of(s).len(),
        ConfigView::absolute_of(s, above),
    ensures
        ConfigView::absolute_of(ConfigView::with_location_of(s, j, loc), above),
    decreases s, 1nat,
{
    let p = s.drop_last();
    let before = ConfigView::columns_of(p).len();
    let u = ConfigView::with_location_of(s, j, loc);
    if j < before {
        lemma_absolute_stays_of(p, j, loc, above);
        assert(u.drop_last() =~= ConfigView::with_location_of(p, j, loc));
    } else {
        lemma_absolute_stays(s.last(), j - before, loc, above);
        assert(u.drop_last() =~= p);
    }
}

/// Whether the `k`-th column of tree `i` comes before the `j`-th one of tree `r`.
pub open spec fn comes_before(i: int, k: int, r: int, j: int) -> bool {
    i < r || (i == r && k < j)
}

/// Whether each foreign column refers to an earlier column, which its owner stores.
pub open spec fn refers_to_earlier(trees: Seq<ConfigView>) -> bool {
    forall|i: int, k: int|
        0 <= i < trees.len() && 0 <= k < trees[i].columns().len() && (#[trigger] trees[i].columns()[k]).loc.dest is None
            ==> {
            let loc = trees[i].columns()[k].loc;
            let at = i + loc.src.0;
            let names = words(loc.src.4);
            &&& 0 <= at < trees.len()
            &&& leads_to_column(trees[at], names)
            &&& trees[at].columns()[place_of(trees[at], names)].loc.dest is Some
            &&& comes_before(at, place_of(trees[at], names), i, k)
        }
}

/// Whether a stored column is at its place.
pub open spec fn at_its_place(loc: LocationView) -> bool {
    loc.dest matches Some(d) && {
        &&& d.0 < N_SEGMENTS
        &&& d.1 + d.2 <= usize::MAX
        &&& loc.src == (0i32, d.0, d.1, d.2, Seq::<char>::empty(), true)
    }
}

impl Layout {
    /// Whether the foreign column `loc` of tree `i` has the place of the stored column
    /// that it refers to.
    pub open spec fn follows(self, i: int, loc: LocationView) -> bool {
        let at = i + loc.src.0;
        let names = words(loc.src.4);
        &&& i <= i32::MAX
        &&& 0 <= at < self.trees.len()
        &&& at <= i32::MAX
        &&& leads_to_column(self.trees[at], names)
        &&& ({
            let t = self.trees[at].columns()[place_of(self.trees[at], names)].loc;
            &&& at_its_place(t)
            &&& loc.src == (loc.src.0, t.src.1, t.src.2, t.src.3, loc.src.4, true)
        })
    }

    /// Whether the columns before the `j`-th one of tree `r` are placed for good, and the
    /// others are as they were in `trees`.
    pub open spec fn settled(self, trees: Seq<ConfigView>, r: int, j: int) -> bool {
        &&& self.trees.len() == trees.len()
        &&& forall|i: int|
            0 <= i < trees.len() ==> {
                &&& (#[trigger] self.trees[i]).columns().len() == trees[i].columns().len()
                &&& self.trees[i].absolute(Seq::empty())
            }
        &&& forall|i: int, names: Seq<Seq<char>>|
            0 <= i < trees.len() && #[trigger] leads_to_column(trees[i], names) ==> {
                &&& leads_to_column(self.trees[i], names)
                &&& place_of(self.trees[i], names) == place_of(trees[i], names)
            }
        &&& forall|i: int, k: int|
            0 <= i < trees.len() && 0 <= k < trees[i].columns().len() ==> {
                let loc = (#[trigger] self.trees[i].columns()[k]).loc;
                let first = trees[i].columns()[k].loc;
                if comes_before(i, k, r, j) {
                    if first.dest is Some {
                        at_its_place(loc)
                    } else {
                        &&& loc.dest is None
                        &&& loc.src.0 == first.src.0
                        &&& loc.src.4 == first.src.4
                        &&& self.follows(i, loc)
                        &&& comes_before(
                            i + first.src.0,
                            place_of(trees[i + first.src.0], words(first.src.4)),
                            r,
                            j,
                        )
                    }
                } else {
                    loc == first
                }
            }
    }
}

proof fn lemma_settled_step(l: Layout, trees: Seq<ConfigView>, r: int, j: int)
    requires
        refers_to_earlier(trees),
        0 <= r < trees.len(),
        0 <= j < trees[r].columns().len(),
        l.settled(trees, r, j),
        l.can_place(r, l.trees[r].columns()[j].loc),
    ensures
        l.step(r, j).settled(trees, r, j + 1),
{
    let after = l.step(r, j);
    let first = trees[r].columns()[j].loc;
    let loc = l.trees[r].columns()[j].loc;
    let new = l.placed(r, loc);
    assert(loc == first);
    assert(l.trees[r].columns().len() == trees[r].columns().len());
    l.trees[r].lemma_with_location(j, new);
    lemma_absolute_stays(l.trees[r], j, new, Seq::empty());
    assert forall|i: int, names: Seq<Seq<char>>|
        0 <= i < trees.len() && #[trigger] leads_to_column(trees[i], names) implies {
        &&& leads_to_column(after.trees[i], names)
        &&& place_of(after.trees[i], names) == place_of(trees[i], names)
    } by {
        assert(leads_to_column(l.trees[i], names));
        if i == r {
            lemma_place_stays(l.trees[r], j, new, names);
        }
    }
    assert forall|i: int, k: int|
        0 <= i < trees.len() && 0 <= k < trees[i].columns().len() && !(i == r && k == j) implies #[trigger] after.trees[i].columns()[k]
        == l.trees[i].columns()[k] by {}
    assert(after.trees[r].columns()[j].loc == new);
    if first.dest is None {
        let at = r + first.src.0;
        let names = words(first.src.4);
        assert(leads_to_column(trees[at], names));
        lemma_place_of(trees[at], names);
        lemma_place_of(l.trees[at], names);
        let m = place_of(trees[at], names);
        let t = l.trees[at].columns()[m].loc;
        assert(l.target(r, loc) == t);
        assert(comes_before(at, m, r, j));
        assert(at_its_place(t));
        assert(after.trees[at].columns()[m] == l.trees[at].columns()[m]);
        assert(after.follows(r, new));
    }
    assert forall|i: int, k: int| 0 <= i < trees.len() && 0 <= k < trees[i].columns().len() implies {
        let loc = (#[trigger] after.trees[i].columns()[k]).loc;
        let first = trees[i].columns()[k].loc;
        if comes_before(i, k, r, j + 1) {
            if first.dest is Some {
                at_its_place(loc)
            } else {
                &&& loc.dest is None
                &&& loc.src.0 == first.src.0
                &&& loc.src.4 == first.src.4
                &&& after.follows(i, loc)
                &&& comes_before(i + first.src.0, place_of(trees[i + first.src.0], words(first.src.4)), r, j + 1)
            }
        } else {
            loc == first
        }
    } by {
        if !(i == r && k == j) {
            assert(after.trees[i].columns()[k] == l.trees[i].columns()[k]);
            let f = trees[i].columns()[k].loc;
            if comes_before(i, k, r, j) && f.dest is None {
                let at = i + f.src.0;
                let names = words(f.src.4);
                assert(leads_to_column(trees[at], names));
                lemma_place_of(trees[at], names);
                let m = place_of(trees[at], names);
                assert(leads_to_column(after.trees[at], names));
                assert(after.trees[at].columns()[m] == l.trees[at].columns()[m]);
            }
        }
    }
}

proof fn lemma_settled_place(l: Layout, trees: Seq<ConfigView>, r: int, n: nat)
    requires
        refers_to_earlier(trees),
        0 <= r < trees.len(),
        n <= trees[r].columns().len(),
        l.settled(trees, r, 0),
        l.next.len() == N_SEGMENTS,
        l.can_place_all(r, n),
    ensures
        l.place(r, n).settled(trees, r, n as int),
    decreases n,
{
    if n > 0 {
        lemma_settled_place(l, trees, r, (n - 1) as nat);
        lemma_settled_step(l.place(r, (n - 1) as nat), trees, r, n - 1);
    }
}

/// The trees are taken up in order, where their names differ.
proof fn lemma_root_in_order(trees: Seq<ConfigView>, k: nat)
    requires
        distinct_names(trees),
        k < trees.len(),
    ensures
        Layout::of_first(trees, k).root(k as int) == k,
{
    let before = Layout::of_first(trees, k);
    Layout::lemma_of_first(trees, k);
    lemma_last_named(before.trees, k as int);
    let r = before.root(k as int);
    if r > k {
        assert(trees[r].name() == before.trees[r].name());
        assert(trees[k as int].name() == before.trees[k as int].name());
    }
}

proof fn lemma_settled_first(trees: Seq<ConfigView>, k: nat)
    requires
        refers_to_earlier(trees),
        distinct_names(trees),
        k <= trees.len(),
        forall|i: int| 0 <= i < trees.len() ==> (#[trigger] trees[i]).absolute(Seq::empty()),
        Layout::can_place_first(trees, k),
    ensures
        Layout::of_first(trees, k).settled(trees, k as int, 0),
    decreases k,
{
    if k > 0 {
        let m = (k - 1) as nat;
        let before = Layout::of_first(trees, m);
        lemma_settled_first(trees, m);
        Layout::lemma_of_first(trees, m);
        lemma_root_in_order(trees, m);
        let n = before.trees[m as int].columns().len();
        assert(n == trees[m as int].columns().len());
        lemma_settled_place(before, trees, m as int, n);
        let after = Layout::of_first(trees, k);
        assert(after == before.place(m as int, n));
        lemma_settled_shift(after, trees, m as int);
    }
}

/// Behind the last column of a tree comes the first one of the next.
proof fn lemma_settled_shift(l: Layout, trees: Seq<ConfigView>, r: int)
    requires
        0 <= r < trees.len(),
        l.settled(trees, r, trees[r].columns().len() as int),
        refers_to_earlier(trees),
    ensures
        l.settled(trees, r + 1, 0),
{
    assert forall|i: int, k: int| 0 <= i < trees.len() && 0 <= k < trees[i].columns().len() implies {
        let loc = (#[trigger] l.trees[i].columns()[k]).loc;
        let first = trees[i].columns()[k].loc;
        if comes_before(i, k, r + 1, 0) {
            if first.dest is Some {
                at_its_place(loc)
            } else {
                &&& loc.dest is None
                &&& loc.src.0 == first.src.0
                &&& loc.src.4 == first.src.4
                &&& l.follows(i, loc)
                &&& comes_before(i + first.src.0, place_of(trees[i + first.src.0], words(first.src.4)), r + 1, 0)
            }
        } else {
            loc == first
        }
    } by {
        let n = trees[r].columns().len() as int;
        assert(comes_before(i, k, r, n) == comes_before(i, k, r + 1, 0));
    }
}

/// A step of a second layout changes nothing.
proof fn lemma_step_again(l: Layout, trees: Seq<ConfigView>, r: int, j: int)
    requires
        0 <= r < trees.len(),
        0 <= j < l.trees[r].columns().len(),
        l.settled(trees, trees.len() as int, 0),
        packed(ConfigView::columns_of(l.trees), ConfigView::columns_of(l.trees).len() as int),
        l.reached(l.trees, ConfigView::columns_of(l.trees.take(r)).len() + j),
    ensures
        l.can_place(r, l.trees[r].columns()[j].loc),
        l.step(r, j).trees == l.trees,
{
    let cols = ConfigView::columns_of(l.trees);
    let loc = l.trees[r].columns()[j].loc;
    let first = trees[r].columns()[j].loc;
    lemma_column_among_all(l.trees, r, j);
    let k = ConfigView::columns_of(l.trees.take(r)).len() + j;
    assert(cols[k].loc == loc);
    assert(l.trees[r].columns().len() == trees[r].columns().len());
    assert(comes_before(r, j, trees.len() as int, 0));
    match loc.dest {
        Some(d) => {
            assert(at_its_place(loc));
            assert(cols[k].loc.src.5);
            assert(l.next[d.0 as int] == seg_total(cols.take(k), d.0 as int));
            assert(l.placed(r, loc) == loc);
        },
        None => {
            assert(l.follows(r, loc));
            let at = r + loc.src.0;
            let names = words(loc.src.4);
            lemma_place_of(l.trees[at], names);
            assert(l.target(r, loc) == l.trees[at].columns()[place_of(l.trees[at], names)].loc);
            assert(l.placed(r, loc) == loc);
        },
    }
    lemma_same_location(l.trees[r], j);
    assert(l.trees.update(r, l.trees[r]) =~= l.trees);
}

proof fn lemma_place_again(l: Layout, trees: Seq<ConfigView>, r: int, n: nat)
    requires
        0 <= r < trees.len(),
        n <= l.trees[r].columns().len(),
        l.settled(trees, trees.len() as int, 0),
        packed(ConfigView::columns_of(l.trees), ConfigView::columns_of(l.trees).len() as int),
        l.reached(l.trees, ConfigView::columns_of(l.trees.take(r)).len() as int),
    ensures
        l.can_place_all(r, n),
        l.place(r, n).trees == l.trees,
        l.place(r, n).reached(l.trees, (ConfigView::columns_of(l.trees.take(r)).len() + n) as int),
    decreases n,
{
    if n > 0 {
        let m = (n - 1) as nat;
        lemma_place_again(l, trees, r, m);
        let before = l.place(r, m);
        lemma_settled_same(l, before, trees);
        lemma_step_again(before, trees, r, m as int);
        before.lemma_reached_step(l.trees, r, m as int);
    }
}

/// Whether the trees are settled has nothing to do with the free places.
proof fn lemma_settled_same(l: Layout, m: Layout, trees: Seq<ConfigView>)
    requires
        l.settled(trees, trees.len() as int, 0),
        m.trees == l.trees,
    ensures
        m.settled(trees, trees.len() as int, 0),
{
    assert forall|i: int, loc: LocationView| l.follows(i, loc) implies #[trigger] m.follows(i, loc) by {}
}

proof fn lemma_first_again(done: Layout, trees: Seq<ConfigView>, k: nat)
    requires
        done.settled(trees, trees.len() as int, 0),
        distinct_names(done.trees),
        packed(ConfigView::columns_of(done.trees), ConfigView::columns_of(done.trees).len() as int),
        k <= done.trees.len(),
    ensures
        Layout::can_place_first(done.trees, k),
        Layout::of_first(done.trees, k).trees == done.trees,
    decreases k,
{
    if k > 0 {
        let m = (k - 1) as nat;
        lemma_first_again(done, trees, m);
        let before = Layout::of_first(done.trees, m);
        Layout::lemma_reached_first(done.trees, m);
        lemma_root_in_order(done.trees, m);
        lemma_settled_same(done, before, trees);
        lemma_place_again(before, trees, m as int, before.trees[m as int].columns().len());
    }
}

/// A second layout changes nothing, where the names of the trees differ and each foreign
/// column refers to an earlier one, which its owner stores.
pub proof fn law_second_layout_changes_nothing(trees: Seq<ConfigView>)
    requires
        Layout::possible(trees),
        distinct_names(trees),
        refers_to_earlier(trees),
    ensures
        Layout::possible(Layout::of(trees).trees),
        Layout::of(Layout::of(trees).trees).trees == Layout::of(trees).trees,
{
    let done = Layout::of(trees);
    let n = trees.len();
    lemma_settled_first(trees, n);
    Layout::lemma_of_first(trees, n);
    law_layout_is_packed(trees);
    assert forall|i: int, j: int| 0 <= i < j < n implies (#[trigger] done.trees[i]).name()
        != (#[trigger] done.trees[j]).name() by {
        assert(trees[i].name() != trees[j].name());
    }
    lemma_first_again(done, trees, n);
}

} // verus!
