//! What holds of containers over several calls.
use vstd::prelude::*;
use crate::container_config::count_at;
use crate::container_config::has_part;
use crate::container_config::instructions;
use crate::container_config::law_update_columns;
use crate::container_config::lemma_columns_split;
use crate::container_config::one_part;
use crate::container_config::part_index;
use crate::container_config::ColumnView;
use crate::container_config::ConfigView;
use crate::paths::is_word;
use crate::paths::join_words;
use crate::paths::words;

verus! {

/// What a tree is after an update.
pub open spec fn updated(r: Option<ConfigView>, at: Seq<char>, col: ColumnView) -> Option<ConfigView> {
    match r {
        Some(node) => Some(node.with_column(at, col)),
        None => None,
    }
}

/// Updating the columns at a path twice with a column of that path is the same as
/// doing so once: the second call finds as many of them and changes nothing.
pub proof fn law_update_twice(tree: ConfigView, at: Seq<char>, col: ColumnView)
    requires
        col.path == at,
    ensures
        tree.with_column(at, col).with_column(at, col) == tree.with_column(at, col),
        count_at(tree.with_column(at, col).columns(), at) == count_at(tree.columns(), at),
{
    lemma_update_twice(tree, at, col);
    law_update_columns(tree, at, col);
    lemma_count_updated(tree.columns(), at, col);
}

proof fn lemma_update_twice(tree: ConfigView, at: Seq<char>, col: ColumnView)
    requires
        col.path == at,
    ensures
        tree.with_column(at, col).with_column(at, col) == tree.with_column(at, col),
    decreases tree, 0nat,
{
    match tree {
        ConfigView::Column(_, _, _) => {},
        ConfigView::Complex(parts, _, _) => {
            lemma_update_twice_of(parts, at, col);
        },
    }
}

proof fn lemma_update_twice_of(s: Seq<ConfigView>, at: Seq<char>, col: ColumnView)
    requires
        col.path == at,
    ensures
        ConfigView::with_column_of(ConfigView::with_column_of(s, at, col), at, col) == ConfigView::with_column_of(
            s,
            at,
            col,
        ),
    decreases s, 1nat,
{
    if s.len() > 0 {
        lemma_update_twice_of(s.drop_last(), at, col);
        lemma_update_twice(s.last(), at, col);
        assert(ConfigView::with_column_of(s, at, col).drop_last() =~= ConfigView::with_column_of(
            s.drop_last(),
            at,
            col,
        ));
    }
}

proof fn lemma_count_updated(cols: Seq<ColumnView>, at: Seq<char>, col: ColumnView)
    requires
        col.path == at,
    ensures
        count_at(cols.map_values(|c: ColumnView| if c.path == at { col } else { c }), at) == count_at(cols, at),
    decreases cols.len(),
{
    let f = |c: ColumnView| if c.path == at { col } else { c };
    if cols.len() > 0 {
        lemma_count_updated(cols.drop_last(), at, col);
        assert(cols.map_values(f).drop_last() =~= cols.drop_last().map_values(f));
    }
}

/// Once the paths are set below a path of single words, that path is the parent path
/// of the tree, and the parent path of each part has the tree's name behind it.
pub proof fn law_parent_path_comes_back(tree: ConfigView, above: Seq<Seq<char>>)
    requires
        forall|i: int| 0 <= i < above.len() ==> is_word(#[trigger] above[i]),
        is_word(tree.name()),
    ensures
        ({
            let t = tree.with_paths(join_words(above));
            &&& words(t.path()).len() > 0
            &&& join_words(words(t.path()).drop_last()) == join_words(above)
            &&& t matches ConfigView::Complex(parts, _, _) ==> forall|i: int|
                0 <= i < parts.len() && is_word((#[trigger] parts[i]).name()) ==> {
                    &&& words(parts[i].path()).len() > 0
                    &&& join_words(words(parts[i].path()).drop_last()) == join_words(above.push(tree.name()))
                }
        }),
{
    let p = join_words(above);
    let t = tree.with_paths(p);
    crate::paths::lemma_words_joined(above);
    crate::paths::lemma_words_child(p, tree.name());
    assert(above.push(tree.name()).drop_last() =~= above);
    match tree {
        ConfigView::Column(_, _, _) => {},
        ConfigView::Complex(parts, _, _) => {
            ConfigView::lemma_with_paths_of(parts, t.path());
            let new_parts = ConfigView::with_paths_of(parts, t.path());
            assert forall|i: int| 0 <= i < new_parts.len() && is_word((#[trigger] new_parts[i]).name()) implies {
                &&& words(new_parts[i].path()).len() > 0
                &&& join_words(words(new_parts[i].path()).drop_last()) == join_words(above.push(tree.name()))
            } by {
                assert(new_parts[i] == parts[i].with_paths(t.path()));
                crate::paths::lemma_words_child(t.path(), parts[i].name());
                let w = above.push(tree.name());
                assert(w.push(parts[i].name()).drop_last() =~= w);
            }
        },
    }
}

/// Whether the columns at a path all have the given name.
pub open spec fn named_at(cols: Seq<ColumnView>, at: Seq<char>, name: Seq<char>) -> bool {
    forall|k: int| 0 <= k < cols.len() && (#[trigger] cols[k]).path == at ==> cols[k].name == name
}

/// A search after an update by a column of the same name gives the updated node of
/// what it gave before.
pub proof fn law_search_after_update(tree: ConfigView, at: Seq<char>, col: ColumnView, names: Seq<Seq<char>>)
    requires
        tree.find_ok(names),
        named_at(tree.columns(), at, col.name),
    ensures
        tree.with_column(at, col).name() == tree.name(),
        tree.with_column(at, col).find_ok(names),
        tree.with_column(at, col).find(names) == updated(tree.find(names), at, col),
    decreases names.len(),
{
    match tree {
        ConfigView::Column(loc, name, path) => {
            let c = tree.columns()[0];
            assert(c.path == path && c.name == name);
        },
        ConfigView::Complex(parts, name, path) => {
            let new_parts = ConfigView::with_column_of(parts, at, col);
            ConfigView::lemma_with_column_of(parts, at, col);
            assert forall|i: int| 0 <= i < parts.len() implies {
                &&& named_at(parts[i].columns(), at, col.name)
                &&& (#[trigger] new_parts[i]).name() == parts[i].name()
            } by {
                lemma_named_part(parts, i, at, col.name);
                lemma_update_keeps_name(parts[i], at, col);
            }
            if names[0] == name && names.len() > 1 {
                let i = part_index(parts, names[1]);
                let j = part_index(new_parts, names[1]);
                assert(one_part(new_parts, names[1])) by {
                    assert forall|a: int, b: int|
                        0 <= a < new_parts.len() && 0 <= b < new_parts.len() && (#[trigger] new_parts[a]).name()
                            == names[1] && (#[trigger] new_parts[b]).name() == names[1] implies a == b by {
                        assert(parts[a].name() == names[1] && parts[b].name() == names[1]);
                    }
                }
                if has_part(parts, names[1]) {
                    assert(new_parts[i].name() == names[1]);
                    assert(has_part(new_parts, names[1]));
                    assert(parts[j].name() == names[1]);
                    assert(i == j);
                    law_search_after_update(parts[i], at, col, names.drop_first());
                } else {
                    assert forall|a: int| 0 <= a < new_parts.len() implies (#[trigger] new_parts[a]).name()
                        != names[1] by {
                        assert(parts[a].name() != names[1]);
                    }
                }
            }
        },
    }
}

proof fn lemma_update_keeps_name(tree: ConfigView, at: Seq<char>, col: ColumnView)
    requires
        named_at(tree.columns(), at, col.name),
    ensures
        tree.with_column(at, col).name() == tree.name(),
{
    if let ConfigView::Column(_, name, path) = tree {
        assert(tree.columns()[0].path == path);
    }
}

/// What holds of the columns of a list of trees at a path holds of each tree's.
proof fn lemma_named_part(s: Seq<ConfigView>, i: int, at: Seq<char>, name: Seq<char>)
    requires
        0 <= i < s.len(),
        named_at(ConfigView::columns_of(s), at, name),
    ensures
        named_at(s[i].columns(), at, name),
{
    lemma_columns_split(s, i);
    let all = ConfigView::columns_of(s);
    let done = ConfigView::columns_of(s.take(i));
    let here = s[i].columns();
    assert forall|k: int| 0 <= k < here.len() && (#[trigger] here[k]).path == at implies here[k].name == name by {
        assert(all[done.len() + k] == here[k]);
    }
}

/// A column that is found is one of the tree's.
proof fn lemma_found_column(tree: ConfigView, names: Seq<Seq<char>>) -> (k: int)
    requires
        tree.find(names) matches Some(ConfigView::Column(_, _, _)),
    ensures
        0 <= k < tree.columns().len(),
        tree.find(names) == Some(
            ConfigView::Column(tree.columns()[k].loc, tree.columns()[k].name, tree.columns()[k].path),
        ),
    decreases names.len(),
{
    match tree {
        ConfigView::Column(_, _, _) => 0,
        ConfigView::Complex(parts, _, _) => {
            let i = part_index(parts, names[1]);
            let k = lemma_found_column(parts[i], names.drop_first());
            lemma_columns_split(parts, i);
            assert(tree.columns()[ConfigView::columns_of(parts.take(i)).len() + k] == parts[i].columns()[k]);
            ConfigView::columns_of(parts.take(i)).len() + k
        },
    }
}

/// Two columns at a path are counted as two.
proof fn lemma_two_at(cols: Seq<ColumnView>, at: Seq<char>, i: int, j: int)
    requires
        0 <= i < j < cols.len(),
        cols[i].path == at,
        cols[j].path == at,
    ensures
        count_at(cols, at) >= 2,
    decreases cols.len(),
{
    if j + 1 < cols.len() {
        lemma_two_at(cols.drop_last(), at, i, j);
    } else {
        lemma_some_at(cols.drop_last(), at, i);
    }
}

proof fn lemma_some_at(cols: Seq<ColumnView>, at: Seq<char>, i: int)
    requires
        0 <= i < cols.len(),
        cols[i].path == at,
    ensures
        count_at(cols, at) >= 1,
    decreases cols.len(),
{
    if i + 1 < cols.len() {
        lemma_some_at(cols.drop_last(), at, i);
    }
}

/// Where a search for a path finds the one column at that path and the column is then
/// updated, its name and path kept, one column is updated, the search finds the new
/// column, and a search that found another column finds it still.
pub proof fn law_search_finds_update(tree: ConfigView, at: Seq<char>, col: ColumnView, other: Seq<Seq<char>>)
    requires
        tree.find_ok(words(at)),
        tree.find(words(at)) matches Some(ConfigView::Column(_, n, p)) && n == col.name && p == at,
        count_at(tree.columns(), at) <= 1,
        col.path == at,
        tree.find_ok(other),
    ensures
        count_at(tree.columns(), at) == 1,
        tree.with_column(at, col).find_ok(words(at)),
        tree.with_column(at, col).find(words(at)) == Some(ConfigView::Column(col.loc, col.name, col.path)),
        tree.with_column(at, col).find_ok(other),
        tree.find(other) matches Some(ConfigView::Column(_, _, p)) && p != at ==> tree.with_column(at, col).find(
            other,
        ) == tree.find(other),
{
    let k = lemma_found_column(tree, words(at));
    let cols = tree.columns();
    lemma_some_at(cols, at, k);
    assert forall|j: int| 0 <= j < cols.len() && (#[trigger] cols[j]).path == at implies cols[j].name == col.name by {
        if j < k {
            lemma_two_at(cols, at, j, k);
        } else if k < j {
            lemma_two_at(cols, at, k, j);
        }
    }
    law_search_after_update(tree, at, col, words(at));
    law_search_after_update(tree, at, col, other);
}

proof fn lemma_columns_add(a: Seq<ConfigView>, b: Seq<ConfigView>)
    ensures
        ConfigView::columns_of(a + b) == ConfigView::columns_of(a) + ConfigView::columns_of(b),
    decreases b.len(),
{
    if b.len() == 0 {
        assert(a + b =~= a);
        assert(ConfigView::columns_of(a) + ConfigView::columns_of(b) =~= ConfigView::columns_of(a));
    } else {
        lemma_columns_add(a, b.drop_last());
        assert((a + b).drop_last() =~= a + b.drop_last());
        assert(ConfigView::columns_of(a + b) =~= ConfigView::columns_of(a) + ConfigView::columns_of(b));
    }
}

/// The instructions of a container are those of its parts, whatever the containers are
/// called: two lists of parts together give the instructions of the first, then those of
/// the second, and a container without parts gives none.
pub proof fn law_instructions_of_parts(
    a: Seq<ConfigView>,
    b: Seq<ConfigView>,
    n: Seq<char>,
    n1: Seq<char>,
    n2: Seq<char>,
    p: Seq<char>,
    p1: Seq<char>,
    p2: Seq<char>,
)
    ensures
        instructions(ConfigView::Complex(a + b, n, p).columns()) == instructions(
            ConfigView::Complex(a, n1, p1).columns(),
        ) + instructions(ConfigView::Complex(b, n2, p2).columns()),
        instructions(ConfigView::Complex(Seq::empty(), n, p).columns()) == Seq::<(i32, usize, usize, usize)>::empty(),
{
    lemma_columns_add(a, b);
    assert(instructions(ConfigView::columns_of(a + b)) =~= instructions(ConfigView::columns_of(a)) + instructions(
        ConfigView::columns_of(b),
    ));
    assert(instructions(ConfigView::columns_of(Seq::empty())) =~= Seq::empty());
}

/// Grouping some parts of a container into a container of their own does not change its
/// columns, nor its instructions.
pub proof fn law_grouping_keeps_instructions(
    a: Seq<ConfigView>,
    b: Seq<ConfigView>,
    c: Seq<ConfigView>,
    n: Seq<char>,
    n1: Seq<char>,
    p: Seq<char>,
    p1: Seq<char>,
)
    ensures
        ({
            let grouped = ConfigView::Complex(a + seq![ConfigView::Complex(b, n1, p1)] + c, n, p);
            let flat = ConfigView::Complex(a + b + c, n, p);
            grouped.columns() == flat.columns() && instructions(grouped.columns()) == instructions(flat.columns())
        }),
{
    let group = seq![ConfigView::Complex(b, n1, p1)];
    lemma_columns_add(a + group, c);
    lemma_columns_add(a, group);
    lemma_columns_add(a + b, c);
    lemma_columns_add(a, b);
    assert(group.drop_last() =~= Seq::empty());
    assert(ConfigView::columns_of(group.drop_last()).len() == 0);
    assert(group.last().columns() == ConfigView::columns_of(b));
    assert(ConfigView::columns_of(group) =~= ConfigView::columns_of(b));
}

} // verus!
