//! What the layout of containers gives: where a reference leads, what a column's
//! instruction holds, how long the segments are, and how a tree is printed.
use vstd::prelude::*;
use crate::container_config::instructions;
use crate::container_config::seg_total;
use crate::container_config::segment_totals;
use crate::container_config::ColumnView;
use crate::container_config::ConfigView;
use crate::container_config::Layout;
use crate::container_config::LocationView;

verus! {

/// A reference is resolved to where its target lies: counted from its own tree it names the
/// tree that the target names from its tree, and the target's segment, start and length.
/// What it refers to is kept, and it is still no storage of its own.
pub proof fn law_reference_leads_to_target(l: Layout, r: int, loc: LocationView, target: LocationView, name: Seq<char>, path: Seq<char>)
    requires
        l.can_place(r, loc),
        loc.dest is None,
        l.trees[r + loc.src.0].find(crate::paths::words(loc.src.4)) == Some(ConfigView::Column(target, name, path)),
    ensures
        ({
            let p = l.placed(r, loc);
            &&& r + p.src.0 == (r + loc.src.0) + target.src.0
            &&& p.src.1 == target.src.1
            &&& p.src.2 == target.src.2
            &&& p.src.3 == target.src.3
            &&& p.src.4 == loc.src.4
            &&& p.src.5
            &&& p.dest is None
            &&& p.stored_in(0) == 0
        }),
{
}

/// A column with storage of its own is placed where its segment ends so far, in its own
/// tree, and the segment is longer by its length behind it; the other segments stay.
pub proof fn law_column_is_placed(l: Layout, r: int, j: int, segment: usize, old_start: usize, len: usize, s: int)
    requires
        0 <= r < l.trees.len(),
        0 <= j < l.trees[r].columns().len(),
        l.trees[r].columns()[j].loc.dest == Some((segment, old_start, len)),
        l.can_place(r, l.trees[r].columns()[j].loc),
        l.next.len() > segment,
        0 <= s < crate::container_config::N_SEGMENTS,
    ensures
        ({
            let p = l.placed(r, l.trees[r].columns()[j].loc);
            &&& p.dest == Some((segment, l.next[segment as int] as usize, len))
            &&& l.next[segment as int] <= usize::MAX
            &&& p.instruction() == (0i32, segment, l.next[segment as int] as usize, len)
            &&& l.step(r, j).next[s] == l.next[s] + if s == segment {
                len as int
            } else {
                0
            }
        }),
{
}

/// The instructions of columns: for each the tree, the segment, the start and the length of
/// its source.
pub proof fn law_instructions(cols: Seq<ColumnView>, k: int)
    requires
        0 <= k < cols.len(),
    ensures
        instructions(cols).len() == cols.len(),
        instructions(cols)[k].0 == cols[k].loc.src.0,
        instructions(cols)[k].1 == cols[k].loc.src.1,
        instructions(cols)[k].2 == cols[k].loc.src.2,
        instructions(cols)[k].3 == cols[k].loc.src.3,
{
}

/// How long a segment is: the sum of the lengths of the columns that are stored in it, told
/// by the partial sums.
pub proof fn law_segment_total(cols: Seq<ColumnView>, segment: usize, sums: Seq<int>)
    requires
        sums.len() == cols.len() + 1,
        sums[0] == 0,
        forall|k: int|
            0 <= k < cols.len() ==> sums[k + 1] == sums[k] + match (#[trigger] cols[k]).loc.dest {
                Some(d) => if d.0 == segment {
                    d.2 as int
                } else {
                    0
                },
                None => 0,
            },
    ensures
        seg_total(cols, segment as int) == sums[cols.len() as int],
        segment < crate::container_config::N_SEGMENTS && sums[cols.len() as int] <= usize::MAX ==> segment_totals(
            cols,
        )[segment as int] == sums[cols.len() as int],
    decreases cols.len(),
{
    if cols.len() > 0 {
        let (c, s) = (cols.drop_last(), sums.drop_last());
        assert forall|k: int| 0 <= k < c.len() implies s[k + 1] == s[k] + match (#[trigger] c[k]).loc.dest {
            Some(d) => if d.0 == segment {
                d.2 as int
            } else {
                0
            },
            None => 0,
        } by {
            assert(c[k] == cols[k]);
        }
        law_segment_total(c, segment, s);
        assert(cols[cols.len() - 1] == cols.last());
    }
}

/// How a tree is printed: its name behind the indent, and behind it its parts one after the
/// other, each line indented by one space more. `starts` tells on which line each part
/// begins.
pub proof fn law_lines(parts: Seq<ConfigView>, name: Seq<char>, path: Seq<char>, indent: Seq<char>, starts: Seq<int>, k: int)
    requires
        starts.len() == parts.len() + 1,
        starts[0] == 1,
        forall|i: int|
            0 <= i < parts.len() ==> starts[i + 1] == starts[i] + (#[trigger] parts[i]).lines(indent + seq![' ']).len(),
        0 <= k < parts.len(),
    ensures
        ({
            let all = ConfigView::Complex(parts, name, path).lines(indent);
            &&& all[0] == indent + name
            &&& all.len() == starts[parts.len() as int]
            &&& 0 < starts[k] <= starts[k + 1] <= all.len()
            &&& all.subrange(starts[k], starts[k + 1]) == parts[k].lines(indent + seq![' '])
        }),
{
    let more = indent.push(' ');
    assert(more =~= indent + seq![' ']);
    lemma_lines_of(parts, more, starts, parts.len() as int, k);
    let (all, rest) = (ConfigView::Complex(parts, name, path).lines(indent), ConfigView::lines_of(parts, more));
    assert(parts.take(parts.len() as int) =~= parts);
    assert(all =~= seq![indent + name] + rest);
    assert(all.subrange(starts[k], starts[k + 1]) =~= rest.subrange(starts[k] - 1, starts[k + 1] - 1));
}

/// A column is printed on one line.
pub proof fn law_column_line(loc: LocationView, name: Seq<char>, path: Seq<char>, indent: Seq<char>)
    ensures
        ConfigView::Column(loc, name, path).lines(indent) == seq![indent + name],
{
}

proof fn lemma_lines_of(parts: Seq<ConfigView>, indent: Seq<char>, starts: Seq<int>, n: int, k: int)
    requires
        starts.len() == parts.len() + 1,
        starts[0] == 1,
        forall|i: int|
            0 <= i < parts.len() ==> starts[i + 1] == starts[i] + (#[trigger] parts[i]).lines(indent).len(),
        0 <= k < n <= parts.len(),
    ensures
        ({
            let rest = ConfigView::lines_of(parts.take(n), indent);
            &&& rest.len() == starts[n] - 1
            &&& 0 < starts[k] <= starts[k + 1] <= rest.len() + 1
            &&& rest.subrange(starts[k] - 1, starts[k + 1] - 1) == parts[k].lines(indent)
        }),
    decreases n,
{
    let p = parts.take(n);
    let rest = ConfigView::lines_of(p, indent);
    assert(p.drop_last() =~= parts.take(n - 1));
    assert(p.last() == parts[n - 1]);
    let before = ConfigView::lines_of(parts.take(n - 1), indent);
    if n == 1 {
        assert(parts.take(0) =~= Seq::empty());
        assert(rest =~= parts[0].lines(indent));
        assert(rest.subrange(0, rest.len() as int) =~= rest);
    } else {
        let i: int = if k < n - 1 {
            k
        } else {
            n - 2
        };
        lemma_lines_of(parts, indent, starts, n - 1, i);
        assert(rest =~= before + parts[n - 1].lines(indent));
        if k < n - 1 {
            assert(rest.subrange(starts[k] - 1, starts[k + 1] - 1) =~= before.subrange(starts[k] - 1, starts[k + 1] - 1));
        } else {
            assert(rest.subrange(starts[k] - 1, starts[k + 1] - 1) =~= parts[k].lines(indent));
        }
    }
}

} // verus!
