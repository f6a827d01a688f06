//! Where the columns of a gadget's containers are read from and stored.
//!
//! A gadget's statement vector is the serialisation of a tree of containers whose
//! leaves are columns. Each column has one storage place; containers may refer to
//! columns of other gadgets by path.
use vstd::prelude::*;
use vstd::string::StringExecFns;
use crate::paths::child_path;
use crate::paths::join;
use crate::paths::split_whitespace;

verus! {

/// The number of segments of a statement: word, input, output, data, the three
/// `si` segments, failed and discharged signatures.
pub const N_SEGMENTS: usize = 9;

/// Where a column is loaded from and stored to.
#[derive(Debug)]
pub struct Location {
    /// Offset of the gadget that holds the column relative to this one, segment,
    /// start, length, the query (words separated by white space) when the column
    /// is another gadget's, and whether the place is resolved.
    pub src: (i32, usize, usize, usize, String, bool),
    /// Segment, start and length of the place where the column is saved in its
    /// owner's statement; none when another gadget owns it.
    pub dest: Option<(usize, usize, usize)>,
}

/// The tree of a container.
#[derive(Debug)]
pub enum ContainerConfig {
    /// A column: its location, name and absolute path.
    Column(Location, String, String),
    /// A container of containers: the parts, name and absolute path.
    Complex(Vec<ContainerConfig>, String, String),
}

/// A location with its query as a sequence of characters.
pub struct LocationView {
    pub src: (i32, usize, usize, usize, Seq<char>, bool),
    pub dest: Option<(usize, usize, usize)>,
}

/// A container tree as mathematical data.
pub enum ConfigView {
    Column(LocationView, Seq<char>, Seq<char>),
    Complex(Seq<ConfigView>, Seq<char>, Seq<char>),
}

/// One column of a container tree.
pub struct ColumnView {
    pub loc: LocationView,
    pub name: Seq<char>,
    pub path: Seq<char>,
}

impl View for Location {
    type V = LocationView;

    open spec fn view(&self) -> LocationView {
        LocationView {
            src: (self.src.0, self.src.1, self.src.2, self.src.3, self.src.4@, self.src.5),
            dest: self.dest,
        }
    }
}

impl View for ContainerConfig {
    type V = ConfigView;

    open spec fn view(&self) -> ConfigView {
        ContainerConfig::model(*self)
    }
}

impl ContainerConfig {
    pub open spec fn model(c: ContainerConfig) -> ConfigView
        decreases c,
    {
        match c {
            ContainerConfig::Column(loc, name, path) => ConfigView::Column(loc@, name@, path@),
            ContainerConfig::Complex(parts, name, path) => ConfigView::Complex(
                ContainerConfig::models(parts@),
                name@,
                path@,
            ),
        }
    }

    /// The trees of a list of containers.
    pub open spec fn models(s: Seq<ContainerConfig>) -> Seq<ConfigView>
        decreases s,
    {
        if s.len() == 0 {
            Seq::empty()
        } else {
            ContainerConfig::models(s.drop_last()).push(ContainerConfig::model(s.last()))
        }
    }

    proof fn lemma_models(s: Seq<ContainerConfig>)
        ensures
            ContainerConfig::models(s).len() == s.len(),
            forall|i: int| 0 <= i < s.len() ==> #[trigger] ContainerConfig::models(s)[i] == s[i]@,
        decreases s.len(),
    {
        if s.len() > 0 {
            ContainerConfig::lemma_models(s.drop_last());
        }
    }
}

impl ConfigView {
    pub open spec fn name(self) -> Seq<char> {
        match self {
            ConfigView::Column(_, name, _) => name,
            ConfigView::Complex(_, name, _) => name,
        }
    }

    pub open spec fn path(self) -> Seq<char> {
        match self {
            ConfigView::Column(_, _, path) => path,
            ConfigView::Complex(_, _, path) => path,
        }
    }

    /// The columns of the tree, each part's before the next part's.
    pub open spec fn columns(self) -> Seq<ColumnView>
        decreases self,
    {
        match self {
            ConfigView::Column(loc, name, path) => seq![ColumnView { loc, name, path }],
            ConfigView::Complex(parts, _, _) => ConfigView::columns_of(parts),
        }
    }

    /// The columns of a list of trees, in order.
    pub open spec fn columns_of(s: Seq<ConfigView>) -> Seq<ColumnView>
        decreases s,
    {
        if s.len() == 0 {
            Seq::empty()
        } else {
            ConfigView::columns_of(s.drop_last()) + s.last().columns()
        }
    }

    /// The tree with every path replaced by the parent's path, a space and the
    /// name.
    pub open spec fn with_paths(self, parent: Seq<char>) -> ConfigView
        decreases self,
    {
        let path = parent + seq![' '] + self.name();
        match self {
            ConfigView::Column(loc, name, _) => ConfigView::Column(loc, name, path),
            ConfigView::Complex(parts, name, _) => ConfigView::Complex(
                ConfigView::with_paths_of(parts, path),
                name,
                path,
            ),
        }
    }

    pub open spec fn with_paths_of(s: Seq<ConfigView>, parent: Seq<char>) -> Seq<ConfigView>
        decreases s,
    {
        if s.len() == 0 {
            Seq::empty()
        } else {
            ConfigView::with_paths_of(s.drop_last(), parent).push(s.last().with_paths(parent))
        }
    }

    /// The tree with every column at the path `at` replaced by `col`.
    pub open spec fn with_column(self, at: Seq<char>, col: ColumnView) -> ConfigView
        decreases self,
    {
        match self {
            ConfigView::Column(loc, name, path) => if path == at {
                ConfigView::Column(col.loc, col.name, col.path)
            } else {
                self
            },
            ConfigView::Complex(parts, name, path) => ConfigView::Complex(
                ConfigView::with_column_of(parts, at, col),
                name,
                path,
            ),
        }
    }

    pub open spec fn with_column_of(s: Seq<ConfigView>, at: Seq<char>, col: ColumnView) -> Seq<ConfigView>
        decreases s,
    {
        if s.len() == 0 {
            Seq::empty()
        } else {
            ConfigView::with_column_of(s.drop_last(), at, col).push(s.last().with_column(at, col))
        }
    }
}

/// Whether one of the trees has the name `name`.
pub open spec fn has_part(parts: Seq<ConfigView>, name: Seq<char>) -> bool {
    exists|i: int| 0 <= i < parts.len() && (#[trigger] parts[i]).name() == name
}

/// The place of a tree with the name `name`.
pub open spec fn part_index(parts: Seq<ConfigView>, name: Seq<char>) -> int {
    choose|i: int| 0 <= i < parts.len() && (#[trigger] parts[i]).name() == name
}

/// Whether at most one of the trees has the name `name`.
pub open spec fn one_part(parts: Seq<ConfigView>, name: Seq<char>) -> bool {
    forall|i: int, j: int|
        0 <= i < parts.len() && 0 <= j < parts.len() && (#[trigger] parts[i]).name() == name && (
        #[trigger] parts[j]).name() == name ==> i == j
}

/// The tree of a search result.
pub open spec fn found(r: Option<ContainerConfig>) -> Option<ConfigView> {
    match r {
        Some(c) => Some(c@),
        None => None,
    }
}

impl ConfigView {
    /// The node that `names`, the names from the root down, lead to.
    pub open spec fn find(self, names: Seq<Seq<char>>) -> Option<ConfigView>
        decreases names.len(),
    {
        if names.len() == 0 || names[0] != self.name() {
            None
        } else if names.len() == 1 {
            Some(self)
        } else {
            match self {
                ConfigView::Column(_, _, _) => None,
                ConfigView::Complex(parts, _, _) => if has_part(parts, names[1]) {
                    parts[part_index(parts, names[1])].find(names.drop_first())
                } else {
                    None
                },
            }
        }
    }

    /// Whether the names can be followed: there is a first one, and no name that the
    /// walk takes is borne by two parts of a node.
    pub open spec fn find_ok(self, names: Seq<Seq<char>>) -> bool
        decreases names.len(),
    {
        &&& names.len() > 0
        &&& names[0] == self.name() && names.len() > 1 ==> match self {
            ConfigView::Column(_, _, _) => true,
            ConfigView::Complex(parts, _, _) => {
                &&& one_part(parts, names[1])
                &&& has_part(parts, names[1]) ==> parts[part_index(parts, names[1])].find_ok(
                    names.drop_first(),
                )
            },
        }
    }

    /// The tree with the location of its `j`-th column replaced.
    pub open spec fn with_location(self, j: int, loc: LocationView) -> ConfigView
        decreases self,
    {
        match self {
            ConfigView::Column(_, name, path) => ConfigView::Column(loc, name, path),
            ConfigView::Complex(parts, name, path) => ConfigView::Complex(
                ConfigView::with_location_of(parts, j, loc),
                name,
                path,
            ),
        }
    }

    pub open spec fn with_location_of(s: Seq<ConfigView>, j: int, loc: LocationView) -> Seq<ConfigView>
        decreases s,
    {
        if s.len() == 0 {
            Seq::empty()
        } else {
            let before = ConfigView::columns_of(s.drop_last()).len();
            if j < before {
                ConfigView::with_location_of(s.drop_last(), j, loc).push(s.last())
            } else {
                s.drop_last().push(s.last().with_location(j - before, loc))
            }
        }
    }

    pub proof fn lemma_with_location_of(s: Seq<ConfigView>, i: int, j: int, loc: LocationView)
        requires
            0 <= i < s.len(),
            ConfigView::columns_of(s.take(i)).len() <= j < ConfigView::columns_of(s.take(i + 1)).len(),
        ensures
            ConfigView::with_location_of(s, j, loc) == s.update(
                i,
                s[i].with_location(j - ConfigView::columns_of(s.take(i)).len(), loc),
            ),
        decreases s.len(),
    {
        let new = s[i].with_location(j - ConfigView::columns_of(s.take(i)).len(), loc);
        let p = s.drop_last();
        if i + 1 == s.len() {
            assert(s.take(i) =~= p);
            assert(p.push(new) =~= s.update(i, new));
        } else {
            assert(p.take(i) =~= s.take(i));
            assert(p.take(i + 1) =~= s.take(i + 1));
            ConfigView::lemma_with_location_of(p, i, j, loc);
            lemma_columns_split(p, i);
            assert(p.update(i, new).push(s.last()) =~= s.update(i, new));
        }
    }

    pub proof fn lemma_with_paths_of(s: Seq<ConfigView>, parent: Seq<char>)
        ensures
            ConfigView::with_paths_of(s, parent).len() == s.len(),
            forall|i: int|
                0 <= i < s.len() ==> #[trigger] ConfigView::with_paths_of(s, parent)[i] == s[i].with_paths(parent),
        decreases s.len(),
    {
        if s.len() > 0 {
            ConfigView::lemma_with_paths_of(s.drop_last(), parent);
        }
    }

    pub proof fn lemma_with_column_of(s: Seq<ConfigView>, at: Seq<char>, col: ColumnView)
        ensures
            ConfigView::with_column_of(s, at, col).len() == s.len(),
            forall|i: int|
                0 <= i < s.len() ==> #[trigger] ConfigView::with_column_of(s, at, col)[i] == s[i].with_column(at, col),
        decreases s.len(),
    {
        if s.len() > 0 {
            ConfigView::lemma_with_column_of(s.drop_last(), at, col);
        }
    }
}

/// How many of the columns have the path `path`.
pub open spec fn count_at(cols: Seq<ColumnView>, path: Seq<char>) -> nat
    decreases cols.len(),
{
    if cols.len() == 0 {
        0
    } else {
        count_at(cols.drop_last(), path) + if cols.last().path == path {
            1nat
        } else {
            0nat
        }
    }
}

/// The total length of the columns that are stored in segment `seg`.
pub open spec fn seg_total(cols: Seq<ColumnView>, seg: int) -> nat
    decreases cols.len(),
{
    if cols.len() == 0 {
        0
    } else {
        seg_total(cols.drop_last(), seg) + cols.last().loc.stored_in(seg)
    }
}

impl LocationView {
    /// The length that the column takes in segment `seg` of its owner's statement.
    pub open spec fn stored_in(self, seg: int) -> nat {
        match self.dest {
            Some(d) => if d.0 == seg {
                d.2 as nat
            } else {
                0
            },
            None => 0,
        }
    }

    /// Offset, segment, start and length of the column's source.
    pub open spec fn instruction(self) -> (i32, usize, usize, usize) {
        (self.src.0, self.src.1, self.src.2, self.src.3)
    }
}

proof fn lemma_count_add(a: Seq<ColumnView>, b: Seq<ColumnView>, path: Seq<char>)
    ensures
        count_at(a + b, path) == count_at(a, path) + count_at(b, path),
    decreases b.len(),
{
    if b.len() == 0 {
        assert(a + b =~= a);
    } else {
        assert((a + b).drop_last() =~= a + b.drop_last());
        lemma_count_add(a, b.drop_last(), path);
    }
}

proof fn lemma_count_bound(a: Seq<ColumnView>, path: Seq<char>)
    ensures
        count_at(a, path) <= a.len(),
    decreases a.len(),
{
    if a.len() > 0 {
        lemma_count_bound(a.drop_last(), path);
    }
}

pub proof fn lemma_total_add(a: Seq<ColumnView>, b: Seq<ColumnView>, seg: int)
    ensures
        seg_total(a + b, seg) == seg_total(a, seg) + seg_total(b, seg),
    decreases b.len(),
{
    if b.len() == 0 {
        assert(a + b =~= a);
    } else {
        assert((a + b).drop_last() =~= a + b.drop_last());
        lemma_total_add(a, b.drop_last(), seg);
    }
}

/// The columns of the first trees of a list are a prefix of its columns, and
/// those of the next tree follow.
pub proof fn lemma_columns_split(s: Seq<ConfigView>, i: int)
    requires
        0 <= i < s.len(),
    ensures
        ConfigView::columns_of(s.take(i + 1)) == ConfigView::columns_of(s.take(i)) + s[i].columns(),
        exists|rest: Seq<ColumnView>|
            ConfigView::columns_of(s) == #[trigger] (ConfigView::columns_of(s.take(i + 1)) + rest),
    decreases s.len(),
{
    assert(s.take(i + 1).drop_last() =~= s.take(i));
    if i + 1 == s.len() {
        assert(s.take(i + 1) =~= s);
        assert(ConfigView::columns_of(s) =~= ConfigView::columns_of(s.take(i + 1)) + Seq::<ColumnView>::empty());
    } else {
        let p = s.drop_last();
        lemma_columns_split(p, i);
        assert(p.take(i + 1) =~= s.take(i + 1));
        let r = choose|rest: Seq<ColumnView>|
            ConfigView::columns_of(p) == #[trigger] (ConfigView::columns_of(p.take(i + 1)) + rest);
        assert(ConfigView::columns_of(s) =~= ConfigView::columns_of(s.take(i + 1)) + (r + s.last().columns()));
    }
}

/// Whether every column of the list is stored in one of the segments and every
/// segment's total length is a machine integer.
pub open spec fn sizes_fit(cols: Seq<ColumnView>) -> bool {
    &&& forall|k: int| 0 <= k < cols.len() ==> (#[trigger] cols[k]).loc.stored_ok()
    &&& forall|seg: int| 0 <= seg < N_SEGMENTS ==> #[trigger] seg_total(cols, seg) <= usize::MAX
}

/// Whether every column's source is resolved.
pub open spec fn all_resolved(cols: Seq<ColumnView>) -> bool {
    forall|k: int| 0 <= k < cols.len() ==> (#[trigger] cols[k]).loc.src.5
}

/// The sources of the columns, in order.
pub open spec fn instructions(cols: Seq<ColumnView>) -> Seq<(i32, usize, usize, usize)> {
    cols.map_values(|c: ColumnView| c.loc.instruction())
}

/// The total length of the columns in each segment.
pub open spec fn segment_totals(cols: Seq<ColumnView>) -> Seq<usize> {
    Seq::new(N_SEGMENTS as nat, |s: int| seg_total(cols, s) as usize)
}

impl LocationView {
    /// Whether the column's segment, if it is stored, is one of the statement's.
    pub open spec fn stored_ok(self) -> bool {
        self.dest matches Some(d) ==> d.0 < N_SEGMENTS
    }
}

impl Location {
    /// The instruction that builds the column from a statement vector.
    pub fn gen_stmt_map_instructions(&self) -> (r: Vec<(i32, usize, usize, usize)>)
        requires
            self.src.5,
        ensures
            r@ == seq![self@.instruction()],
    {
        let mut r: Vec<(i32, usize, usize, usize)> = Vec::new();
        r.push((self.src.0, self.src.1, self.src.2, self.src.3));
        r
    }

    /// What the column adds to each segment of its owner's statement.
    pub fn get_to_add_size(&self) -> (r: Vec<usize>)
        requires
            self@.stored_ok(),
        ensures
            r@ == Seq::new(N_SEGMENTS as nat, |s: int| self@.stored_in(s) as usize),
    {
        let mut r: Vec<usize> = vec![0usize; N_SEGMENTS];
        match self.dest {
            Some(d) => {
                r.set(d.0, d.2);
            },
            None => {},
        }
        assert(r@ =~= Seq::new(N_SEGMENTS as nat, |s: int| self@.stored_in(s) as usize));
        r
    }
}

impl Clone for Location {
    fn clone(&self) -> (r: Location)
        ensures
            r@ == self@,
    {
        Location {
            src: (self.src.0, self.src.1, self.src.2, self.src.3, self.src.4.clone(), self.src.5),
            dest: self.dest,
        }
    }
}

impl Clone for ContainerConfig {
    fn clone(&self) -> (r: ContainerConfig)
        ensures
            r@ == self@,
        decreases self,
    {
        match self {
            ContainerConfig::Column(loc, name, path) => ContainerConfig::Column(
                loc.clone(),
                name.clone(),
                path.clone(),
            ),
            ContainerConfig::Complex(parts, name, path) => {
                let mut copy: Vec<ContainerConfig> = Vec::new();
                let mut i: usize = 0;
                while i < parts.len()
                    invariant
                        i <= parts@.len(),
                        decreases_to!(self => parts),
                        copy@.len() == i,
                        forall|k: int| 0 <= k < i ==> (#[trigger] copy@[k])@ == parts@[k]@,
                    decreases parts.len() - i,
                {
                    assert(decreases_to!(parts => parts@));
                    assert(decreases_to!(parts@ => parts@[i as int]));
                    copy.push(parts[i].clone());
                    i = i + 1;
                }
                proof {
                    ContainerConfig::lemma_models(parts@);
                    ContainerConfig::lemma_models(copy@);
                    assert(ContainerConfig::models(copy@) =~= ContainerConfig::models(parts@));
                }
                ContainerConfig::Complex(copy, name.clone(), path.clone())
            },
        }
    }
}

impl ContainerConfig {
    /// Sets the tree's paths below `parent_path`: a node's path is its parent's
    /// path, a space and its own name.
    pub fn reset_path(&mut self, parent_path: &String)
        ensures
            final(self)@ == old(self)@.with_paths(parent_path@),
        decreases *old(self),
    {
        match self {
            ContainerConfig::Column(_, name, path) => {
                let new_path = child_path(parent_path.as_str(), name.as_str());
                *path = new_path;
            },
            ContainerConfig::Complex(parts, name, path) => {
                let new_path = child_path(parent_path.as_str(), name.as_str());
                let ghost before = parts@;
                let mut i: usize = 0;
                while i < parts.len()
                    invariant
                        i <= parts@.len(),
                        parts@.len() == before.len(),
                        decreases_to!(*old(self) => before),
                        forall|k: int| 0 <= k < i ==> (#[trigger] parts@[k])@ == before[k]@.with_paths(new_path@),
                        forall|k: int| i <= k < before.len() ==> #[trigger] parts@[k] == before[k],
                    decreases parts.len() - i,
                {
                    assert(decreases_to!(before => before[i as int]));
                    parts[i].reset_path(&new_path);
                    i = i + 1;
                }
                proof {
                    ContainerConfig::lemma_models(parts@);
                    ContainerConfig::lemma_models(before);
                    ConfigView::lemma_with_paths_of(ContainerConfig::models(before), new_path@);
                    assert(ContainerConfig::models(parts@) =~= ConfigView::with_paths_of(
                        ContainerConfig::models(before),
                        new_path@,
                    ));
                }
                *path = new_path;
            },
        }
    }

    /// The tree's name.
    pub fn get_name(&self) -> (r: String)
        ensures
            r@ == self@.name(),
    {
        match self {
            ContainerConfig::Column(_, name, _) => name.clone(),
            ContainerConfig::Complex(_, name, _) => name.clone(),
        }
    }

    /// The tree's absolute path.
    pub fn get_path(&self) -> (r: String)
        ensures
            r@ == self@.path(),
    {
        match self {
            ContainerConfig::Column(_, _, path) => path.clone(),
            ContainerConfig::Complex(_, _, path) => path.clone(),
        }
    }

    /// Replaces every column at `path` by `new_col`, and returns how many there
    /// were.
    pub fn update_col(&mut self, path: &str, new_col: &ContainerConfig) -> (r: usize)
        requires
            old(self)@.columns().len() > 0 ==> new_col is Column,
            old(self)@.columns().len() <= usize::MAX,
        ensures
            r == count_at(old(self)@.columns(), path@),
            final(self)@ == old(self)@.with_column(path@, new_col@.columns()[0]),
        decreases *old(self),
    {
        match self {
            ContainerConfig::Column(loc, name, own_path) => {
                reveal_with_fuel(count_at, 2);
                let at: String = path.to_owned();
                match new_col {
                    ContainerConfig::Column(new_loc, new_name, new_path) => {
                        if *own_path == at {
                            *loc = new_loc.clone();
                            *name = new_name.clone();
                            *own_path = new_path.clone();
                            1
                        } else {
                            0
                        }
                    },
                    ContainerConfig::Complex(_, _, _) => 0,
                }
            },
            ContainerConfig::Complex(parts, _, _) => {
                let ghost before = parts@;
                let ghost trees = ContainerConfig::models(before);
                proof {
                    ContainerConfig::lemma_models(before);
                    assert(trees.take(0) =~= Seq::empty());
                }
                let mut count: usize = 0;
                let mut i: usize = 0;
                while i < parts.len()
                    invariant
                        i <= parts@.len(),
                        parts@.len() == before.len(),
                        trees == ContainerConfig::models(before),
                        trees.len() == before.len(),
                        forall|k: int| 0 <= k < before.len() ==> #[trigger] trees[k] == before[k]@,
                        decreases_to!(*old(self) => before),
                        ConfigView::columns_of(trees).len() > 0 ==> new_col is Column,
                        ConfigView::columns_of(trees).len() <= usize::MAX,
                        count == count_at(ConfigView::columns_of(trees.take(i as int)), path@),
                        forall|k: int| 0 <= k < i ==> (#[trigger] parts@[k])@
                            == before[k]@.with_column(path@, new_col@.columns()[0]),
                        forall|k: int| i <= k < before.len() ==> #[trigger] parts@[k] == before[k],
                    decreases parts.len() - i,
                {
                    assert(decreases_to!(before => before[i as int]));
                    proof {
                        lemma_columns_split(trees, i as int);
                        lemma_count_add(
                            ConfigView::columns_of(trees.take(i as int)),
                            trees[i as int].columns(),
                            path@,
                        );
                        lemma_count_bound(ConfigView::columns_of(trees.take(i + 1)), path@);
                        assert(parts@[i as int]@ == trees[i as int]);
                    }
                    let n: usize = parts[i].update_col(path, new_col);
                    count = count + n;
                    i = i + 1;
                }
                proof {
                    assert(trees.take(i as int) =~= trees);
                    ContainerConfig::lemma_models(parts@);
                    ConfigView::lemma_with_column_of(trees, path@, new_col@.columns()[0]);
                    assert(ContainerConfig::models(parts@) =~= ConfigView::with_column_of(
                        trees,
                        path@,
                        new_col@.columns()[0],
                    ));
                }
                count
            },
        }
    }

    /// The path of the tree's parent: the words of its own path but the last,
    /// joined by single spaces.
    pub fn get_parent_path(&self) -> (r: String)
        requires
            crate::paths::words(self@.path()).len() > 0,
        ensures
            r@ == crate::paths::join_words(crate::paths::words(self@.path()).drop_last()),
    {
        let path = self.get_path();
        let names = split_whitespace(path.as_str());
        let ghost w = crate::paths::texts(names@);
        assert(w.len() == names@.len());
        assert(w.take(w.len() - 1) =~= w.drop_last());
        join(&names, names.len() - 1)
    }

    /// The instructions that build the tree's columns, in order.
    pub fn gen_stmt_map_instructions(&self) -> (r: Vec<(i32, usize, usize, usize)>)
        requires
            all_resolved(self@.columns()),
        ensures
            r@ == instructions(self@.columns()),
        decreases self,
    {
        match self {
            ContainerConfig::Column(loc, _, _) => {
                assert(self@.columns()[0].loc == loc@);
                let r = loc.gen_stmt_map_instructions();
                assert(r@ =~= instructions(self@.columns()));
                r
            },
            ContainerConfig::Complex(parts, _, _) => {
                let ghost trees = ContainerConfig::models(parts@);
                proof {
                    ContainerConfig::lemma_models(parts@);
                    assert(trees.take(0) =~= Seq::empty());
                }
                let mut r: Vec<(i32, usize, usize, usize)> = Vec::new();
                assert(r@ =~= instructions(ConfigView::columns_of(trees.take(0))));
                let mut i: usize = 0;
                while i < parts.len()
                    invariant
                        i <= parts@.len(),
                        trees == ContainerConfig::models(parts@),
                        trees.len() == parts@.len(),
                        forall|k: int| 0 <= k < trees.len() ==> #[trigger] trees[k] == parts@[k]@,
                        decreases_to!(self => parts),
                        all_resolved(ConfigView::columns_of(trees)),
                        r@ == instructions(ConfigView::columns_of(trees.take(i as int))),
                    decreases parts.len() - i,
                {
                    assert(decreases_to!(parts => parts@));
                    assert(decreases_to!(parts@ => parts@[i as int]));
                    proof {
                        lemma_columns_split(trees, i as int);
                        let all = ConfigView::columns_of(trees);
                        let done = ConfigView::columns_of(trees.take(i as int));
                        let here = trees[i as int].columns();
                        assert forall|k: int| 0 <= k < here.len() implies (#[trigger] here[k]).loc.src.5 by {
                            assert(here[k] == all[done.len() + k]);
                        }
                    }
                    let mut more = parts[i].gen_stmt_map_instructions();
                    let ghost old_r = r@;
                    let ghost old_more = more@;
                    r.append(&mut more);
                    assert(r@ =~= instructions(ConfigView::columns_of(trees.take(i + 1))));
                    i = i + 1;
                }
                assert(trees.take(i as int) =~= trees);
                r
            },
        }
    }

    /// What the tree's columns add to each segment of their owner's statement.
    pub fn get_to_add_size(&self) -> (r: Vec<usize>)
        requires
            sizes_fit(self@.columns()),
        ensures
            r@ == segment_totals(self@.columns()),
        decreases self,
    {
        match self {
            ContainerConfig::Column(loc, _, _) => {
                let ghost cols = self@.columns();
                assert(cols[0].loc == loc@);
                let r = loc.get_to_add_size();
                assert(cols.drop_last() =~= Seq::empty());
                assert forall|s: int| 0 <= s < N_SEGMENTS implies seg_total(cols, s) == loc@.stored_in(s) by {
                    assert(seg_total(cols.drop_last(), s) == 0);
                }
                assert(r@ =~= segment_totals(cols));
                r
            },
            ContainerConfig::Complex(parts, _, _) => {
                let ghost trees = ContainerConfig::models(parts@);
                let ghost all = ConfigView::columns_of(trees);
                proof {
                    ContainerConfig::lemma_models(parts@);
                    assert(trees.take(0) =~= Seq::empty());
                }
                let mut r: Vec<usize> = vec![0usize; N_SEGMENTS];
                assert(r@ =~= segment_totals(ConfigView::columns_of(trees.take(0))));
                let mut i: usize = 0;
                while i < parts.len()
                    invariant
                        i <= parts@.len(),
                        trees == ContainerConfig::models(parts@),
                        trees.len() == parts@.len(),
                        all == ConfigView::columns_of(trees),
                        forall|k: int| 0 <= k < trees.len() ==> #[trigger] trees[k] == parts@[k]@,
                        decreases_to!(self => parts),
                        sizes_fit(all),
                        r@ == segment_totals(ConfigView::columns_of(trees.take(i as int))),
                    decreases parts.len() - i,
                {
                    assert(decreases_to!(parts => parts@));
                    assert(decreases_to!(parts@ => parts@[i as int]));
                    let ghost done = ConfigView::columns_of(trees.take(i as int));
                    let ghost here = trees[i as int].columns();
                    let ghost rest: Seq<ColumnView>;
                    proof {
                        lemma_columns_split(trees, i as int);
                        rest = choose|rest: Seq<ColumnView>|
                            all == #[trigger] (ConfigView::columns_of(trees.take(i + 1)) + rest);
                        assert forall|s: int| 0 <= s < N_SEGMENTS implies seg_total(done, s) + seg_total(here, s)
                            <= usize::MAX && #[trigger] seg_total(here, s) <= usize::MAX by {
                            lemma_total_add(done, here, s);
                            lemma_total_add(done + here, rest, s);
                            assert(seg_total(all, s) <= usize::MAX);
                        }
                        assert forall|k: int| 0 <= k < here.len() implies (#[trigger] here[k]).loc.stored_ok() by {
                            assert(here[k] == all[done.len() + k]);
                        }
                    }
                    let more = parts[i].get_to_add_size();
                    let ghost before = r@;
                    let mut s: usize = 0;
                    while s < N_SEGMENTS
                        invariant
                            s <= N_SEGMENTS,
                            r@.len() == N_SEGMENTS,
                            before == segment_totals(done),
                            more@ == segment_totals(here),
                            forall|k: int|
                                0 <= k < N_SEGMENTS ==> seg_total(done, k) + seg_total(here, k) <= usize::MAX
                                    && #[trigger] seg_total(here, k) <= usize::MAX,
                            forall|k: int|
                                0 <= k < s ==> #[trigger] r@[k] == seg_total(done, k) + seg_total(here, k),
                            forall|k: int| s <= k < N_SEGMENTS ==> #[trigger] r@[k] == before[k],
                        decreases N_SEGMENTS - s,
                    {
                        assert(seg_total(here, s as int) <= usize::MAX);
                        assert(more@[s as int] == seg_total(here, s as int));
                        let sum: usize = r[s] + more[s];
                        r.set(s, sum);
                        s = s + 1;
                    }
                    proof {
                        assert forall|k: int| 0 <= k < N_SEGMENTS implies r@[k] == segment_totals(
                            ConfigView::columns_of(trees.take(i + 1)),
                        )[k] by {
                            lemma_total_add(done, here, k);
                        }
                        assert(r@ =~= segment_totals(ConfigView::columns_of(trees.take(i + 1))));
                    }
                    i = i + 1;
                }
                assert(trees.take(i as int) =~= trees);
                r
            },
        }
    }

    /// The node that the words of `qry_str` lead to from this tree's root, or
    /// none.
    pub fn search_by_path(&self, qry_str: &String) -> (r: Option<ContainerConfig>)
        requires
            self@.find_ok(crate::paths::words(qry_str@)),
        ensures
            found(r) == self@.find(crate::paths::words(qry_str@)),
    {
        let names = split_whitespace(qry_str.as_str());
        assert(crate::paths::texts(names@).skip(0) =~= crate::paths::texts(names@));
        self.search_by_path_worker(&names, 0)
    }

    fn search_by_path_worker(&self, names: &Vec<String>, from: usize) -> (r: Option<ContainerConfig>)
        requires
            from < names@.len(),
            self@.find_ok(crate::paths::texts(names@).skip(from as int)),
        ensures
            found(r) == self@.find(crate::paths::texts(names@).skip(from as int)),
        decreases names@.len() - from,
    {
        let ghost w = crate::paths::texts(names@).skip(from as int);
        assert(w[0] == names@[from as int]@);
        let total: usize = names.len();
        let name = self.get_name();
        if names[from] != name {
            return None;
        }
        if total - from == 1 {
            return Some(self.clone());
        }
        match self {
            ContainerConfig::Column(_, _, _) => None,
            ContainerConfig::Complex(parts, _, _) => {
                let ghost trees = ContainerConfig::models(parts@);
                proof {
                    ContainerConfig::lemma_models(parts@);
                    assert(w[1] == names@[from + 1]@);
                    assert(w.drop_first() =~= crate::paths::texts(names@).skip(from + 1));
                }
                let mut i: usize = 0;
                while i < parts.len()
                    invariant
                        i <= parts@.len(),
                        from + 1 < total,
                        total == names@.len(),
                        trees.len() == parts@.len(),
                        forall|k: int| 0 <= k < trees.len() ==> #[trigger] trees[k] == parts@[k]@,
                        w[1] == names@[from + 1]@,
                        w.drop_first() == crate::paths::texts(names@).skip(from + 1),
                        one_part(trees, w[1]),
                        has_part(trees, w[1]) ==> trees[part_index(trees, w[1])].find_ok(w.drop_first()),
                        self@.find(w) == (if has_part(trees, w[1]) {
                            trees[part_index(trees, w[1])].find(w.drop_first())
                        } else {
                            None
                        }),
                        w == crate::paths::texts(names@).skip(from as int),
                        forall|k: int| 0 <= k < i ==> (#[trigger] trees[k]).name() != w[1],
                    decreases parts.len() - i,
                {
                    let part_name = parts[i].get_name();
                    assert(trees[i as int] == parts@[i as int]@);
                    if part_name == names[from + 1] {
                        assert(part_index(trees, w[1]) == i);
                        return parts[i].search_by_path_worker(names, from + 1);
                    }
                    i = i + 1;
                }
                None
            },
        }
    }

    /// How many columns the tree has.
    fn column_count(&self) -> (r: usize)
        requires
            self@.columns().len() <= usize::MAX,
        ensures
            r == self@.columns().len(),
        decreases self,
    {
        match self {
            ContainerConfig::Column(_, _, _) => 1,
            ContainerConfig::Complex(parts, _, _) => {
                let ghost trees = ContainerConfig::models(parts@);
                proof {
                    ContainerConfig::lemma_models(parts@);
                    assert(trees.take(0) =~= Seq::empty());
                }
                let mut r: usize = 0;
                let mut i: usize = 0;
                while i < parts.len()
                    invariant
                        i <= parts@.len(),
                        trees.len() == parts@.len(),
                        forall|k: int| 0 <= k < trees.len() ==> #[trigger] trees[k] == parts@[k]@,
                        decreases_to!(self => parts),
                        ConfigView::columns_of(trees).len() <= usize::MAX,
                        r == ConfigView::columns_of(trees.take(i as int)).len(),
                    decreases parts.len() - i,
                {
                    assert(decreases_to!(parts => parts@));
                    assert(decreases_to!(parts@ => parts@[i as int]));
                    proof {
                        lemma_columns_split(trees, i as int);
                        assert(trees[i as int] == parts@[i as int]@);
                    }
                    let n: usize = parts[i].column_count();
                    r = r + n;
                    i = i + 1;
                }
                assert(trees.take(i as int) =~= trees);
                r
            },
        }
    }

    /// The location of the `j`-th column.
    fn column_location(&self, j: usize) -> (r: Location)
        requires
            j < self@.columns().len() <= usize::MAX,
        ensures
            r@ == self@.columns()[j as int].loc,
        decreases self,
    {
        match self {
            ContainerConfig::Column(loc, _, _) => loc.clone(),
            ContainerConfig::Complex(parts, _, _) => {
                let ghost trees = ContainerConfig::models(parts@);
                proof {
                    ContainerConfig::lemma_models(parts@);
                    assert(trees.take(0) =~= Seq::empty());
                }
                let mut skipped: usize = 0;
                let mut i: usize = 0;
                loop
                    invariant
                        i <= parts@.len(),
                        trees.len() == parts@.len(),
                        forall|k: int| 0 <= k < trees.len() ==> #[trigger] trees[k] == parts@[k]@,
                        decreases_to!(self => parts),
                        self@.columns() == ConfigView::columns_of(trees),
                        j < ConfigView::columns_of(trees).len() <= usize::MAX,
                        skipped == ConfigView::columns_of(trees.take(i as int)).len(),
                        skipped <= j,
                    decreases parts.len() - i,
                {
                    proof {
                        if i == trees.len() {
                            assert(trees.take(i as int) =~= trees);
                        }
                    }
                    assert(decreases_to!(parts => parts@));
                    assert(decreases_to!(parts@ => parts@[i as int]));
                    proof {
                        lemma_columns_split(trees, i as int);
                        assert(trees[i as int] == parts@[i as int]@);
                    }
                    let n: usize = parts[i].column_count();
                    if j - skipped < n {
                        return parts[i].column_location(j - skipped);
                    }
                    skipped = skipped + n;
                    i = i + 1;
                }
            },
        }
    }

    /// Gives the `j`-th column the location `loc`.
    fn set_column_location(&mut self, j: usize, loc: Location)
        requires
            j < old(self)@.columns().len() <= usize::MAX,
        ensures
            final(self)@ == old(self)@.with_location(j as int, loc@),
        decreases *old(self),
    {
        match self {
            ContainerConfig::Column(own, _, _) => {
                *own = loc;
            },
            ContainerConfig::Complex(parts, _, _) => {
                let ghost before = parts@;
                let ghost trees = ContainerConfig::models(before);
                proof {
                    ContainerConfig::lemma_models(before);
                    assert(trees.take(0) =~= Seq::empty());
                }
                let mut skipped: usize = 0;
                let mut i: usize = 0;
                let mut n: usize = 0;
                let m: usize = parts.len();
                loop
                    invariant
                        parts@ == before,
                        m == before.len(),
                        i <= before.len(),
                        trees.len() == before.len(),
                        forall|k: int| 0 <= k < trees.len() ==> #[trigger] trees[k] == before[k]@,
                        j < ConfigView::columns_of(trees).len() <= usize::MAX,
                        skipped == ConfigView::columns_of(trees.take(i as int)).len(),
                        skipped <= j,
                    ensures
                        i < before.len(),
                        skipped == ConfigView::columns_of(trees.take(i as int)).len(),
                        skipped <= j < skipped + trees[i as int].columns().len(),
                    decreases before.len() - i,
                {
                    proof {
                        if i == trees.len() {
                            assert(trees.take(i as int) =~= trees);
                        }
                        lemma_columns_split(trees, i as int);
                        assert(trees[i as int] == before[i as int]@);
                    }
                    n = parts[i].column_count();
                    if j - skipped < n {
                        break;
                    }
                    skipped = skipped + n;
                    i = i + 1;
                }
                assert(decreases_to!(before => before[i as int]));
                assert(trees[i as int] == before[i as int]@);
                proof {
                    lemma_columns_split(trees, i as int);
                }
                parts[i].set_column_location(j - skipped, loc);
                proof {
                    ContainerConfig::lemma_models(parts@);
                    ConfigView::lemma_with_location_of(trees, i as int, j as int, loc@);
                    assert(ContainerConfig::models(parts@) =~= ConfigView::with_location_of(trees, j as int, loc@));
                }
            },
        }
    }
}

/// The place of the last tree with the name `name`, -1 if there is none.
pub open spec fn last_named(trees: Seq<ConfigView>, name: Seq<char>) -> int
    decreases trees.len(),
{
    if trees.len() == 0 {
        -1
    } else if trees.last().name() == name {
        trees.len() - 1
    } else {
        last_named(trees.drop_last(), name)
    }
}

impl ConfigView {
    /// Whether every node's path holds the names from the root down to it, below
    /// the names `above`, and no two parts of a node share a name.
    pub open spec fn absolute(self, above: Seq<Seq<char>>) -> bool
        decreases self,
    {
        &&& crate::paths::words(self.path()) == above.push(self.name())
        &&& match self {
            ConfigView::Column(_, _, _) => true,
            ConfigView::Complex(parts, name, _) => {
                &&& ConfigView::absolute_of(parts, above.push(name))
                &&& forall|n: Seq<char>| #[trigger] one_part(parts, n)
            },
        }
    }

    pub open spec fn absolute_of(s: Seq<ConfigView>, above: Seq<Seq<char>>) -> bool
        decreases s,
    {
        s.len() > 0 ==> ConfigView::absolute_of(s.drop_last(), above) && s.last().absolute(above)
    }
}

/// The state of a layout: the trees of a component's gadgets, and for each
/// segment the first place that is free.
pub struct Layout {
    pub trees: Seq<ConfigView>,
    pub next: Seq<nat>,
}

impl Layout {
    /// Nothing is laid out.
    pub open spec fn start(trees: Seq<ConfigView>) -> Layout {
        Layout { trees, next: Seq::new(N_SEGMENTS as nat, |s: int| 0nat) }
    }

    /// The column that a foreign column of tree `r` refers to.
    pub open spec fn target(self, r: int, loc: LocationView) -> LocationView {
        self.trees[r + loc.src.0].find(crate::paths::words(loc.src.4))->0->Column_0
    }

    /// The new location of a column of tree `r`: a stored column goes to the
    /// first free place of its segment; a foreign one takes the place of the
    /// column that it refers to.
    pub open spec fn placed(self, r: int, loc: LocationView) -> LocationView {
        match loc.dest {
            Some(d) => {
                let start = self.next[d.0 as int] as usize;
                LocationView {
                    src: (0, d.0, start, d.2, Seq::empty(), true),
                    dest: Some((d.0, start, d.2)),
                }
            },
            None => {
                let t = self.target(r, loc);
                LocationView {
                    src: ((loc.src.0 + t.src.0) as i32, t.src.1, t.src.2, t.src.3, loc.src.4, true),
                    dest: None,
                }
            },
        }
    }

    /// Whether a column of tree `r` can be placed: a stored one has a segment
    /// with room, a foreign one refers to a resolved column.
    pub open spec fn can_place(self, r: int, loc: LocationView) -> bool {
        match loc.dest {
            Some(d) => d.0 < N_SEGMENTS && self.next[d.0 as int] + d.2 <= usize::MAX,
            None => {
                let at = r + loc.src.0;
                let names = crate::paths::words(loc.src.4);
                &&& r <= i32::MAX
                &&& 0 <= at < self.trees.len()
                &&& at <= i32::MAX
                &&& self.trees[at].find_ok(names)
                &&& self.trees[at].find(names) matches Some(ConfigView::Column(t, _, _))
                &&& t.src.5
                &&& i32::MIN <= loc.src.0 + t.src.0 <= i32::MAX
            },
        }
    }

    /// The layout with the `j`-th column of tree `r` placed.
    pub open spec fn step(self, r: int, j: int) -> Layout {
        let loc = self.trees[r].columns()[j].loc;
        Layout {
            trees: self.trees.update(r, self.trees[r].with_location(j, self.placed(r, loc))),
            next: Seq::new(N_SEGMENTS as nat, |s: int| self.next[s] + loc.stored_in(s)),
        }
    }

    /// The layout with the first `n` columns of tree `r` placed, one after the
    /// other.
    pub open spec fn place(self, r: int, n: nat) -> Layout
        decreases n,
    {
        if n == 0 {
            self
        } else {
            self.place(r, (n - 1) as nat).step(r, n - 1)
        }
    }

    pub open spec fn can_place_all(self, r: int, n: nat) -> bool
        decreases n,
    {
        n > 0 ==> {
            let before = self.place(r, (n - 1) as nat);
            self.can_place_all(r, (n - 1) as nat) && before.can_place(r, before.trees[r].columns()[n - 1].loc)
        }
    }

    /// The tree that the path of the `i`-th tree leads to.
    pub open spec fn root(self, i: int) -> int {
        last_named(self.trees, self.trees[i].name())
    }

    /// The layout of `trees` after its first `k` trees were taken up in turn.
    pub open spec fn of_first(trees: Seq<ConfigView>, k: nat) -> Layout
        decreases k,
    {
        if k == 0 {
            Layout::start(trees)
        } else {
            let before = Layout::of_first(trees, (k - 1) as nat);
            let r = before.root(k - 1);
            before.place(r, before.trees[r].columns().len())
        }
    }

    pub open spec fn can_place_first(trees: Seq<ConfigView>, k: nat) -> bool
        decreases k,
    {
        k > 0 ==> {
            let before = Layout::of_first(trees, (k - 1) as nat);
            let r = before.root(k - 1);
            Layout::can_place_first(trees, (k - 1) as nat) && before.can_place_all(
                r,
                before.trees[r].columns().len(),
            )
        }
    }

    /// The layout of all the trees.
    pub open spec fn of(trees: Seq<ConfigView>) -> Layout {
        Layout::of_first(trees, trees.len())
    }

    /// Whether the trees can be laid out: their paths are absolute, the columns of
    /// each can be counted, and each column can be placed when its turn comes.
    pub open spec fn possible(trees: Seq<ConfigView>) -> bool {
        &&& forall|i: int| 0 <= i < trees.len() ==> (#[trigger] trees[i]).absolute(Seq::empty())
        &&& forall|i: int| 0 <= i < trees.len() ==> (#[trigger] trees[i]).columns().len() <= usize::MAX
        &&& Layout::can_place_first(trees, trees.len())
    }
}

pub proof fn lemma_columns_update(s: Seq<ConfigView>, i: int, new: ConfigView)
    requires
        0 <= i < s.len(),
        new.columns().len() == s[i].columns().len(),
    ensures
        ({
            let skipped = ConfigView::columns_of(s.take(i)).len() as int;
            let cols = ConfigView::columns_of(s.update(i, new));
            let old_cols = ConfigView::columns_of(s);
            &&& cols.len() == old_cols.len()
            &&& skipped + new.columns().len() <= cols.len()
            &&& forall|k: int|
                0 <= k < cols.len() ==> #[trigger] cols[k] == (if skipped <= k < skipped + new.columns().len() {
                    new.columns()[k - skipped]
                } else {
                    old_cols[k]
                })
        }),
    decreases s.len(),
{
    let u = s.update(i, new);
    let p = s.drop_last();
    if i + 1 == s.len() {
        assert(u.drop_last() =~= p);
        assert(s.take(i) =~= p);
    } else {
        assert(u.drop_last() =~= p.update(i, new));
        assert(p.take(i) =~= s.take(i));
        lemma_columns_update(p, i, new);
    }
}

impl ConfigView {
    /// Replacing a column's location changes that column's location and nothing
    /// else of the tree's columns.
    pub proof fn lemma_with_location(self, j: int, loc: LocationView)
        requires
            0 <= j < self.columns().len(),
        ensures
            self.with_location(j, loc).columns() == self.columns().update(
                j,
                ColumnView { loc, name: self.columns()[j].name, path: self.columns()[j].path },
            ),
            self.with_location(j, loc).name() == self.name(),
        decreases self, 0nat,
    {
        match self {
            ConfigView::Column(_, name, path) => {
                assert(self.with_location(j, loc).columns() =~= self.columns().update(
                    j,
                    ColumnView { loc, name: self.columns()[j].name, path: self.columns()[j].path },
                ));
            },
            ConfigView::Complex(parts, name, path) => {
                ConfigView::lemma_with_location_list(parts, j, loc);
            },
        }
    }

    pub proof fn lemma_with_location_list(s: Seq<ConfigView>, j: int, loc: LocationView)
        requires
            0 <= j < ConfigView::columns_of(s).len(),
        ensures
            ConfigView::columns_of(ConfigView::with_location_of(s, j, loc)) == ConfigView::columns_of(s).update(
                j,
                ColumnView {
                    loc,
                    name: ConfigView::columns_of(s)[j].name,
                    path: ConfigView::columns_of(s)[j].path,
                },
            ),
        decreases s, 1nat,
    {
        let p = s.drop_last();
        let before = ConfigView::columns_of(p);
        let new_s = ConfigView::with_location_of(s, j, loc);
        if j < before.len() {
            ConfigView::lemma_with_location_list(p, j, loc);
            assert(new_s.drop_last() =~= ConfigView::with_location_of(p, j, loc));
        } else {
            s.last().lemma_with_location(j - before.len(), loc);
            assert(new_s.drop_last() =~= p);
        }
        assert(ConfigView::columns_of(new_s) =~= ConfigView::columns_of(s).update(
            j,
            ColumnView {
                loc,
                name: ConfigView::columns_of(s)[j].name,
                path: ConfigView::columns_of(s)[j].path,
            },
        ));
    }
}

impl Layout {
    /// Placing a column keeps the names and the numbers of columns.
    pub proof fn lemma_step(self, r: int, j: int)
        requires
            0 <= r < self.trees.len(),
            0 <= j < self.trees[r].columns().len(),
        ensures
            self.step(r, j).trees.len() == self.trees.len(),
            forall|i: int|
                0 <= i < self.trees.len() ==> {
                    &&& (#[trigger] self.step(r, j).trees[i]).name() == self.trees[i].name()
                    &&& self.step(r, j).trees[i].columns().len() == self.trees[i].columns().len()
                },
    {
        let loc = self.trees[r].columns()[j].loc;
        self.trees[r].lemma_with_location(j, self.placed(r, loc));
    }

    pub proof fn lemma_place(self, r: int, n: nat)
        requires
            0 <= r < self.trees.len(),
            n <= self.trees[r].columns().len(),
            self.next.len() == N_SEGMENTS,
        ensures
            self.place(r, n).trees.len() == self.trees.len(),
            self.place(r, n).next.len() == N_SEGMENTS,
            forall|i: int|
                0 <= i < self.trees.len() ==> {
                    &&& (#[trigger] self.place(r, n).trees[i]).name() == self.trees[i].name()
                    &&& self.place(r, n).trees[i].columns().len() == self.trees[i].columns().len()
                },
        decreases n,
    {
        if n > 0 {
            self.lemma_place(r, (n - 1) as nat);
            self.place(r, (n - 1) as nat).lemma_step(r, n - 1);
        }
    }

    pub proof fn lemma_can_place_all(self, r: int, n: nat, k: nat)
        requires
            k < n,
            self.can_place_all(r, n),
        ensures
            ({
                let before = self.place(r, k);
                before.can_place(r, before.trees[r].columns()[k as int].loc)
            }),
        decreases n,
    {
        if k + 1 < n {
            self.lemma_can_place_all(r, (n - 1) as nat, k);
        }
    }

    pub proof fn lemma_of_first(trees: Seq<ConfigView>, k: nat)
        requires
            k <= trees.len(),
        ensures
            Layout::of_first(trees, k).trees.len() == trees.len(),
            Layout::of_first(trees, k).next.len() == N_SEGMENTS,
            forall|i: int|
                0 <= i < trees.len() ==> {
                    &&& (#[trigger] Layout::of_first(trees, k).trees[i]).name() == trees[i].name()
                    &&& Layout::of_first(trees, k).trees[i].columns().len() == trees[i].columns().len()
                },
        decreases k,
    {
        if k > 0 {
            Layout::lemma_of_first(trees, (k - 1) as nat);
            let before = Layout::of_first(trees, (k - 1) as nat);
            lemma_last_named(before.trees, k - 1);
            before.lemma_place(before.root(k - 1), before.trees[before.root(k - 1)].columns().len());
        }
    }

    pub proof fn lemma_can_place_first(trees: Seq<ConfigView>, n: nat, k: nat)
        requires
            k < n,
            Layout::can_place_first(trees, n),
        ensures
            ({
                let before = Layout::of_first(trees, k);
                let r = before.root(k as int);
                before.can_place_all(r, before.trees[r].columns().len())
            }),
        decreases n,
    {
        if k + 1 < n {
            Layout::lemma_can_place_first(trees, (n - 1) as nat, k);
        }
    }
}

/// The last tree that bears the name of the `i`-th is not before it.
pub proof fn lemma_last_named(trees: Seq<ConfigView>, i: int)
    requires
        0 <= i < trees.len(),
    ensures
        i <= last_named(trees, trees[i].name()) < trees.len(),
        trees[last_named(trees, trees[i].name())].name() == trees[i].name(),
        forall|k: int|
            last_named(trees, trees[i].name()) < k < trees.len() ==> (#[trigger] trees[k]).name() != trees[i].name(),
    decreases trees.len(),
{
    if trees.last().name() != trees[i].name() {
        let p = trees.drop_last();
        lemma_last_named(p, i);
        let l = last_named(trees, trees[i].name());
        assert forall|k: int| l < k < trees.len() implies (#[trigger] trees[k]).name() != trees[i].name() by {
            if k < p.len() {
                assert(p[k] == trees[k]);
            }
        }
    }
}

impl ContainerConfig {
    /// Lays out the columns of a component's gadgets.
    ///
    /// Taken in order, each stored column goes to the first free place of its
    /// segment, and each foreign column is resolved to the place of the column that
    /// its query leads to. Places are relative to the start of the component.
    pub fn adjust_locations(vec_cfgs: &mut Vec<ContainerConfig>)
        requires
            Layout::possible(ContainerConfig::models(old(vec_cfgs)@)),
        ensures
            ContainerConfig::models(final(vec_cfgs)@) == Layout::of(
                ContainerConfig::models(old(vec_cfgs)@),
            ).trees,
    {
        let ghost trees = ContainerConfig::models(vec_cfgs@);
        proof {
            ContainerConfig::lemma_models(vec_cfgs@);
        }
        let mut dst_locs: Vec<usize> = vec![0usize; N_SEGMENTS];
        assert(as_nats(dst_locs@) =~= Layout::start(trees).next);
        let n: usize = vec_cfgs.len();
        let mut i: usize = 0;
        while i < n
            invariant
                i <= n,
                n == trees.len(),
                Layout::possible(trees),
                vec_cfgs@.len() == n,
                ContainerConfig::models(vec_cfgs@) == Layout::of_first(trees, i as nat).trees,
                as_nats(dst_locs@) == Layout::of_first(trees, i as nat).next,
            decreases n - i,
        {
            let ghost before = Layout::of_first(trees, i as nat);
            proof {
                Layout::lemma_of_first(trees, i as nat);
                Layout::lemma_can_place_first(trees, n as nat, i as nat);
                lemma_last_named(before.trees, i as int);
                ContainerConfig::lemma_models(vec_cfgs@);
            }
            let name = vec_cfgs[i].get_name();
            let mut r: usize = i;
            let mut k: usize = i;
            assert(before.trees[i as int] == vec_cfgs@[i as int]@);
            while k < n
                invariant
                    i <= r < n,
                    i <= k <= n,
                    n == vec_cfgs@.len(),
                    before.trees.len() == n,
                    before.trees == ContainerConfig::models(vec_cfgs@),
                    forall|m: int| 0 <= m < n ==> #[trigger] before.trees[m] == vec_cfgs@[m]@,
                    name@ == before.trees[i as int].name(),
                    before.trees[r as int].name() == name@,
                    r <= k,
                    forall|m: int| r < m < k ==> (#[trigger] before.trees[m]).name() != name@,
                decreases n - k,
            {
                assert(before.trees[k as int] == vec_cfgs@[k as int]@);
                let other = vec_cfgs[k].get_name();
                if other == name {
                    r = k;
                }
                k = k + 1;
            }
            assert(r == before.root(i as int)) by {
                let l = before.root(i as int);
                if r < l {
                    assert(before.trees[l].name() == name@);
                }
                if l < r {
                    assert(before.trees[r as int].name() == name@);
                }
            }
            ContainerConfig::adjust_columns(r, vec_cfgs, &mut dst_locs);
            i = i + 1;
        }
    }

    /// Lays out the columns of the `r`-th tree of `context`, from the free places
    /// `dst_locs` on.
    fn adjust_columns(r: usize, context: &mut Vec<ContainerConfig>, dst_locs: &mut Vec<usize>)
        requires
            r < old(context)@.len(),
            old(context)@[r as int]@.columns().len() <= usize::MAX,
            old(dst_locs)@.len() == N_SEGMENTS,
            ({
                let before = Layout {
                    trees: ContainerConfig::models(old(context)@),
                    next: as_nats(old(dst_locs)@),
                };
                before.can_place_all(r as int, before.trees[r as int].columns().len())
            }),
        ensures
            ({
                let before = Layout {
                    trees: ContainerConfig::models(old(context)@),
                    next: as_nats(old(dst_locs)@),
                };
                let after = before.place(r as int, before.trees[r as int].columns().len());
                &&& ContainerConfig::models(final(context)@) == after.trees
                &&& as_nats(final(dst_locs)@) == after.next
                &&& final(context)@.len() == old(context)@.len()
            }),
    {
        let ghost before = Layout { trees: ContainerConfig::models(context@), next: as_nats(dst_locs@) };
        proof {
            ContainerConfig::lemma_models(context@);
            assert(before.trees[r as int] == context@[r as int]@);
        }
        let n: usize = context[r].column_count();
        let mut j: usize = 0;
        while j < n
            invariant
                j <= n,
                n == before.trees[r as int].columns().len(),
                r < before.trees.len(),
                context@.len() == before.trees.len(),
                before.next.len() == N_SEGMENTS,
                before.can_place_all(r as int, n as nat),
                ContainerConfig::models(context@) == before.place(r as int, j as nat).trees,
                as_nats(dst_locs@) == before.place(r as int, j as nat).next,
            decreases n - j,
        {
            proof {
                before.lemma_place(r as int, j as nat);
                before.lemma_can_place_all(r as int, n as nat, j as nat);
                ContainerConfig::lemma_models(context@);
                assert(before.place(r as int, j as nat).trees[r as int] == context@[r as int]@);
            }
            ContainerConfig::adjust_column(r, j, context, dst_locs);
            j = j + 1;
        }
    }

    /// Places the `j`-th column of the `r`-th tree of `context`.
    fn adjust_column(r: usize, j: usize, context: &mut Vec<ContainerConfig>, dst_locs: &mut Vec<usize>)
        requires
            r < old(context)@.len(),
            j < old(context)@[r as int]@.columns().len() <= usize::MAX,
            old(dst_locs)@.len() == N_SEGMENTS,
            ({
                let before = Layout {
                    trees: ContainerConfig::models(old(context)@),
                    next: as_nats(old(dst_locs)@),
                };
                before.can_place(r as int, old(context)@[r as int]@.columns()[j as int].loc)
            }),
        ensures
            ({
                let before = Layout {
                    trees: ContainerConfig::models(old(context)@),
                    next: as_nats(old(dst_locs)@),
                };
                let after = before.step(r as int, j as int);
                &&& ContainerConfig::models(final(context)@) == after.trees
                &&& as_nats(final(dst_locs)@) == after.next
                &&& final(context)@.len() == old(context)@.len()
            }),
    {
        let ghost before = Layout { trees: ContainerConfig::models(context@), next: as_nats(dst_locs@) };
        proof {
            ContainerConfig::lemma_models(context@);
            assert(before.trees[r as int] == context@[r as int]@);
        }
        let loc = context[r].column_location(j);
        let new_loc: Location;
        match loc.dest {
            Some(d) => {
                let start: usize = dst_locs[d.0];
                assert(before.next[d.0 as int] == start);
                new_loc = Location {
                    src: (0, d.0, start, d.2, String::new(), true),
                    dest: Some((d.0, start, d.2)),
                };
                let end: usize = start + d.2;
                dst_locs.set(d.0, end);
            },
            None => {
                let at: i32 = r as i32 + loc.src.0;
                assert(before.trees[at as int] == context@[at as int]@);
                let source = context[at as usize].search_by_path(&loc.src.4);
                match source {
                    Some(ContainerConfig::Column(t, _, _)) => {
                        new_loc = Location {
                            src: (
                                loc.src.0 + t.src.0,
                                t.src.1,
                                t.src.2,
                                t.src.3,
                                loc.src.4.clone(),
                                true,
                            ),
                            dest: None,
                        };
                    },
                    _ => {
                        assert(false);
                        new_loc = loc;
                    },
                }
            },
        }
        assert(new_loc@ == before.placed(r as int, loc@));
        let ghost old_context = context@;
        context[r].set_column_location(j, new_loc);
        proof {
            ContainerConfig::lemma_models(context@);
            assert(ContainerConfig::models(context@) =~= before.step(r as int, j as int).trees);
            assert(as_nats(dst_locs@) =~= before.step(r as int, j as int).next);
        }
    }
}

/// The numbers of a list.
pub open spec fn as_nats(v: Seq<usize>) -> Seq<nat> {
    v.map_values(|x: usize| x as nat)
}

impl ConfigView {
    /// The tree's names, one line each, a part's lines behind its owner's and one
    /// space further in.
    pub open spec fn lines(self, indent: Seq<char>) -> Seq<Seq<char>>
        decreases self,
    {
        match self {
            ConfigView::Column(_, name, _) => seq![indent + name],
            ConfigView::Complex(parts, name, _) => seq![indent + name] + ConfigView::lines_of(
                parts,
                indent.push(' '),
            ),
        }
    }

    pub open spec fn lines_of(s: Seq<ConfigView>, indent: Seq<char>) -> Seq<Seq<char>>
        decreases s,
    {
        if s.len() == 0 {
            Seq::empty()
        } else {
            ConfigView::lines_of(s.drop_last(), indent) + s.last().lines(indent)
        }
    }
}

impl ContainerConfig {
    /// The tree's names, one line each, `step` spaces in.
    pub fn dump(&self, step: usize) -> (r: Vec<String>)
        ensures
            crate::paths::texts(r@) == self@.lines(Seq::new(step as nat, |i: int| ' ')),
    {
        let mut indent: String = String::new();
        let mut i: usize = 0;
        assert(indent@ =~= Seq::new(0, |i: int| ' '));
        while i < step
            invariant
                i <= step,
                indent@ == Seq::new(i as nat, |k: int| ' '),
            decreases step - i,
        {
            proof {
                reveal_strlit(" ");
            }
            indent.append(" ");
            assert(indent@ =~= Seq::new((i + 1) as nat, |k: int| ' '));
            i = i + 1;
        }
        self.dump_indented(&indent)
    }

    fn dump_indented(&self, indent: &String) -> (r: Vec<String>)
        ensures
            crate::paths::texts(r@) == self@.lines(indent@),
        decreases self,
    {
        let mut line: String = indent.clone();
        let name = self.get_name();
        line.append(name.as_str());
        let mut r: Vec<String> = Vec::new();
        r.push(line);
        assert(crate::paths::texts(r@) =~= seq![indent@ + self@.name()]);
        match self {
            ContainerConfig::Column(_, _, _) => {},
            ContainerConfig::Complex(parts, _, _) => {
                proof {
                    reveal_strlit(" ");
                }
                let mut deeper: String = indent.clone();
                deeper.append(" ");
                assert(deeper@ =~= indent@.push(' '));
                let ghost trees = ContainerConfig::models(parts@);
                let ghost head = crate::paths::texts(r@);
                proof {
                    ContainerConfig::lemma_models(parts@);
                    assert(trees.take(0) =~= Seq::empty());
                    assert(head + ConfigView::lines_of(trees.take(0), deeper@) =~= head);
                }
                let mut i: usize = 0;
                while i < parts.len()
                    invariant
                        i <= parts@.len(),
                        trees.len() == parts@.len(),
                        forall|k: int| 0 <= k < trees.len() ==> #[trigger] trees[k] == parts@[k]@,
                        decreases_to!(self => parts),
                        crate::paths::texts(r@) == head + ConfigView::lines_of(trees.take(i as int), deeper@),
                    decreases parts.len() - i,
                {
                    assert(decreases_to!(parts => parts@));
                    assert(decreases_to!(parts@ => parts@[i as int]));
                    assert(trees[i as int] == parts@[i as int]@);
                    let mut more = parts[i].dump_indented(&deeper);
                    let ghost old_r = r@;
                    let ghost old_more = more@;
                    r.append(&mut more);
                    assert(crate::paths::texts(r@) =~= crate::paths::texts(old_r) + crate::paths::texts(old_more));
                    assert(trees.take(i + 1).drop_last() =~= trees.take(i as int));
                    assert(crate::paths::texts(r@) =~= head + ConfigView::lines_of(trees.take(i + 1), deeper@));
                    i = i + 1;
                }
                assert(trees.take(i as int) =~= trees);
            },
        }
        r
    }
}

/// Whether the names of a list of trees differ from each other.
pub open spec fn distinct_names(trees: Seq<ConfigView>) -> bool {
    forall|i: int, j: int|
        0 <= i < j < trees.len() ==> (#[trigger] trees[i]).name() != (#[trigger] trees[j]).name()
}

/// Whether the first `n` of the columns are resolved and each of them that is
/// stored lies behind the columns of its segment that come before it.
pub open spec fn packed(cols: Seq<ColumnView>, n: int) -> bool {
    forall|k: int|
        0 <= k < n ==> {
            &&& (#[trigger] cols[k]).loc.src.5
            &&& cols[k].loc.dest matches Some(d) ==> {
                &&& d.1 == seg_total(cols.take(k), d.0 as int)
                &&& cols[k].loc.src == (0i32, d.0, d.1, d.2, Seq::<char>::empty(), true)
            }
        }
}

/// Whether two lists of columns agree in names, paths, segments and lengths.
pub open spec fn same_columns(a: Seq<ColumnView>, b: Seq<ColumnView>) -> bool {
    &&& a.len() == b.len()
    &&& forall|k: int|
        0 <= k < a.len() ==> {
            &&& (#[trigger] a[k]).name == b[k].name
            &&& a[k].path == b[k].path
            &&& match (a[k].loc.dest, b[k].loc.dest) {
                (Some(d), Some(e)) => d.0 == e.0 && d.2 == e.2,
                (None, None) => true,
                _ => false,
            }
        }
}

pub proof fn lemma_same_totals(a: Seq<ColumnView>, b: Seq<ColumnView>, seg: int)
    requires
        same_columns(a, b),
    ensures
        seg_total(a, seg) == seg_total(b, seg),
    decreases a.len(),
{
    if a.len() > 0 {
        assert(a.drop_last() =~= a.take(a.len() - 1));
        assert forall|k: int| 0 <= k < a.len() - 1 implies (#[trigger] a.drop_last()[k]) == a[k] && b.drop_last()[k] == b[k] by {}
        lemma_same_totals(a.drop_last(), b.drop_last(), seg);
        assert(a[a.len() - 1].name == b[a.len() - 1].name);
    }
}

impl Layout {
    /// How far a layout has come: `done` columns of the trees are placed.
    pub open spec fn reached(self, trees: Seq<ConfigView>, done: int) -> bool {
        let cols = ConfigView::columns_of(self.trees);
        let old_cols = ConfigView::columns_of(trees);
        &&& same_columns(cols, old_cols)
        &&& 0 <= done <= cols.len()
        &&& packed(cols, done)
        &&& self.next.len() == N_SEGMENTS
        &&& forall|s: int| 0 <= s < N_SEGMENTS ==> #[trigger] self.next[s] == seg_total(cols.take(done), s)
    }

    pub proof fn lemma_reached_step(self, trees: Seq<ConfigView>, r: int, j: int)
        requires
            0 <= r < self.trees.len(),
            0 <= j < self.trees[r].columns().len(),
            self.reached(trees, ConfigView::columns_of(self.trees.take(r)).len() + j),
            self.can_place(r, self.trees[r].columns()[j].loc),
        ensures
            self.step(r, j).reached(trees, ConfigView::columns_of(self.trees.take(r)).len() + j + 1),
            self.step(r, j).trees.take(r) == self.trees.take(r),
    {
        let after = self.step(r, j);
        let loc = self.trees[r].columns()[j].loc;
        let new = self.trees[r].with_location(j, self.placed(r, loc));
        let done = ConfigView::columns_of(self.trees.take(r)).len() + j;
        self.trees[r].lemma_with_location(j, self.placed(r, loc));
        lemma_columns_update(self.trees, r, new);
        lemma_columns_update(self.trees, r, self.trees[r]);
        assert(self.trees.update(r, self.trees[r]) =~= self.trees);
        let cols = ConfigView::columns_of(self.trees);
        let new_cols = ConfigView::columns_of(after.trees);
        assert(after.trees.take(r) =~= self.trees.take(r));
        assert(cols[done] == self.trees[r].columns()[j]);
        assert(new_cols[done] == new.columns()[j]);
        assert forall|k: int| 0 <= k < cols.len() && k != done implies #[trigger] new_cols[k] == cols[k] by {}
        let old_cols = ConfigView::columns_of(trees);
        assert(cols[done].name == old_cols[done].name);
        assert(same_columns(new_cols, old_cols));
        assert forall|k: int| 0 <= k <= done implies #[trigger] new_cols.take(k) == cols.take(k) by {
            assert(new_cols.take(k) =~= cols.take(k));
        }
        match loc.dest {
            Some(d) => {
                assert(self.next[d.0 as int] == seg_total(cols.take(done), d.0 as int));
            },
            None => {},
        }
        assert(packed(new_cols, done + 1));
        assert(new_cols.take(done + 1).drop_last() =~= cols.take(done));
        assert(new_cols.take(done + 1).last() == new_cols[done]);
        assert forall|s: int| 0 <= s < N_SEGMENTS implies #[trigger] after.next[s] == seg_total(
            new_cols.take(done + 1),
            s,
        ) by {
            assert(self.next[s] == seg_total(cols.take(done), s));
        }
    }

    pub proof fn lemma_reached_place(self, trees: Seq<ConfigView>, r: int, n: nat)
        requires
            0 <= r < self.trees.len(),
            n <= self.trees[r].columns().len(),
            self.reached(trees, ConfigView::columns_of(self.trees.take(r)).len() as int),
            self.can_place_all(r, n),
        ensures
            self.place(r, n).reached(trees, (ConfigView::columns_of(self.trees.take(r)).len() + n) as int),
            self.place(r, n).trees.take(r) == self.trees.take(r),
        decreases n,
    {
        if n > 0 {
            let m = (n - 1) as nat;
            self.lemma_reached_place(trees, r, m);
            self.lemma_place(r, m);
            self.place(r, m).lemma_reached_step(trees, r, m as int);
        }
    }

    pub proof fn lemma_reached_first(trees: Seq<ConfigView>, k: nat)
        requires
            distinct_names(trees),
            k <= trees.len(),
            Layout::can_place_first(trees, k),
        ensures
            ({
                let l = Layout::of_first(trees, k);
                l.reached(trees, ConfigView::columns_of(l.trees.take(k as int)).len() as int)
            }),
        decreases k,
    {
        let l = Layout::of_first(trees, k);
        if k == 0 {
            let cols = ConfigView::columns_of(trees);
            assert(l.trees.take(0) =~= Seq::empty());
            assert(cols.take(0) =~= Seq::empty());
        } else {
            let before = Layout::of_first(trees, (k - 1) as nat);
            Layout::lemma_reached_first(trees, (k - 1) as nat);
            Layout::lemma_of_first(trees, (k - 1) as nat);
            Layout::lemma_of_first(trees, k);
            lemma_last_named(before.trees, k - 1);
            let r = before.root(k - 1);
            assert(r == k - 1) by {
                if r > k - 1 {
                    assert(trees[r].name() == before.trees[r].name());
                    assert(trees[k - 1].name() == before.trees[k - 1].name());
                }
            }
            let n = before.trees[r].columns().len();
            before.lemma_reached_place(trees, r, n);
            assert(l.trees[r].columns().len() == n) by {
                before.lemma_place(r, n);
            }
            lemma_columns_split(l.trees, r);
        }
    }
}

/// In a layout of trees with different names every column is resolved; each
/// segment's stored columns lie one behind the other from 0 on, in order, and fill
/// as much of it as `get_to_add_size` tells. Names, paths, segments and lengths stay.
pub proof fn law_layout_is_packed(trees: Seq<ConfigView>)
    requires
        Layout::possible(trees),
        distinct_names(trees),
    ensures
        same_columns(ConfigView::columns_of(Layout::of(trees).trees), ConfigView::columns_of(trees)),
        packed(
            ConfigView::columns_of(Layout::of(trees).trees),
            ConfigView::columns_of(trees).len() as int,
        ),
        all_resolved(ConfigView::columns_of(Layout::of(trees).trees)),
        forall|s: int|
            0 <= s < N_SEGMENTS ==> #[trigger] Layout::of(trees).next[s] == seg_total(
                ConfigView::columns_of(trees),
                s,
            ),
{
    Layout::lemma_reached_first(trees, trees.len());
    Layout::lemma_of_first(trees, trees.len());
    let l = Layout::of(trees);
    let cols = ConfigView::columns_of(l.trees);
    assert(l.trees.take(trees.len() as int) =~= l.trees);
    assert(cols.take(cols.len() as int) =~= cols);
    assert forall|s: int| 0 <= s < N_SEGMENTS implies #[trigger] l.next[s] == seg_total(
        ConfigView::columns_of(trees),
        s,
    ) by {
        lemma_same_totals(cols, ConfigView::columns_of(trees), s);
    }
}

/// Two different stored columns of one segment never overlap once the trees are
/// laid out.
pub proof fn law_layout_is_disjoint(trees: Seq<ConfigView>, j: int, k: int)
    requires
        Layout::possible(trees),
        distinct_names(trees),
        0 <= j < k < ConfigView::columns_of(trees).len(),
    ensures
        ({
            let cols = ConfigView::columns_of(Layout::of(trees).trees);
            match (cols[j].loc.dest, cols[k].loc.dest) {
                (Some(d), Some(e)) => d.0 == e.0 ==> d.1 + d.2 <= e.1,
                _ => true,
            }
        }),
{
    law_layout_is_packed(trees);
    let cols = ConfigView::columns_of(Layout::of(trees).trees);
    match (cols[j].loc.dest, cols[k].loc.dest) {
        (Some(d), Some(e)) => {
            assert(cols[j].loc.src.5 && cols[k].loc.src.5);
            let s = d.0 as int;
            let first = cols.take(j + 1);
            assert(first.drop_last() =~= cols.take(j));
            assert(cols.take(k) =~= first + cols.subrange(j + 1, k));
            lemma_total_add(first, cols.subrange(j + 1, k), s);
        },
        _ => {},
    }
}

/// Replacing the columns at a path puts the new column in their place and leaves
/// the others as they are.
pub proof fn law_update_columns(tree: ConfigView, at: Seq<char>, col: ColumnView)
    ensures
        tree.with_column(at, col).columns() == tree.columns().map_values(
            |c: ColumnView| if c.path == at { col } else { c },
        ),
    decreases tree, 0nat,
{
    let f = |c: ColumnView| if c.path == at { col } else { c };
    match tree {
        ConfigView::Column(_, _, _) => {
            assert(tree.with_column(at, col).columns() =~= tree.columns().map_values(f));
        },
        ConfigView::Complex(parts, _, _) => {
            lemma_update_columns_of(parts, at, col);
        },
    }
}

proof fn lemma_update_columns_of(s: Seq<ConfigView>, at: Seq<char>, col: ColumnView)
    ensures
        ConfigView::columns_of(ConfigView::with_column_of(s, at, col)) == ConfigView::columns_of(s).map_values(
            |c: ColumnView| if c.path == at { col } else { c },
        ),
    decreases s, 1nat,
{
    let f = |c: ColumnView| if c.path == at { col } else { c };
    let new_s = ConfigView::with_column_of(s, at, col);
    if s.len() == 0 {
        assert(ConfigView::columns_of(new_s) =~= ConfigView::columns_of(s).map_values(f));
    } else {
        lemma_update_columns_of(s.drop_last(), at, col);
        law_update_columns(s.last(), at, col);
        assert(new_s.drop_last() =~= ConfigView::with_column_of(s.drop_last(), at, col));
        assert(ConfigView::columns_of(new_s) =~= ConfigView::columns_of(s).map_values(f));
    }
}

impl ConfigView {
    /// Whether every name in the tree is a word.
    pub open spec fn names_are_words(self) -> bool
        decreases self,
    {
        &&& crate::paths::is_word(self.name())
        &&& match self {
            ConfigView::Column(_, _, _) => true,
            ConfigView::Complex(parts, _, _) => ConfigView::names_are_words_of(parts),
        }
    }

    pub open spec fn names_are_words_of(s: Seq<ConfigView>) -> bool
        decreases s,
    {
        s.len() > 0 ==> ConfigView::names_are_words_of(s.drop_last()) && s.last().names_are_words()
    }

    proof fn lemma_names_are_words_of(s: Seq<ConfigView>, i: int)
        requires
            ConfigView::names_are_words_of(s),
            0 <= i < s.len(),
        ensures
            s[i].names_are_words(),
        decreases s.len(),
    {
        if i + 1 < s.len() {
            ConfigView::lemma_names_are_words_of(s.drop_last(), i);
        }
    }

    proof fn lemma_found_path(self, parent: Seq<char>, names: Seq<Seq<char>>)
        requires
            self.names_are_words(),
            self.with_paths(parent).find(names) is Some,
        ensures
            crate::paths::words(self.with_paths(parent).find(names)->0.path()) == crate::paths::words(parent)
                + names,
        decreases names.len(),
    {
        let t = self.with_paths(parent);
        let path = parent + seq![' '] + self.name();
        crate::paths::lemma_words_child(parent, self.name());
        if names.len() == 1 {
            assert(crate::paths::words(parent).push(self.name()) =~= crate::paths::words(parent) + names);
        } else {
            match self {
                ConfigView::Column(_, _, _) => {},
                ConfigView::Complex(parts, _, _) => {
                    let new_parts = ConfigView::with_paths_of(parts, path);
                    ConfigView::lemma_with_paths_of(parts, path);
                    let i = part_index(new_parts, names[1]);
                    assert(new_parts[i] == parts[i].with_paths(path));
                    ConfigView::lemma_names_are_words_of(parts, i);
                    parts[i].lemma_found_path(path, names.drop_first());
                    assert(crate::paths::words(parent).push(self.name()) + names.drop_first()
                        =~= crate::paths::words(parent) + names);
                },
            }
        }
    }
}

/// Once the paths are set from the root on, the words of a node's path are the
/// names that lead to it, so a search for its path finds it.
pub proof fn law_path_leads_back(tree: ConfigView, names: Seq<Seq<char>>)
    requires
        tree.names_are_words(),
        tree.with_paths(Seq::empty()).find(names) is Some,
    ensures
        ({
            let t = tree.with_paths(Seq::empty());
            let node = t.find(names)->0;
            &&& crate::paths::words(node.path()) == names
            &&& t.find(crate::paths::words(node.path())) == Some(node)
        }),
{
    tree.lemma_found_path(Seq::empty(), names);
    assert(Seq::<Seq<char>>::empty() + names =~= names);
}

} // verus!
