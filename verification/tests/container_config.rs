use foldpot::container_config::{ContainerConfig, Location};
use foldpot::paths::{child_path, join, split_whitespace};

fn stored(name: &str, seg: usize, len: usize) -> ContainerConfig {
    ContainerConfig::Column(
        Location { src: (0, 0, 0, 0, String::new(), false), dest: Some((seg, 0, len)) },
        name.to_string(),
        String::new(),
    )
}

fn foreign(name: &str, offset: i32, query: &str) -> ContainerConfig {
    ContainerConfig::Column(
        Location { src: (offset, 0, 0, 0, query.to_string(), false), dest: None },
        name.to_string(),
        String::new(),
    )
}

fn tree(name: &str, parts: Vec<ContainerConfig>) -> ContainerConfig {
    let mut c = ContainerConfig::Complex(parts, name.to_string(), String::new());
    c.reset_path(&String::new());
    c
}

fn part(name: &str, parts: Vec<ContainerConfig>) -> ContainerConfig {
    ContainerConfig::Complex(parts, name.to_string(), String::new())
}

fn source(c: &ContainerConfig, path: &str) -> (i32, usize, usize, usize) {
    match c.search_by_path(&path.to_string()) {
        Some(ContainerConfig::Column(loc, _, _)) => loc.gen_stmt_map_instructions()[0],
        _ => panic!("no column"),
    }
}

#[test]
fn sizes_and_paths() {
    let c = tree("root", vec![stored("a", 1, 3), stored("b", 1, 4), stored("c", 8, 2)]);
    assert_eq!(c.get_path(), " root");
    assert_eq!(c.get_to_add_size(), vec![0, 7, 0, 0, 0, 0, 0, 0, 2]);
    assert_eq!(foreign("f", 0, "x").get_to_add_size(), vec![0; 9]);
}

#[test]
fn paths_of_parts() {
    let c = tree("root", vec![part("p", vec![stored("a", 0, 1)])]);
    let a = c.search_by_path(&"root p a".to_string()).unwrap();
    assert_eq!(a.get_name(), "a");
    assert_eq!(a.get_path(), " root p a");
    assert_eq!(a.get_parent_path(), "root p");
    assert_eq!(c.get_parent_path(), "");
    assert!(c.search_by_path(&"root q".to_string()).is_none());
    assert!(c.search_by_path(&"other".to_string()).is_none());
    assert_eq!(c.search_by_path(&"  root \t p ".to_string()).unwrap().get_name(), "p");
}

#[test]
fn columns_are_laid_out() {
    let first = tree("g1", vec![stored("a", 0, 3), part("p", vec![stored("b", 0, 4), stored("c", 2, 5)])]);
    let second = tree("g2", vec![stored("d", 0, 2), foreign("e", -1, "g1 p b"), stored("f", 2, 1)]);
    let mut v = vec![first, second];
    let sizes = (v[0].get_to_add_size(), v[1].get_to_add_size());
    ContainerConfig::adjust_locations(&mut v);
    assert_eq!(source(&v[0], "g1 a"), (0, 0, 0, 3));
    assert_eq!(source(&v[0], "g1 p b"), (0, 0, 3, 4));
    assert_eq!(source(&v[0], "g1 p c"), (0, 2, 0, 5));
    assert_eq!(source(&v[1], "g2 d"), (0, 0, 7, 2));
    assert_eq!(source(&v[1], "g2 e"), (-1, 0, 3, 4));
    assert_eq!(source(&v[1], "g2 f"), (0, 2, 5, 1));
    // sizes stay
    assert_eq!((v[0].get_to_add_size(), v[1].get_to_add_size()), sizes);
    assert_eq!(v[1].gen_stmt_map_instructions(), vec![(0, 0, 7, 2), (-1, 0, 3, 4), (0, 2, 5, 1)]);
}

#[test]
fn column_is_replaced() {
    let mut c = tree("root", vec![stored("a", 1, 3), part("p", vec![stored("b", 1, 4)])]);
    let new = ContainerConfig::Column(
        Location { src: (0, 4, 1, 6, String::new(), true), dest: Some((4, 1, 6)) },
        "b".to_string(),
        " root p b".to_string(),
    );
    assert_eq!(c.update_col(" root p x", &tree_column(" root p x")), 0);
    assert_eq!(c.update_col(" root p b", &new), 1);
    assert_eq!(c.get_to_add_size(), vec![0, 3, 0, 0, 6, 0, 0, 0, 0]);
    assert_eq!(source(&c, "root p b"), (0, 4, 1, 6));
}

fn tree_column(path: &str) -> ContainerConfig {
    match stored("x", 0, 1) {
        ContainerConfig::Column(loc, name, _) => ContainerConfig::Column(loc, name, path.to_string()),
        other => other,
    }
}

#[test]
fn lines_of_a_tree() {
    let c = tree("root", vec![stored("a", 1, 3), part("p", vec![stored("b", 1, 4)])]);
    assert_eq!(c.dump(2), vec!["  root", "   a", "   p", "    b"]);
}

#[test]
fn words_of_a_path() {
    assert_eq!(split_whitespace(" a  bc\td\n"), vec!["a", "bc", "d"]);
    assert!(split_whitespace(" \u{a0}\t ").is_empty());
    let v = split_whitespace("x y z");
    assert_eq!(join(&v, 2), "x y");
    assert_eq!(join(&v, 0), "");
    assert_eq!(child_path("x", "y"), "x y");
    assert_eq!(child_path("", "y"), " y");
}

fn new_b() -> ContainerConfig {
    ContainerConfig::Column(
        Location { src: (0, 4, 1, 6, String::new(), true), dest: Some((4, 1, 6)) },
        "b".to_string(),
        " root p b".to_string(),
    )
}

#[test]
fn query_below_a_column() {
    let c = ContainerConfig::Column(
        Location { src: (0, 0, 0, 0, String::new(), true), dest: None },
        "a".to_string(),
        "a".to_string(),
    );
    assert!(c.search_by_path(&"a b".to_string()).is_none());
    assert_eq!(c.search_by_path(&"a".to_string()).unwrap().get_name(), "a");
    let t = tree("root", vec![stored("a", 1, 3)]);
    assert!(t.search_by_path(&"root a b c".to_string()).is_none());
}

#[test]
fn second_update_repeats_the_first() {
    let mut c = tree("root", vec![stored("a", 1, 3), part("p", vec![stored("b", 1, 4)])]);
    assert_eq!(c.update_col(" root p b", &new_b()), 1);
    let once = format!("{:?}", c);
    assert_eq!(c.update_col(" root p b", &new_b()), 1);
    assert_eq!(format!("{:?}", c), once);
}

#[test]
fn search_after_an_update() {
    let mut c = tree("root", vec![stored("a", 1, 3), part("p", vec![stored("b", 1, 4)])]);
    let a = format!("{:?}", c.search_by_path(&"root a".to_string()));
    assert_eq!(c.update_col(" root p b", &new_b()), 1);
    assert_eq!(format!("{:?}", c.search_by_path(&" root p b".to_string()).unwrap()), format!("{:?}", new_b()));
    assert_eq!(format!("{:?}", c.search_by_path(&"root a".to_string())), a);
}

#[test]
fn parent_paths_come_back() {
    for parent in ["", "x", "x y"] {
        let mut c = part("q", vec![stored("a", 0, 1)]);
        c.reset_path(&parent.to_string());
        assert_eq!(c.get_parent_path(), parent);
        let a = c.search_by_path(&"q a".to_string()).unwrap();
        assert_eq!(a.get_parent_path(), format!("{} q", parent).trim_start());
    }
}

#[test]
fn grouping_keeps_instructions() {
    let columns = || {
        let mut v = vec![tree("g", vec![stored("a", 0, 3), stored("b", 0, 4), stored("c", 2, 5)])];
        ContainerConfig::adjust_locations(&mut v);
        match v.pop() {
            Some(ContainerConfig::Complex(parts, _, _)) => parts,
            _ => panic!("no parts"),
        }
    };
    let flat = part("n", columns()).gen_stmt_map_instructions();
    assert_eq!(flat, vec![(0, 0, 0, 3), (0, 0, 3, 4), (0, 2, 0, 5)]);
    let mut first = columns();
    let rest = first.split_off(1);
    let nested = part("n", vec![part("x", first), part("y", rest)]);
    assert_eq!(nested.gen_stmt_map_instructions(), flat);
    assert!(part("n", vec![]).gen_stmt_map_instructions().is_empty());
}

#[test]
fn second_layout_changes_nothing() {
    let first = tree("g1", vec![stored("a", 0, 3), part("p", vec![stored("b", 0, 4), stored("c", 2, 5)])]);
    let second = tree("g2", vec![stored("d", 0, 2), foreign("e", -1, "g1 p b"), stored("f", 2, 1)]);
    let mut v = vec![first, second];
    ContainerConfig::adjust_locations(&mut v);
    let once = format!("{:?}", v);
    ContainerConfig::adjust_locations(&mut v);
    assert_eq!(format!("{:?}", v), once);
    // columns that were placed before, with others in front of them
    v.insert(0, tree("g0", vec![stored("z", 0, 7)]));
    ContainerConfig::adjust_locations(&mut v);
    let moved = format!("{:?}", v);
    assert!(!moved.contains(&once[1..once.len() - 1]));
    ContainerConfig::adjust_locations(&mut v);
    assert_eq!(format!("{:?}", v), moved);
}
