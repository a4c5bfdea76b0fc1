use path_rewrite::{
    check_simple, CloneRemainder, ImportDecl, ImportTree, PathError, PathPart, PathReplacer,
    PrefixMatcher, RefPath, Segment, SimplePath, TreeIter,
};

fn seg(name: &str) -> Segment {
    Segment { ident: name.to_string(), has_args: false }
}

fn arg_seg(name: &str) -> Segment {
    Segment { ident: name.to_string(), has_args: true }
}

fn path(rooted: bool, names: &[&str]) -> RefPath {
    RefPath { rooted, segments: names.iter().map(|n| seg(n)).collect() }
}

fn replacer(query: RefPath, replacement: RefPath) -> PathReplacer {
    PathReplacer::new(query, replacement).expect("paths are plain")
}

fn idents(p: &RefPath) -> Vec<String> {
    p.segments.iter().map(|s| s.ident.clone()).collect()
}

fn leaf(name: &str) -> ImportTree {
    ImportTree::Leaf { name: name.to_string() }
}

fn simple(name: &str, next: ImportTree) -> ImportTree {
    ImportTree::Simple { name: name.to_string(), next: Box::new(next) }
}

fn renamed(name: &str, alias: &str) -> ImportTree {
    ImportTree::Renamed { name: name.to_string(), alias: alias.to_string() }
}

fn group(items: Vec<ImportTree>) -> ImportTree {
    ImportTree::Group { items }
}

fn decl(rooted: bool, tree: ImportTree) -> ImportDecl {
    ImportDecl {
        vis: "pub".to_string(),
        attrs: vec!["#[doc = \"imports\"]".to_string()],
        rooted,
        tree,
    }
}

fn tree_eq(a: &ImportTree, b: &ImportTree) -> bool {
    match (a, b) {
        (
            ImportTree::Simple { name: an, next: ax },
            ImportTree::Simple { name: bn, next: bx },
        ) => an == bn && tree_eq(ax, bx),
        (ImportTree::Leaf { name: an }, ImportTree::Leaf { name: bn }) => an == bn,
        (
            ImportTree::Renamed { name: an, alias: aa },
            ImportTree::Renamed { name: bn, alias: ba },
        ) => an == bn && aa == ba,
        (ImportTree::Wildcard, ImportTree::Wildcard) => true,
        (ImportTree::Group { items: ai }, ImportTree::Group { items: bi }) => {
            ai.len() == bi.len() && ai.iter().zip(bi.iter()).all(|(x, y)| tree_eq(x, y))
        }
        _ => false,
    }
}

#[test]
fn scenario_plain_prefix() {
    let eng = replacer(path(false, &["crate_lib"]), path(false, &["my_alias"]));
    let mut target = path(false, &["crate_lib", "Parser"]);
    let changed = eng.visit_path_mut(&mut target).expect("plain path");
    assert!(changed);
    assert_eq!(idents(&target), vec!["my_alias".to_string(), "Parser".to_string()]);
    assert!(!target.rooted);
}

#[test]
fn scenario_root_marker_mismatch() {
    let eng = replacer(path(true, &["crate_lib"]), path(false, &["my_alias"]));
    let mut target = path(false, &["crate_lib", "Parser"]);
    let changed = eng.visit_path_mut(&mut target).expect("plain path");
    assert!(!changed);
    assert_eq!(idents(&target), vec!["crate_lib".to_string(), "Parser".to_string()]);
    assert!(!target.rooted);
}

#[test]
fn scenario_group_import() {
    // use crate_lib.{Parser, helpers.util}  ->  use my_alias.{Parser, helpers.util}
    let eng = replacer(path(false, &["crate_lib"]), path(false, &["my_alias"]));
    let inner = group(vec![leaf("Parser"), simple("helpers", leaf("util"))]);
    let mut target = decl(false, simple("crate_lib", inner));
    let changed = eng.visit_item_use_mut(&mut target).expect("plain import");
    assert!(changed);
    let expected = simple(
        "my_alias",
        group(vec![leaf("Parser"), simple("helpers", leaf("util"))]),
    );
    assert!(tree_eq(&target.tree, &expected));
}

#[test]
fn scenario_zero_length_query() {
    let eng = replacer(path(false, &[]), path(false, &["prefix"]));
    let mut target = path(false, &["alpha", "beta"]);
    let changed = eng.visit_path_mut(&mut target).expect("plain path");
    assert!(changed);
    assert_eq!(
        idents(&target),
        vec!["prefix".to_string(), "alpha".to_string(), "beta".to_string()]
    );
}

#[test]
fn identical_query_replacement_path() {
    let eng = replacer(path(false, &["a", "b"]), path(false, &["a", "b"]));
    let mut target = path(false, &["a", "b", "c"]);
    let changed = eng.visit_path_mut(&mut target).expect("plain path");
    assert!(changed);
    assert_eq!(
        idents(&target),
        vec!["a".to_string(), "b".to_string(), "c".to_string()]
    );
    assert!(!target.rooted);
}

#[test]
fn identical_query_replacement_import() {
    let eng = replacer(path(false, &["a"]), path(false, &["a"]));
    let original = simple("a", group(vec![leaf("b"), renamed("c", "d")]));
    let mut target = decl(false, simple("a", group(vec![leaf("b"), renamed("c", "d")])));
    let changed = eng.visit_item_use_mut(&mut target).expect("plain import");
    assert!(changed);
    assert!(tree_eq(&target.tree, &original));
}

#[test]
fn prefix_totality_remainder_verbatim() {
    let eng = replacer(path(false, &["a", "b"]), path(true, &["r"]));
    let mut target = path(false, &["a", "b", "c", "d"]);
    let changed = eng.visit_path_mut(&mut target).expect("plain path");
    assert!(changed);
    assert_eq!(
        idents(&target),
        vec!["r".to_string(), "c".to_string(), "d".to_string()]
    );
    assert!(target.rooted, "root marker comes from the replacement");
}

#[test]
fn non_prefix_rejected_on_differing_part() {
    let eng = replacer(path(false, &["a", "b"]), path(false, &["r"]));
    let mut target = path(false, &["a", "x", "c"]);
    let changed = eng.visit_path_mut(&mut target).expect("plain path");
    assert!(!changed);
    assert_eq!(
        idents(&target),
        vec!["a".to_string(), "x".to_string(), "c".to_string()]
    );
}

#[test]
fn non_prefix_rejected_on_short_target() {
    let eng = replacer(path(false, &["a", "b"]), path(false, &["r"]));
    let mut target = path(false, &["a"]);
    let changed = eng.visit_path_mut(&mut target).expect("plain path");
    assert!(!changed);
    assert_eq!(idents(&target), vec!["a".to_string()]);
}

#[test]
fn exact_match_empty_remainder() {
    let eng = replacer(path(false, &["a", "b"]), path(true, &["x", "y"]));
    let mut target = path(false, &["a", "b"]);
    let changed = eng.visit_path_mut(&mut target).expect("plain path");
    assert!(changed);
    assert_eq!(idents(&target), vec!["x".to_string(), "y".to_string()]);
    assert!(target.rooted);
}

#[test]
fn group_of_three_preserved() {
    let eng = replacer(path(false, &["lib"]), path(false, &["alias", "deep"]));
    let members = vec![leaf("one"), renamed("two", "alias_two"), ImportTree::Wildcard];
    let mut target = decl(false, simple("lib", group(members)));
    let changed = eng.visit_item_use_mut(&mut target).expect("plain import");
    assert!(changed);
    let expected = simple(
        "alias",
        simple(
            "deep",
            group(vec![leaf("one"), renamed("two", "alias_two"), ImportTree::Wildcard]),
        ),
    );
    assert!(tree_eq(&target.tree, &expected));
}

#[test]
fn import_metadata_preserved() {
    let eng = replacer(path(false, &["lib"]), path(true, &["alias"]));
    let mut target = decl(false, simple("lib", leaf("Thing")));
    let changed = eng.visit_item_use_mut(&mut target).expect("plain import");
    assert!(changed);
    assert_eq!(target.vis, "pub");
    assert_eq!(target.attrs, vec!["#[doc = \"imports\"]".to_string()]);
    assert!(target.rooted, "root marker comes from the replacement");
    assert!(tree_eq(&target.tree, &simple("alias", leaf("Thing"))));
}

#[test]
fn terminal_name_is_not_a_matchable_part() {
    // In `use a;` the name `a` is a terminal Leaf, so a one-part query
    // finds no matchable parts at all.
    let eng = replacer(path(false, &["a"]), path(false, &["r"]));
    let mut target = decl(false, leaf("a"));
    let changed = eng.visit_item_use_mut(&mut target).expect("plain import");
    assert!(!changed);
    assert!(tree_eq(&target.tree, &leaf("a")));
}

#[test]
fn renamed_remainder_kept() {
    let eng = replacer(path(false, &["a"]), path(false, &["r"]));
    let mut target = decl(false, simple("a", renamed("b", "c")));
    let changed = eng.visit_item_use_mut(&mut target).expect("plain import");
    assert!(changed);
    assert!(tree_eq(&target.tree, &simple("r", renamed("b", "c"))));
}

#[test]
fn wildcard_remainder_kept() {
    let eng = replacer(path(false, &["a"]), path(false, &["r"]));
    let mut target = decl(false, simple("a", ImportTree::Wildcard));
    let changed = eng.visit_item_use_mut(&mut target).expect("plain import");
    assert!(changed);
    assert!(tree_eq(&target.tree, &simple("r", ImportTree::Wildcard)));
}

#[test]
fn zero_length_query_on_import() {
    let eng = replacer(path(false, &[]), path(false, &["outer"]));
    let mut target = decl(false, simple("x", leaf("y")));
    let changed = eng.visit_item_use_mut(&mut target).expect("plain import");
    assert!(changed);
    assert!(tree_eq(&target.tree, &simple("outer", simple("x", leaf("y")))));
}

#[test]
fn rooted_query_matches_rooted_target() {
    let eng = replacer(path(true, &["a"]), path(false, &["r"]));
    let mut target = path(true, &["a", "b"]);
    let changed = eng.visit_path_mut(&mut target).expect("plain path");
    assert!(changed);
    assert_eq!(idents(&target), vec!["r".to_string(), "b".to_string()]);
    assert!(!target.rooted);
}

#[test]
fn invalid_query_rejected_at_construction() {
    let query = RefPath { rooted: false, segments: vec![seg("a"), arg_seg("b")] };
    let err = PathReplacer::new(query, path(false, &["r"])).unwrap_err();
    assert_eq!(err, PathError::InvalidPathShape);
}

#[test]
fn invalid_replacement_rejected_at_construction() {
    let replacement = RefPath { rooted: false, segments: vec![arg_seg("r")] };
    let err = PathReplacer::new(path(false, &["a"]), replacement).unwrap_err();
    assert_eq!(err, PathError::InvalidPathShape);
}

#[test]
fn invalid_compared_target_part_is_an_error() {
    let eng = replacer(path(false, &["a", "b"]), path(false, &["r"]));
    let mut target = RefPath { rooted: false, segments: vec![seg("a"), arg_seg("b")] };
    let err = eng.visit_path_mut(&mut target).unwrap_err();
    assert_eq!(err, PathError::InvalidPathShape);
    assert_eq!(idents(&target), vec!["a".to_string(), "b".to_string()]);
}

#[test]
fn arguments_past_the_query_stay_in_the_remainder() {
    let eng = replacer(path(false, &["a"]), path(false, &["r"]));
    let mut target = RefPath { rooted: false, segments: vec![seg("a"), arg_seg("Wrapper")] };
    let changed = eng.visit_path_mut(&mut target).expect("compared parts are plain");
    assert!(changed);
    assert_eq!(idents(&target), vec!["r".to_string(), "Wrapper".to_string()]);
    assert!(target.segments[1].has_args, "remainder is kept verbatim");
}

#[test]
fn check_simple_accepts_plain_paths() {
    let p = check_simple(path(false, &["a", "b"])).expect("plain path");
    assert_eq!(idents(&p), vec!["a".to_string(), "b".to_string()]);
}

#[test]
fn check_simple_rejects_arguments() {
    let p = RefPath { rooted: false, segments: vec![seg("a"), arg_seg("b")] };
    assert_eq!(check_simple(p).unwrap_err(), PathError::InvalidPathShape);
}

#[test]
fn matcher_reports_consumed_count() {
    let query = SimplePath::new(path(false, &["a", "b"])).expect("plain path");
    let target = path(false, &["a", "b", "c"]);
    let matcher = PrefixMatcher::new(&query, &target);
    let status = matcher.get_suffix();
    assert!(status.is_match());
    assert_eq!(status.consumed, 2);
}

#[test]
fn matcher_on_simple_path_target() {
    let query = SimplePath::new(path(false, &["a"])).expect("plain path");
    let target = SimplePath::new(path(false, &["b", "c"])).expect("plain path");
    let matcher = PrefixMatcher::new(&query, &target);
    let status = matcher.get_suffix();
    assert!(!status.is_match());
    assert!(status.mismatch);
}

#[test]
fn tree_iter_walks_the_simple_chain() {
    let tree = simple("a", simple("b", group(vec![leaf("c")])));
    let mut iter = TreeIter::new(&tree);
    let first = iter.next().expect("chain head");
    assert!(matches!(first, ImportTree::Simple { .. }));
    let second = iter.next().expect("second link");
    assert!(matches!(second, ImportTree::Simple { .. }));
    let third = iter.next().expect("terminal node");
    assert!(matches!(third, ImportTree::Group { .. }));
    assert!(iter.next().is_none());
}

#[test]
fn concatenate_reports_lost_remainder() {
    let query = SimplePath::new(path(false, &["r"])).expect("plain path");
    let target = decl(false, simple("a", leaf("b")));
    // The chain is one link long; asking for a remainder three links down
    // is the inconsistency the reconstruction defends against.
    let err = target.concatenate(&query, 3).unwrap_err();
    assert_eq!(err, PathError::InternalInconsistency);
}

#[test]
fn zero_length_query_still_needs_the_root_marker_to_agree() {
    let eng = replacer(path(true, &[]), path(false, &["prefix"]));
    let mut target = path(false, &["alpha"]);
    let changed = eng.visit_path_mut(&mut target).expect("plain path");
    assert!(!changed);
    assert_eq!(idents(&target), vec!["alpha".to_string()]);
}

#[test]
fn path_parts_expose_identifiers() {
    let plain = <String as PathPart>::from_ident("x".to_string());
    assert_eq!(plain.ident(), "x");
    let seg = <Segment as PathPart>::from_ident("y".to_string());
    assert_eq!(seg.ident(), "y");
    assert!(!seg.has_args);
}

#[test]
fn clone_remainder_extracts_the_tail() {
    let p = path(true, &["a", "b", "c"]);
    let tail = p.clone_remainder(1).expect("within bounds");
    assert_eq!(idents(&tail), vec!["b".to_string(), "c".to_string()]);
    assert!(!tail.rooted);
    assert!(p.clone_remainder(4).is_none());

    let d = decl(false, simple("a", renamed("b", "c")));
    let rest = d.clone_remainder(1).expect("within bounds");
    assert!(tree_eq(&rest, &renamed("b", "c")));
    assert!(d.clone_remainder(2).is_none());
}

#[test]
fn error_messages_name_the_failure() {
    assert_eq!(
        PathError::InvalidPathShape.message(),
        "path contains arguments in angle brackets"
    );
    assert_eq!(
        PathError::InternalInconsistency.message(),
        "remainder of a matched path was lost"
    );
}
