use prettier::DocCore;
use prettier::append;
use prettier::bracket;
use prettier::group;
use prettier::nest;
use prettier::nil;
use prettier::pretty;
use prettier::text;

#[derive(Debug, PartialEq, Clone)]
pub enum Tree {
    Node(String, Vec<Box<Tree>>),
}

pub fn show_tree(tree: Tree) -> DocCore {
    match tree {
        Tree::Node(s, ts) => group(append(
            text(s.clone()),
            nest(s.len() as i64, show_bracket(&ts)),
        )),
    }
}

pub fn show_bracket(ts: &[Box<Tree>]) -> DocCore {
    if ts.is_empty() {
        nil()
    } else {
        append(
            text(String::from("[")),
            append(nest(1, show_trees(ts)), text(String::from("]"))),
        )
    }
}

pub fn show_trees(ts: &[Box<Tree>]) -> DocCore {
    match ts.split_first() {
        None => unreachable!("it's fun to dream"),
        Some((t, &[])) => show_tree(*(*t).clone()),
        Some((t, ts)) => append(
            show_tree(*(*t).clone()),
            append(text(String::from(",")), append(prettier::doc::line(), show_trees(&ts))),
        ),
    }
}

pub fn show_tree_prime(tree: Tree) -> DocCore {
    match tree {
        Tree::Node(s, ts) => append(text(s.clone()), show_bracket_prime(&ts)),
    }
}

pub fn show_bracket_prime(ts: &[Box<Tree>]) -> DocCore {
    if ts.is_empty() {
        nil()
    } else {
        bracket(String::from("["), show_trees_prime(&ts), String::from("]"))
    }
}

pub fn show_trees_prime(ts: &[Box<Tree>]) -> DocCore {
    match ts.split_first() {
        None => unreachable!("it's fun to dream"),
        Some((t, &[])) => show_tree(*(*t).clone()),
        Some((t, ts)) => append(
            show_tree(*(*t).clone()),
            append(text(String::from(",")), append(prettier::doc::line(), show_trees(&ts))),
        ),
    }
}

fn tree() -> Tree {
    Tree::Node(
        String::from("aaa"),
        vec![
            Tree::Node(
                String::from("bbbbb"),
                vec![
                    Tree::Node(String::from("ccc"), vec![]).into(),
                    Tree::Node(String::from("dd"), vec![]).into(),
                ],
            )
            .into(),
            Tree::Node(String::from("eee"), vec![]).into(),
            Tree::Node(
                String::from("ffff"),
                vec![
                    Tree::Node(String::from("gg"), vec![]).into(),
                    Tree::Node(String::from("hhh"), vec![]).into(),
                    Tree::Node(String::from("ii"), vec![]).into(),
                ],
            )
            .into(),
        ],
    )
}

#[test]
fn show_tree_01() {
    assert_eq!(
        pretty(30, show_tree(tree())),
        "aaa[bbbbb[ccc, dd],\n    eee,\n    ffff[gg, hhh, ii]]"
    );
}

#[test]
fn show_tree_02() {
    assert_eq!(
        pretty(30, show_tree_prime(tree())),
        "aaa[\n  bbbbb[ccc, dd],\n  eee,\n  ffff[gg, hhh, ii]\n]"
    );
}

#[test]
fn show_tree_widths_never_add_breaks() {
    let breaks = |w: i64| -> usize {
        pretty(w, show_tree(tree()))
            .chars()
            .filter(|c| *c == '\n')
            .count()
    };
    let mut last = breaks(1);
    for w in 2..60 {
        let n = breaks(w);
        assert!(n <= last, "width {} added line breaks", w);
        last = n;
    }
}

#[test]
fn show_tree_lines_fit_or_are_unbreakable() {
    let out = pretty(30, show_tree(tree()));
    for l in out.split('\n') {
        assert!(l.chars().count() <= 30);
    }
}
