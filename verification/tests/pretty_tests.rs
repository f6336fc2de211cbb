use prettier::Doc;
use prettier::DocCore;
use prettier::append;
use prettier::be;
use prettier::best;
use prettier::better;
use prettier::bracket;
use prettier::copy;
use prettier::fill;
use prettier::fill_words;
use prettier::fits;
use prettier::flatten;
use prettier::group;
use prettier::layout;
use prettier::nest;
use prettier::newline;
use prettier::nil;
use prettier::pretty;
use prettier::space;
use prettier::space_newline;
use prettier::spread;
use prettier::stack;
use prettier::text;

fn t(s: &str) -> DocCore {
    text(String::from(s))
}

fn a_line_b() -> DocCore {
    append(t("a"), append(prettier::doc::line(), t("b")))
}

#[test]
fn hard_break_ignores_width() {
    assert_eq!(pretty(5, a_line_b()), "a\nb");
}

#[test]
fn group_flattens_when_it_fits_exactly() {
    assert_eq!(pretty(3, group(a_line_b())), "a b");
}

#[test]
fn group_breaks_when_too_narrow() {
    assert_eq!(pretty(2, group(a_line_b())), "a\nb");
}

#[test]
fn bracket_on_one_line_when_wide() {
    let body = append(t("x"), append(t(","), append(prettier::doc::line(), t("y"))));
    assert_eq!(
        pretty(80, bracket(String::from("["), body, String::from("]"))),
        "[ x, y ]"
    );
}

#[test]
fn bracket_breaks_and_indents_when_narrow() {
    let body = append(t("x"), append(t(","), append(prettier::doc::line(), t("y"))));
    assert_eq!(
        pretty(3, bracket(String::from("["), body, String::from("]"))),
        "[\n  x,\n  y\n]"
    );
}

#[test]
fn nil_is_identity_of_append() {
    for w in [0i64, 2, 10] {
        assert_eq!(pretty(w, append(nil(), group(a_line_b()))), pretty(w, group(a_line_b())));
        assert_eq!(pretty(w, append(group(a_line_b()), nil())), pretty(w, group(a_line_b())));
    }
}

#[test]
fn append_is_associative() {
    for w in [1i64, 3, 10] {
        let l = append(append(t("aa"), prettier::doc::line()), t("bb"));
        let r = append(t("aa"), append(prettier::doc::line(), t("bb")));
        assert_eq!(pretty(w, l), pretty(w, r.dup()));
        assert_eq!(pretty(w, r), "aa\nbb");
    }
}

#[test]
fn flatten_is_idempotent() {
    let d = group(append(nest(2, a_line_b()), t("c")));
    assert_eq!(flatten(flatten(d.dup())), flatten(d));
}

#[test]
fn group_keeps_flattened_content() {
    let d = append(nest(2, a_line_b()), t("c"));
    assert_eq!(flatten(group(d.dup())), flatten(d));
}

#[test]
fn flatten_turns_line_into_space() {
    assert_eq!(flatten(a_line_b()), append(t("a"), append(t(" "), t("b"))));
}

#[test]
fn copy_repeats_and_saturates() {
    assert_eq!(copy(3, "ab"), "ababab");
    assert_eq!(copy(0, "x"), "");
    assert_eq!(copy(-2, "x"), "");
}

#[test]
fn layout_materialises_indentation() {
    let d = Doc::Text(
        String::from("x"),
        Box::new(Doc::Line(2, Box::new(Doc::Nil))),
    );
    assert_eq!(layout(d), "x\n  ");
}

#[test]
fn negative_nesting_indents_nothing() {
    assert_eq!(pretty(5, nest(-3, a_line_b())), "a\nb");
}

#[test]
fn fits_stops_at_first_break() {
    let d = Doc::Text(String::from("abc"), Box::new(Doc::Nil));
    assert!(fits(3, d));
    let d = Doc::Text(String::from("abc"), Box::new(Doc::Nil));
    assert!(!fits(2, d));
    let d = Doc::Line(7, Box::new(Doc::Text(String::from("longtail"), Box::new(Doc::Nil))));
    assert!(fits(0, d));
}

#[test]
fn better_prefers_what_fits() {
    let x = Doc::Text(String::from("ab"), Box::new(Doc::Nil));
    let y = Doc::Text(String::from("a"), Box::new(Doc::Line(0, Box::new(Doc::Nil))));
    assert_eq!(
        better(2, 0, x, y),
        Doc::Text(String::from("ab"), Box::new(Doc::Nil))
    );
    let x = Doc::Text(String::from("ab"), Box::new(Doc::Nil));
    let y = Doc::Text(String::from("a"), Box::new(Doc::Line(0, Box::new(Doc::Nil))));
    assert_eq!(
        better(1, 0, x, y),
        Doc::Text(String::from("a"), Box::new(Doc::Line(0, Box::new(Doc::Nil))))
    );
}

#[test]
fn best_resolves_a_group() {
    let r = best(2, 0, group(a_line_b()));
    assert_eq!(
        r,
        Doc::Text(
            String::from("a"),
            Box::new(Doc::Line(0, Box::new(Doc::Text(String::from("b"), Box::new(Doc::Nil)))))
        )
    );
}

#[test]
fn be_walks_a_worklist() {
    let xs = vec![(0i64, t("a")), (2i64, DocCore::Line), (0i64, t("b"))];
    let r = be(10, 0, &xs);
    assert_eq!(layout(r), "a\n  b");
}

#[test]
fn space_and_newline_join() {
    assert_eq!(pretty(10, space(t("a"), t("b"))), "a b");
    assert_eq!(pretty(10, newline(t("a"), t("b"))), "a\nb");
}

#[test]
fn space_newline_reconsiders_per_pair() {
    assert_eq!(pretty(10, space_newline(t("a"), t("b"))), "a b");
    assert_eq!(pretty(1, space_newline(t("a"), t("b"))), "a\nb");
}

#[test]
fn spread_and_stack() {
    let xs = vec![t("a"), t("b"), t("c")];
    assert_eq!(pretty(10, spread(&xs)), "a b c");
    let xs = vec![t("a"), t("b"), t("c")];
    assert_eq!(pretty(10, stack(&xs)), "a\nb\nc");
    let none: Vec<DocCore> = vec![];
    assert_eq!(pretty(10, spread(&none)), "");
    let one = vec![t("z")];
    assert_eq!(pretty(10, stack(&one)), "z");
}

#[test]
fn fill_words_wraps_words() {
    assert_eq!(pretty(10, fill_words(String::from("a b c"))), "a b c");
    assert_eq!(pretty(3, fill_words(String::from("a b c"))), "a b\nc");
    assert_eq!(pretty(1, fill_words(String::from("a b c"))), "a\nb\nc");
    assert_eq!(pretty(10, fill_words(String::from(""))), "");
}

#[test]
fn fill_wraps_documents() {
    let xs = vec![t("a"), t("b"), t("c")];
    assert_eq!(pretty(3, fill(&xs)), "a b\nc");
    let xs = vec![t("a"), t("b"), t("c")];
    assert_eq!(pretty(10, fill(&xs)), "a b c");
    let none: Vec<DocCore> = vec![];
    assert_eq!(pretty(10, fill(&none)), "");
}

#[test]
fn wider_never_breaks_more() {
    let d = || group(append(t("aa"), append(prettier::doc::line(), group(append(t("bb"), append(prettier::doc::line(), t("cc")))))));
    let breaks = |w: i64| pretty(w, d()).chars().filter(|c| *c == '\n').count();
    let mut last = breaks(0);
    for w in 1..20 {
        let n = breaks(w);
        assert!(n <= last);
        last = n;
    }
}

#[test]
fn fill_flattens_the_left_element_when_it_fits() {
    let d = || {
        vec![
            group(append(t("a"), append(prettier::doc::line(), t("b")))),
            t("c"),
        ]
    };
    assert_eq!(pretty(10, fill(&d())), "a b c");
    assert_eq!(pretty(3, fill(&d())), "a b\nc");
    assert_eq!(pretty(2, fill(&d())), "a\nb\nc");
}

#[test]
fn fill_words_splits_on_every_single_space() {
    assert_eq!(pretty(10, fill_words(String::from("a  b"))), "a  b");
    assert_eq!(pretty(10, fill_words(String::from("a "))), "a ");
}

#[test]
fn nesting_composes_additively() {
    let d = nest(2, nest(3, append(t("x"), append(prettier::doc::line(), t("y")))));
    assert_eq!(pretty(10, d), "x\n     y");
}

fn grouped_family(depth: usize) -> Vec<DocCore> {
    let mut out = vec![t("a"), t("bb")];
    if depth > 0 {
        let subs = grouped_family(depth - 1);
        for x in &subs {
            for y in &subs {
                out.push(group(append(x.dup(), append(prettier::doc::line(), y.dup()))));
                out.push(group(append(x.dup(), y.dup())));
                out.push(group(nest(2, append(x.dup(), append(prettier::doc::line(), y.dup())))));
            }
        }
    }
    out
}

#[test]
fn width_monotone_on_grouped_family() {
    for d in grouped_family(2) {
        let mut last = pretty(0, d.dup()).chars().filter(|c| *c == '\n').count();
        for w in 1..12 {
            let n = pretty(w, d.dup()).chars().filter(|c| *c == '\n').count();
            assert!(n <= last, "width {} added breaks in {:?}", w, d);
            last = n;
        }
    }
}

#[test]
fn lines_fit_or_hold_one_long_fragment() {
    let d = group(append(t("aaaa"), append(prettier::doc::line(), t("bbbbbbbb"))));
    let out = pretty(5, d);
    for l in out.split('\n') {
        assert!(l.chars().count() <= 5 || l == "bbbbbbbb");
    }
}
