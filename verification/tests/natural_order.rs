use manga_reader::natural::{natural_le, natural_sort_strings};

fn sorted(mut v: Vec<String>) -> Vec<String> {
    natural_sort_strings(&mut v);
    v
}

fn strs(v: &[&str]) -> Vec<String> {
    v.iter().map(|s| s.to_string()).collect()
}

#[test]
fn numeric_runs_compare_by_value() {
    let v = sorted(strs(&["img2.png", "img10.png", "img1.png"]));
    assert_eq!(v, strs(&["img1.png", "img2.png", "img10.png"]));
}

#[test]
fn page9_before_page10() {
    assert!(natural_le("page9", "page10"));
    assert!(!natural_le("page10", "page9"));
}

#[test]
fn case_insensitive_alpha_runs() {
    assert!(natural_le("Alpha2", "alpha10"));
    assert!(natural_le("alpha2", "ALPHA10"));
    let v = sorted(strs(&["B.png", "a.png", "C.png"]));
    assert_eq!(v, strs(&["a.png", "B.png", "C.png"]));
}

#[test]
fn leading_zeros_compare_by_value_then_text() {
    assert!(natural_le("page002", "page3"));
    assert!(natural_le("page2", "page02") || natural_le("page02", "page2"));
    // equal numeric value: the raw tie-break still orders them one way only
    assert!(!(natural_le("page2", "page02") && natural_le("page02", "page2")));
}

#[test]
fn digits_sort_before_letters() {
    let v = sorted(strs(&["b.png", "2.png", "10.png"]));
    assert_eq!(v, strs(&["2.png", "10.png", "b.png"]));
}

#[test]
fn plain_lexicographic_when_no_digits() {
    let v = sorted(strs(&["pear", "apple", "orange"]));
    assert_eq!(v, strs(&["apple", "orange", "pear"]));
}

#[test]
fn duplicates_survive_sorting() {
    let v = sorted(strs(&["a2", "a1", "a2"]));
    assert_eq!(v, strs(&["a1", "a2", "a2"]));
}

#[test]
fn empty_and_single_lists() {
    assert_eq!(sorted(strs(&[])), strs(&[]));
    assert_eq!(sorted(strs(&["only"])), strs(&["only"]));
}

#[test]
fn comparison_is_total_and_reflexive() {
    let names = ["a1", "a10", "a2", "B", "b0", "", "7", "a01"];
    for x in names.iter() {
        assert!(natural_le(x, x));
        for y in names.iter() {
            assert!(natural_le(x, y) || natural_le(y, x));
        }
    }
}

#[test]
fn mixed_runs_and_text() {
    let v = sorted(strs(&[
        "ch10/p2.png",
        "ch2/p1.png",
        "ch2/p10.png",
        "ch2/p2.png",
        "ch10/p1.png",
    ]));
    assert_eq!(
        v,
        strs(&[
            "ch2/p1.png",
            "ch2/p2.png",
            "ch2/p10.png",
            "ch10/p1.png",
            "ch10/p2.png",
        ])
    );
}
