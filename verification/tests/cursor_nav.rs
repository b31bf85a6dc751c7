use manga_reader::config::PageViewOptions;
use manga_reader::cursor::{last_pair_start, NavOutcome, ViewState, ViewSlots};

const MODES: [PageViewOptions; 3] = [
    PageViewOptions::Single,
    PageViewOptions::DoubleRL,
    PageViewOptions::DoubleLR,
];

#[test]
fn steps_never_leave_the_page_range() {
    for count in 1usize..12 {
        for mode in MODES.iter() {
            for shifted in [false, true] {
                for start in 0..count {
                    let mut s = ViewState::new(*mode, shifted, start, count);
                    s.next();
                    assert!(s.current_index < count);
                    let mut s = ViewState::new(*mode, shifted, start, count);
                    s.prev();
                    assert!(s.current_index < count);
                }
            }
        }
    }
}

#[test]
fn last_then_repeated_prev_descends_to_zero() {
    for count in 1usize..14 {
        for mode in MODES.iter() {
            for shifted in [false, true] {
                let mut s = ViewState::new(*mode, shifted, 0, count);
                s.last();
                let mut visited = vec![s.current_index];
                loop {
                    match s.prev() {
                        NavOutcome::Moved(i) => visited.push(i),
                        NavOutcome::Boundary => break,
                    }
                }
                for w in visited.windows(2) {
                    assert!(w[0] > w[1], "not strictly decreasing: {:?}", visited);
                }
                let mut uniq = visited.clone();
                uniq.dedup();
                assert_eq!(uniq, visited, "visited indices repeat");
                assert_eq!(*visited.last().unwrap(), 0, "walk did not end at page 0");
            }
        }
    }
}

#[test]
fn next_at_last_page_is_a_boundary() {
    let mut s = ViewState::new(PageViewOptions::DoubleRL, false, last_pair_start(5), 5);
    assert_eq!(s.next(), NavOutcome::Boundary);
    assert_eq!(s.current_index, 4);

    let mut s = ViewState::new(PageViewOptions::Single, false, 4, 5);
    assert_eq!(s.next(), NavOutcome::Boundary);
    assert_eq!(s.current_index, 4);
}

#[test]
fn shifted_cover_steps_by_one() {
    let mut s = ViewState::new(PageViewOptions::DoubleRL, true, 0, 6);
    assert_eq!(s.next(), NavOutcome::Moved(1));
    assert_eq!(s.next(), NavOutcome::Moved(3));
    assert_eq!(s.prev(), NavOutcome::Moved(1));
    assert_eq!(s.prev(), NavOutcome::Moved(0));
}

#[test]
fn toggle_shift_realigns_even_index_and_back() {
    let mut s = ViewState::new(PageViewOptions::DoubleRL, false, 2, 6);
    s.toggle_shifted();
    assert!(s.shifted);
    assert_eq!(s.current_index, 3);
    s.toggle_shifted();
    assert!(!s.shifted);
    assert_eq!(s.current_index, 2);
}

#[test]
fn toggle_shift_keeps_cover_and_bounds() {
    let mut s = ViewState::new(PageViewOptions::DoubleRL, false, 0, 6);
    s.toggle_shifted();
    assert_eq!(s.current_index, 0);

    // shifting on the last page of an odd-length source cannot run past it
    let mut s = ViewState::new(PageViewOptions::DoubleRL, false, 4, 5);
    s.toggle_shifted();
    assert!(s.current_index < 5);
    assert_eq!(s.current_index % 2, 1);
}

#[test]
fn first_and_last_land_on_pair_starts() {
    let mut s = ViewState::new(PageViewOptions::DoubleRL, false, 3, 9);
    s.last();
    assert_eq!(s.current_index, 8);
    s.first();
    assert_eq!(s.current_index, 0);
    assert_eq!(last_pair_start(1), 0);
    assert_eq!(last_pair_start(2), 0);
    assert_eq!(last_pair_start(3), 2);
    assert_eq!(last_pair_start(8), 6);
}

#[test]
fn view_resolution_flips_reading_order() {
    let rl = ViewState::new(PageViewOptions::DoubleRL, false, 0, 4).resolve_view();
    assert_eq!(rl, ViewSlots::Two { left: Some(1), right: Some(0) });

    let lr = ViewState::new(PageViewOptions::DoubleLR, false, 0, 4).resolve_view();
    assert_eq!(lr, ViewSlots::Two { left: Some(0), right: Some(1) });

    let single = ViewState::new(PageViewOptions::Single, false, 2, 4).resolve_view();
    assert_eq!(single, ViewSlots::One(2));

    let cover = ViewState::new(PageViewOptions::DoubleRL, true, 0, 4).resolve_view();
    assert_eq!(cover, ViewSlots::One(0));

    // the partner slot past the end stays empty
    let tail = ViewState::new(PageViewOptions::DoubleRL, false, 2, 3).resolve_view();
    assert_eq!(tail, ViewSlots::Two { left: None, right: Some(2) });
}
