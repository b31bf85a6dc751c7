use manga_reader::dialog::{DialogGate, DIALOG_COOLDOWN_MS};

#[test]
fn first_request_opens_after_the_cooldown_epoch() {
    let mut g = DialogGate::new();
    assert!(g.request(DIALOG_COOLDOWN_MS + 1));
    assert!(g.in_flight);
}

#[test]
fn request_in_flight_is_silently_refused() {
    let mut g = DialogGate::new();
    assert!(g.request(1000));
    // well past the cooldown, but one picker is still outstanding
    assert!(!g.request(10_000));
    g.complete();
    assert!(g.request(20_000));
}

#[test]
fn rapid_repeats_stay_on_cooldown() {
    let mut g = DialogGate::new();
    assert!(g.request(1000));
    g.complete();
    assert!(!g.request(1100), "within the cooldown window");
    assert!(!g.request(1500), "still within it");
    assert!(g.request(1501 + DIALOG_COOLDOWN_MS));
}
