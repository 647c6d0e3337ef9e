use sim::flash::{self, FlashFrame};
use sim::shake::{self, ShakeEvent, ShakeFrame};

#[test]
fn begin_seeds_and_take_reads_it_back() {
    let mut f = FlashFrame::new();
    flash::begin_frame(&mut f, 5);
    assert_eq!(flash::take_frame(&f), 5, "take reads the seed when nothing raised");
}

#[test]
fn raise_takes_the_max_of_seed_and_flash() {
    let mut f = FlashFrame::new();
    flash::begin_frame(&mut f, 10);
    flash::raise(&mut f, 4);
    assert_eq!(flash::take_frame(&f), 10, "seed larger -> seed wins");

    flash::begin_frame(&mut f, 3);
    flash::raise(&mut f, 8);
    assert_eq!(flash::take_frame(&f), 8, "flash larger -> flash wins");
}

#[test]
fn multiple_raises_accumulate_the_running_max() {
    let mut f = FlashFrame::new();
    flash::begin_frame(&mut f, 0);
    flash::raise(&mut f, 2);
    flash::raise(&mut f, 9);
    flash::raise(&mut f, 5);
    assert_eq!(flash::take_frame(&f), 9, "the running max across every raise this tick");
}

#[test]
fn flash_take_is_not_draining_and_raise_order_does_not_matter() {
    let mut a = FlashFrame::new();
    flash::begin_frame(&mut a, -3);
    flash::raise(&mut a, 7);
    flash::raise(&mut a, 2);
    let mut b = FlashFrame::new();
    flash::begin_frame(&mut b, -3);
    flash::raise(&mut b, 2);
    flash::raise(&mut b, 7);
    assert_eq!(flash::take_frame(&a), 7);
    assert_eq!(flash::take_frame(&a), 7, "take leaves the value in place");
    assert_eq!(flash::take_frame(&b), 7);
}

#[test]
fn shake_emit_collects_then_take_drains() {
    let mut f = ShakeFrame::new();
    shake::reset_frame(&mut f);
    shake::emit(&mut f, 10, 20, 4);
    shake::emit(&mut f, 1, 2, 9);
    let drained = shake::take_frame(&mut f);
    assert_eq!(
        drained,
        vec![
            ShakeEvent { x: 10, y: 20, amount: 4 },
            ShakeEvent { x: 1, y: 2, amount: 9 },
        ]
    );
    assert!(shake::take_frame(&mut f).is_empty());
}

#[test]
fn begin_frame_discards_stale_events() {
    let mut f = ShakeFrame::new();
    shake::emit(&mut f, 7, 7, 7);
    shake::begin_frame(&mut f);
    assert!(shake::take_frame(&mut f).is_empty(), "begin_frame clears stale events");
}

#[test]
fn shake_reset_frame_discards_stale_events() {
    let mut f = ShakeFrame::new();
    shake::emit(&mut f, 3, 4, 5);
    shake::reset_frame(&mut f);
    assert!(shake::take_frame(&mut f).is_empty());
}
