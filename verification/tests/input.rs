use circle_game::input::{drain, interpret, Command, Drained, Impulse, InputEvent, Key};

const UP: Impulse = Impulse { dx: 0, dy: -1 };
const DOWN: Impulse = Impulse { dx: 0, dy: 1 };
const LEFT: Impulse = Impulse { dx: -1, dy: 0 };
const RIGHT: Impulse = Impulse { dx: 1, dy: 0 };

#[test]
fn quit_event_stops_the_run() {
    assert_eq!(interpret(InputEvent::Quit), Command::Quit);
}

#[test]
fn escape_stops_the_run() {
    assert_eq!(interpret(InputEvent::Escape), Command::Quit);
}

#[test]
fn unknown_event_is_ignored() {
    assert_eq!(interpret(InputEvent::Other), Command::Ignore);
}

#[test]
fn up_pushes_against_the_vertical_axis() {
    assert_eq!(interpret(InputEvent::KeyDown(Key::Up)), Command::Push(UP));
}

#[test]
fn down_pushes_along_the_vertical_axis() {
    assert_eq!(interpret(InputEvent::KeyDown(Key::Down)), Command::Push(DOWN));
}

#[test]
fn left_pushes_against_the_horizontal_axis() {
    assert_eq!(interpret(InputEvent::KeyDown(Key::Left)), Command::Push(LEFT));
}

#[test]
fn right_pushes_along_the_horizontal_axis() {
    assert_eq!(interpret(InputEvent::KeyDown(Key::Right)), Command::Push(RIGHT));
}

#[test]
fn every_key_gives_a_unit_impulse_on_one_axis() {
    for key in [Key::Up, Key::Down, Key::Left, Key::Right] {
        match interpret(InputEvent::KeyDown(key)) {
            Command::Push(p) => {
                assert_eq!(i32::from(p.dx).abs() + i32::from(p.dy).abs(), 1);
            }
            other => panic!("{:?} gave {:?}", key, other),
        }
    }
}

#[test]
fn empty_batch_asks_for_nothing() {
    let d = drain(&Vec::new());
    assert_eq!(d, Drained { quit: false, impulses: vec![] });
}

#[test]
fn impulses_keep_the_order_of_the_events() {
    let events = vec![
        InputEvent::KeyDown(Key::Right),
        InputEvent::Other,
        InputEvent::KeyDown(Key::Up),
        InputEvent::KeyDown(Key::Right),
        InputEvent::KeyDown(Key::Left),
        InputEvent::KeyDown(Key::Down),
    ];
    let d = drain(&events);
    assert!(!d.quit);
    assert_eq!(d.impulses, vec![RIGHT, UP, RIGHT, LEFT, DOWN]);
}

#[test]
fn held_key_pushes_once_for_each_delivery() {
    let events = vec![InputEvent::KeyDown(Key::Down); 4];
    let d = drain(&events);
    assert_eq!(d.impulses, vec![DOWN, DOWN, DOWN, DOWN]);
    assert!(!d.quit);
}

#[test]
fn events_after_a_quit_are_not_seen() {
    let events = vec![
        InputEvent::KeyDown(Key::Left),
        InputEvent::Quit,
        InputEvent::KeyDown(Key::Right),
        InputEvent::KeyDown(Key::Up),
    ];
    let d = drain(&events);
    assert!(d.quit);
    assert_eq!(d.impulses, vec![LEFT]);
}

#[test]
fn escape_ends_a_batch_like_a_quit() {
    let events = vec![InputEvent::Other, InputEvent::Escape, InputEvent::Quit];
    let d = drain(&events);
    assert!(d.quit);
    assert_eq!(d.impulses, vec![]);
}

#[test]
fn quit_as_last_event_is_found() {
    let events = vec![InputEvent::KeyDown(Key::Up), InputEvent::Other, InputEvent::Quit];
    let d = drain(&events);
    assert!(d.quit);
    assert_eq!(d.impulses, vec![UP]);
}

#[test]
fn ignored_events_alone_ask_for_nothing() {
    let events = vec![InputEvent::Other; 7];
    let d = drain(&events);
    assert_eq!(d, Drained { quit: false, impulses: vec![] });
}

#[test]
fn impulses_of_two_batches_are_those_of_both_in_turn() {
    let first = vec![InputEvent::KeyDown(Key::Up), InputEvent::Other];
    let second = vec![
        InputEvent::KeyDown(Key::Left),
        InputEvent::Escape,
        InputEvent::KeyDown(Key::Down),
    ];
    let mut all = first.clone();
    all.extend(second.iter().copied());

    let a = drain(&first);
    let b = drain(&second);
    let whole = drain(&all);

    assert!(!a.quit);
    let mut joined = a.impulses.clone();
    joined.extend(b.impulses.iter().copied());
    assert_eq!(whole.impulses, joined);
    assert_eq!(whole.impulses, vec![UP, LEFT]);
    assert_eq!(whole.quit, b.quit);
}
