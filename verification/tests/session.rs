use dmesh::session::{SessionToken, Slots};

#[test]
fn reuse_advances_the_generation() {
    let mut slots = Slots::new(3);
    let first = slots.allocate().unwrap();
    assert_eq!(first, SessionToken::new(3, 0, 0));
    let second = slots.allocate().unwrap();
    assert_eq!(second, SessionToken::new(3, 1, 0));

    slots.release(first);
    let reused = slots.allocate().unwrap();
    assert_eq!(reused, SessionToken::new(3, 0, 1));
    assert_ne!(reused, first, "a reused slot is a different session");
}

#[test]
fn late_release_does_not_free_the_live_session() {
    let mut slots = Slots::new(0);
    let first = slots.allocate().unwrap();
    slots.release(first);
    let reused = slots.allocate().unwrap();

    slots.release(first); // the closed session's second close
    assert_eq!(
        slots.allocate().unwrap(),
        SessionToken::new(0, 1, 0),
        "the live slot must not return to the free list"
    );
    slots.release(reused);
    assert_eq!(slots.allocate().unwrap(), SessionToken::new(0, 0, 2));
}

#[test]
fn a_slot_out_of_generations_is_retired() {
    let mut slots = Slots::new(0);
    let token = slots.allocate().unwrap();
    slots.generations[0] = u32::MAX;
    slots.release(SessionToken {
        generation: u32::MAX,
        ..token
    });
    assert_eq!(slots.retired(), 1);
    assert_eq!(
        slots.allocate().unwrap(),
        SessionToken::new(0, 1, 0),
        "the retired slot is not handed out again"
    );
}

#[test]
fn a_retired_slot_is_counted_once() {
    let mut slots = Slots::new(0);
    let token = slots.allocate().unwrap();
    slots.generations[0] = u32::MAX;
    let last = SessionToken { generation: u32::MAX, ..token };
    slots.release(last);
    slots.release(last);
    assert_eq!(slots.retired(), 1);
}

#[test]
fn a_token_is_written_out() {
    assert_eq!(SessionToken::new(3, 120, 7).display(), "w3/s120/g7");
}

#[test]
fn generations_count_up_from_zero() {
    let mut slots = Slots::new(2);
    for generation in 0..5 {
        let token = slots.allocate().unwrap();
        assert_eq!(token, SessionToken::new(2, 0, generation));
        slots.release(token);
    }
}
