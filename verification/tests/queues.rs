use nongle::byte_que;
use nongle::performer;
use nongle::que::{Que, QueMode};

#[test]
fn que_next_index_in_que_down() {
    let mut que = Que::new(2, QueMode::Down);
    que.next();
    que.next();
    que.next();
    que.next();
    assert_eq!(0, que.get_id());
}

#[test]
fn next_index_in_que_up() {
    let mut que = Que::new(4, QueMode::Up);
    que.next();
    que.next();
    que.next();
    que.next();
    assert_eq!(4, que.get_id());
}

#[test]
fn que_up_stays_at_top() {
    let mut que = Que::new(2, QueMode::Up);
    for _ in 0..5 {
        que.next();
    }
    assert_eq!(2, que.get_id());
    assert_eq!(2, que.width());
    assert_eq!(QueMode::Up, que.mode());
}

#[test]
fn que_down_stays_at_bottom() {
    let mut que = Que::new(3, QueMode::Down);
    que.next();
    assert_eq!(0, que.get_id());
    que.next();
    assert_eq!(0, que.get_id());
    assert_eq!(QueMode::Down, que.mode());
}

#[test]
fn que_up_climbs_one_step_at_a_time() {
    let mut que = Que::new(3, QueMode::Up);
    que.next();
    assert_eq!(1, que.get_id());
    que.next();
    assert_eq!(2, que.get_id());
    que.next();
    assert_eq!(3, que.get_id());
    que.next();
    assert_eq!(3, que.get_id());
}

#[test]
fn que_zero_width_stays_put() {
    let mut que = Que::new(0, QueMode::Up);
    que.next();
    assert_eq!(0, que.get_id());
}

#[test]
fn next_index_in_que() {
    let mut que = performer::que::Que::new(2);
    que.next();
    que.next();
    que.next();
    que.next();
    assert_eq!(0, que.q_id);
}

#[test]
fn mod_next_index_in_que() {
    let mut que = byte_que::Que::new(2);
    que.next_in_que();
    que.next_in_que();
    que.next_in_que();
    que.next_in_que();
    assert_eq!(0, que.q_id);
}

#[test]
fn byte_que_wraps() {
    let mut que = byte_que::Que::new(3);
    que.next_in_que();
    assert_eq!(1, que.q_id);
    assert_eq!(3, que.width());
    que.next_in_que();
    que.next_in_que();
    assert_eq!(0, que.q_id);
}
