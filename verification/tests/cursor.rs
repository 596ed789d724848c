use round_robin::cursor::next_index;

#[test]
fn next_index_steps_to_the_following_position() {
    assert_eq!(next_index(0, 2), 1);
    assert_eq!(next_index(0, 5), 1);
    assert_eq!(next_index(3, 5), 4);
}

#[test]
fn next_index_wraps_after_the_last_position() {
    assert_eq!(next_index(1, 2), 0);
    assert_eq!(next_index(4, 5), 0);
    assert_eq!(next_index(0, 1), 0);
}

#[test]
fn next_index_resets_a_position_outside_the_pool() {
    assert_eq!(next_index(2, 2), 0);
    assert_eq!(next_index(7, 3), 0);
    assert_eq!(next_index(usize::MAX, 3), 0);
}

#[test]
fn next_index_of_an_empty_pool_is_zero() {
    assert_eq!(next_index(0, 0), 0);
    assert_eq!(next_index(9, 0), 0);
}

#[test]
fn next_index_at_the_limits_of_the_machine() {
    assert_eq!(next_index(usize::MAX - 2, usize::MAX), usize::MAX - 1);
    assert_eq!(next_index(usize::MAX - 1, usize::MAX), 0);
    assert_eq!(next_index(usize::MAX, usize::MAX), 0);
}

#[test]
fn next_index_adds_one_modulo_the_length() {
    for len in 1..=9usize {
        for current in 0..len {
            assert_eq!(next_index(current, len), (current + 1) % len);
        }
    }
}

#[test]
fn cursor_never_leaves_the_pool() {
    for len in 1..=7usize {
        for start in 0..len {
            let mut cursor = start;
            for _ in 0..100 {
                cursor = next_index(cursor, len);
                assert!(cursor < len);
            }
        }
    }
}

#[test]
fn cursor_moves_by_the_number_of_steps_modulo_the_length() {
    for len in 1..=7usize {
        for start in 0..len {
            let mut cursor = start;
            for steps in 1..=50usize {
                cursor = next_index(cursor, len);
                assert_eq!(cursor, (start + steps) % len);
            }
        }
    }
}

#[test]
fn cursor_is_back_after_a_full_round() {
    for len in 1..=7usize {
        for start in 0..len {
            let mut cursor = start;
            for _ in 0..len {
                cursor = next_index(cursor, len);
            }
            assert_eq!(cursor, start);
        }
    }
}

#[test]
fn no_position_comes_up_twice_within_a_round() {
    let len = 6usize;
    let mut seen = vec![false; len];
    let mut cursor = 2usize;
    for _ in 0..len {
        assert!(!seen[cursor]);
        seen[cursor] = true;
        cursor = next_index(cursor, len);
    }
    assert!(seen.iter().all(|&s| s));
}
