use d1ca::{rule_table, CaError, D1caUniverse};

fn engine(width: u32, order: u32, cells: Vec<u8>) -> D1caUniverse {
    D1caUniverse::with_cells(width, order, cells).expect("valid row")
}

#[test]
fn rule_table_of_six() {
    assert_eq!(rule_table(6), vec![0, 1, 1, 0, 0, 0]);
}

#[test]
fn rule_table_matches_shift_and_mask() {
    for order in 0u32..64 {
        let table = rule_table(order);
        assert_eq!(table.len(), 6);
        for s in 0..6u32 {
            assert_eq!(table[s as usize] as u32, (order >> s) & 1);
        }
    }
}

#[test]
fn rule_table_ignores_high_bits() {
    assert_eq!(rule_table(45), vec![1, 0, 1, 1, 0, 1]);
    assert_eq!(rule_table(64 + 5), vec![1, 0, 1, 0, 0, 0]);
    assert_eq!(rule_table(u32::MAX), vec![1, 1, 1, 1, 1, 1]);
}

#[test]
fn tick_width_five_order_six() {
    let mut u = engine(5, 6, vec![0, 1, 0, 0, 0]);
    assert_eq!(u.get_direction(), 1);
    u.tick();
    assert_eq!(u.get_cells(), &[1, 1, 1, 1, 1][..]);
    u.tick();
    assert_eq!(u.get_cells(), &[0, 0, 0, 0, 0][..]);
}

#[test]
fn tick_window_follows_direction() {
    let mut u = engine(7, 6, vec![0, 1, 0, 0, 0, 0, 0]);
    u.tick();
    assert_eq!(u.get_cells(), &[1, 1, 1, 1, 0, 0, 1][..]);

    let mut u = engine(7, 6, vec![0, 1, 0, 0, 0, 0, 0]);
    u.set_direction(0).unwrap();
    u.tick();
    assert_eq!(u.get_cells(), &[1, 1, 1, 0, 0, 1, 1][..]);

    let mut u = engine(7, 6, vec![0, 1, 0, 0, 0, 0, 0]);
    u.set_direction(2).unwrap();
    u.tick();
    assert_eq!(u.get_cells(), &[1, 1, 1, 1, 1, 0, 0][..]);
}

#[test]
fn tick_keeps_lattice_and_settings() {
    let mut u = engine(4, 30, vec![1, 0, 0, 1]);
    u.tick();
    assert_eq!(u.get_width(), 4);
    assert_eq!(u.get_order(), 30);
    assert_eq!(u.get_direction(), 1);
    assert_eq!(u.get_lattice(), &[0u8; 16][..]);
}

#[test]
fn tick_on_width_one_with_direction_two() {
    let mut u = engine(1, 32, vec![1]);
    u.change_direction();
    assert_eq!(u.get_direction(), 2);
    u.tick();
    assert_eq!(u.get_cells(), &[1][..]);
}

#[test]
fn identical_engines_tick_alike() {
    let mut a = engine(9, 22, vec![1, 0, 1, 1, 0, 0, 0, 1, 0]);
    let mut b = engine(9, 22, vec![1, 0, 1, 1, 0, 0, 0, 1, 0]);
    a.change_direction();
    b.change_direction();
    a.tick();
    b.tick();
    assert_eq!(a.get_cells(), b.get_cells());
}

#[test]
fn tick_lattice_scrolls_history() {
    let mut u = engine(3, 6, vec![0, 1, 0]);
    u.tick_lattice();
    assert_eq!(u.get_cells(), &[1, 1, 1][..]);
    assert_eq!(u.get_lattice(), &[1, 1, 1, 0, 0, 0, 0, 0, 0][..]);
    u.tick_lattice();
    assert_eq!(u.get_lattice(), &[0, 0, 0, 1, 1, 1, 0, 0, 0][..]);
    u.tick_lattice();
    assert_eq!(u.get_lattice(), &[0, 0, 0, 0, 0, 0, 1, 1, 1][..]);
    u.tick_lattice();
    assert_eq!(u.get_lattice(), &[0u8; 9][..]);
}

#[test]
fn tick_lattice_moves_each_row_down() {
    let mut u = D1caUniverse::new(12, 90).unwrap();
    for _ in 0..5 {
        u.tick_lattice();
    }
    let w = 12usize;
    let before = u.get_lattice().to_vec();
    u.tick_lattice();
    let after = u.get_lattice();
    assert_eq!(&after[..w], u.get_cells());
    for r in 1..w {
        assert_eq!(after[r * w..(r + 1) * w], before[(r - 1) * w..r * w]);
    }
}

#[test]
fn lengths_and_values_hold_over_a_run() {
    let mut u = D1caUniverse::new(16, 30).unwrap();
    for step in 0..40 {
        if step % 3 == 0 {
            u.tick();
        } else {
            u.tick_lattice();
        }
        if step == 20 {
            u.renew(10, 57).unwrap();
        }
        let w = u.get_width() as usize;
        assert_eq!(u.get_cells().len(), w);
        assert_eq!(u.get_lattice().len(), w * w);
        assert!(u.get_cells().iter().all(|&c| c <= 1));
        assert!(u.get_lattice().iter().all(|&c| c <= 1));
    }
}

#[test]
fn new_engine_starts_clean() {
    let u = D1caUniverse::new(8, 110).unwrap();
    assert_eq!(u.get_width(), 8);
    assert_eq!(u.get_order(), 110);
    assert_eq!(u.get_direction(), 1);
    assert_eq!(u.get_cells().len(), 8);
    assert!(u.get_cells().iter().all(|&c| c <= 1));
    assert_eq!(u.get_lattice(), &[0u8; 64][..]);
}

#[test]
fn new_with_zero_width_fails() {
    assert!(matches!(D1caUniverse::new(0, 6), Err(CaError::InvalidConfiguration)));
    assert!(matches!(D1caUniverse::new(0, 0), Err(CaError::InvalidConfiguration)));
    assert!(matches!(D1caUniverse::new(0, u32::MAX), Err(CaError::InvalidConfiguration)));
}

#[test]
fn with_cells_rejects_bad_rows() {
    assert!(matches!(D1caUniverse::with_cells(0, 6, vec![]), Err(CaError::InvalidConfiguration)));
    assert!(matches!(D1caUniverse::with_cells(3, 6, vec![0, 1]), Err(CaError::InvalidConfiguration)));
    assert!(matches!(D1caUniverse::with_cells(3, 6, vec![0, 2, 1]), Err(CaError::InvalidConfiguration)));
}

#[test]
fn renew_seeds_first_history_row() {
    let mut u = engine(3, 6, vec![0, 1, 0]);
    u.change_direction();
    u.tick_lattice();
    u.renew_with_cells(4, 30, vec![1, 0, 1, 1]).unwrap();
    assert_eq!(u.get_width(), 4);
    assert_eq!(u.get_order(), 30);
    assert_eq!(u.get_direction(), 2);
    assert_eq!(u.get_cells(), &[1, 0, 1, 1][..]);
    assert_eq!(u.get_lattice(), &[1, 0, 1, 1, 0, 0, 0, 0, 0, 0, 0, 0, 0, 0, 0, 0][..]);
}

#[test]
fn renew_draws_a_seeded_row() {
    let mut u = engine(3, 6, vec![0, 1, 0]);
    u.renew(6, 18).unwrap();
    assert_eq!(u.get_width(), 6);
    assert_eq!(u.get_order(), 18);
    assert_eq!(u.get_direction(), 1);
    let cells = u.get_cells().to_vec();
    assert_eq!(cells.len(), 6);
    assert_eq!(&u.get_lattice()[..6], &cells[..]);
    assert!(u.get_lattice()[6..].iter().all(|&c| c == 0));
}

#[test]
fn renew_with_zero_width_fails_and_keeps_engine() {
    let mut u = engine(3, 6, vec![0, 1, 0]);
    u.tick_lattice();
    assert_eq!(u.renew(0, 9), Err(CaError::InvalidConfiguration));
    assert_eq!(u.renew_with_cells(2, 9, vec![1, 1, 1]), Err(CaError::InvalidConfiguration));
    assert_eq!(u.get_width(), 3);
    assert_eq!(u.get_order(), 6);
    assert_eq!(u.get_cells(), &[1, 1, 1][..]);
    assert_eq!(u.get_lattice(), &[1, 1, 1, 0, 0, 0, 0, 0, 0][..]);
}

#[test]
fn change_direction_cycles() {
    let mut u = engine(5, 6, vec![0, 1, 0, 0, 0]);
    assert_eq!(u.get_direction(), 1);
    u.change_direction();
    assert_eq!(u.get_direction(), 2);
    u.change_direction();
    assert_eq!(u.get_direction(), 0);
    u.change_direction();
    assert_eq!(u.get_direction(), 1);
    for _ in 0..3 {
        u.change_direction();
    }
    assert_eq!(u.get_direction(), 1);
}

#[test]
fn set_direction_checks_range() {
    let mut u = engine(2, 6, vec![0, 1]);
    assert_eq!(u.set_direction(3), Err(CaError::InvalidDirection));
    assert_eq!(u.set_direction(2), Err(CaError::InvalidDirection));
    assert_eq!(u.get_direction(), 1);
    assert_eq!(u.set_direction(0), Ok(()));
    assert_eq!(u.get_direction(), 0);
}

#[test]
fn render_draws_history() {
    let mut u = engine(2, 6, vec![0, 1]);
    assert_eq!(u.render(), "\u{25a1}\u{25a1}\n\u{25a1}\u{25a1}\n");
    u.renew_with_cells(2, 6, vec![1, 0]).unwrap();
    assert_eq!(u.render(), "\u{25a0}\u{25a1}\n\u{25a1}\u{25a1}\n");
    u.tick_lattice();
    let text = u.render();
    assert_eq!(text.lines().count(), 2);
    assert!(text.lines().all(|l| l.chars().count() == 2));
}
