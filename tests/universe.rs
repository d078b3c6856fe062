use game_of_life::cells::Cells;
use game_of_life::universe::Universe;

fn grid(width: u32, height: u32, alive: &[(u32, u32)]) -> Universe {
    let mut cells = vec![Cells::DEAD; (width * height) as usize];
    for &(row, column) in alive {
        cells[(row * width + column) as usize] = Cells::ALIVE;
    }
    Universe::from_cells(width, height, cells).expect("valid grid")
}

fn snapshot(u: &Universe) -> Vec<Cells> {
    let mut out = Vec::new();
    for row in 0..u.height() {
        for column in 0..u.width() {
            out.push(u.cell(row, column));
        }
    }
    out
}

// the rule written out plainly, on a wrapped grid of booleans
fn reference_step(width: u32, height: u32, cells: &[Cells]) -> Vec<Cells> {
    let w = width as i64;
    let h = height as i64;
    let mut out = Vec::new();
    for r in 0..h {
        for c in 0..w {
            let mut n = 0;
            for dr in -1i64..=1 {
                for dc in -1i64..=1 {
                    if dr == 0 && dc == 0 {
                        continue;
                    }
                    let rr = (r + dr).rem_euclid(h);
                    let cc = (c + dc).rem_euclid(w);
                    if cells[(rr * w + cc) as usize] == Cells::ALIVE {
                        n += 1;
                    }
                }
            }
            let alive = cells[(r * w + c) as usize] == Cells::ALIVE;
            let next = if alive { n == 2 || n == 3 } else { n == 3 };
            out.push(if next { Cells::ALIVE } else { Cells::DEAD });
        }
    }
    out
}

#[test]
fn new_is_deterministic() {
    let a = Universe::new();
    let b = Universe::new();
    assert_eq!(snapshot(&a), snapshot(&b));
    assert_eq!(a.render(), b.render());
}

#[test]
fn new_follows_seed_rule() {
    let u = Universe::new();
    assert_eq!(u.width(), 64);
    assert_eq!(u.height(), 64);
    assert_eq!(u.cell(0, 0), Cells::ALIVE);
    assert_eq!(u.cell(0, 1), Cells::DEAD);
    assert_eq!(u.cell(0, 7), Cells::ALIVE);
    assert_eq!(u.cell(0, 9), Cells::DEAD);
    // index 65 = row 1, column 1: odd and not a multiple of 7
    assert_eq!(u.cell(1, 1), Cells::DEAD);
    // index 77 = row 1, column 13: a multiple of 7
    assert_eq!(u.cell(1, 13), Cells::ALIVE);
    let cells = snapshot(&u);
    for (i, cell) in cells.iter().enumerate() {
        let expected = if i % 2 == 0 || i % 7 == 0 { Cells::ALIVE } else { Cells::DEAD };
        assert_eq!(*cell, expected, "index {}", i);
    }
}

#[test]
fn get_index_is_row_major() {
    let u = grid(5, 3, &[]);
    assert_eq!(u.get_index(0, 0), 0);
    assert_eq!(u.get_index(1, 0), 5);
    assert_eq!(u.get_index(2, 4), 14);
}

#[test]
fn neighbor_count_stays_in_range() {
    let full = grid(3, 3, &[(0, 0), (0, 1), (0, 2), (1, 0), (1, 1), (1, 2), (2, 0), (2, 1), (2, 2)]);
    for row in 0..3 {
        for column in 0..3 {
            assert_eq!(full.live_neighbor_count(row, column), 8);
        }
    }
    let u = Universe::new();
    for row in 0..64 {
        for column in 0..64 {
            assert!(u.live_neighbor_count(row, column) <= 8);
        }
    }
    let empty = grid(4, 4, &[]);
    assert_eq!(empty.live_neighbor_count(2, 2), 0);
}

#[test]
fn corner_neighbors_wrap_around() {
    let around = [(4, 5), (4, 0), (4, 1), (0, 5), (0, 1), (1, 5), (1, 0), (1, 1)];
    let u = grid(6, 5, &around);
    assert_eq!(u.live_neighbor_count(0, 0), 8);
    for &cell in around.iter() {
        let single = grid(6, 5, &[cell]);
        assert_eq!(single.live_neighbor_count(0, 0), 1, "neighbour {:?}", cell);
    }
    // a cell two steps away is no neighbour
    let far = grid(6, 5, &[(2, 2)]);
    assert_eq!(far.live_neighbor_count(0, 0), 0);
}

#[test]
fn block_is_still_life() {
    let mut u = grid(6, 6, &[(2, 2), (2, 3), (3, 2), (3, 3)]);
    let before = snapshot(&u);
    for &(row, column) in [(2, 2), (2, 3), (3, 2), (3, 3)].iter() {
        assert_eq!(u.live_neighbor_count(row, column), 3);
    }
    u.tick();
    assert_eq!(snapshot(&u), before);
    u.tick();
    assert_eq!(snapshot(&u), before);
}

#[test]
fn lonely_cell_dies() {
    let mut u = grid(5, 5, &[(2, 2)]);
    assert_eq!(u.live_neighbor_count(2, 2), 0);
    u.tick();
    assert_eq!(u.cell(2, 2), Cells::DEAD);
    assert_eq!(snapshot(&u), vec![Cells::DEAD; 25]);
}

#[test]
fn dead_cell_with_three_neighbors_comes_alive() {
    let mut u = grid(5, 5, &[(1, 1), (1, 2), (1, 3)]);
    assert_eq!(u.live_neighbor_count(2, 2), 3);
    u.tick();
    assert_eq!(u.cell(2, 2), Cells::ALIVE);
}

#[test]
fn dead_cell_with_two_or_four_neighbors_stays_dead() {
    let mut two = grid(5, 5, &[(1, 1), (1, 3)]);
    assert_eq!(two.live_neighbor_count(2, 2), 2);
    two.tick();
    assert_eq!(two.cell(2, 2), Cells::DEAD);

    let mut four = grid(5, 5, &[(1, 1), (1, 3), (3, 1), (3, 3)]);
    assert_eq!(four.live_neighbor_count(2, 2), 4);
    four.tick();
    assert_eq!(four.cell(2, 2), Cells::DEAD);
}

#[test]
fn crowded_cell_dies() {
    let mut u = grid(5, 5, &[(2, 2), (1, 1), (1, 2), (1, 3), (2, 1)]);
    assert_eq!(u.live_neighbor_count(2, 2), 4);
    u.tick();
    assert_eq!(u.cell(2, 2), Cells::DEAD);
}

#[test]
fn blinker_has_period_two() {
    let mut u = grid(5, 5, &[(2, 1), (2, 2), (2, 3)]);
    let start = snapshot(&u);
    u.tick();
    assert_eq!(snapshot(&u), snapshot(&grid(5, 5, &[(1, 2), (2, 2), (3, 2)])));
    u.tick();
    assert_eq!(snapshot(&u), start);
}

#[test]
fn render_has_one_line_per_row() {
    let u = Universe::new();
    let text = u.render();
    assert!(text.ends_with('\n'));
    let lines: Vec<&str> = text.split_terminator('\n').collect();
    assert_eq!(lines.len(), 64);
    for line in lines {
        assert_eq!(line.chars().count(), 64);
    }
    assert_eq!(text, u.render());
}

#[test]
fn render_small_grid_exactly() {
    let u = grid(3, 2, &[(0, 0), (1, 2)]);
    assert_eq!(u.render(), "\u{25FC}\u{25FB}\u{25FB}\n\u{25FB}\u{25FB}\u{25FC}\n");
}

#[test]
fn two_ticks_match_rule_applied_twice() {
    let mut u = Universe::new();
    let gen0 = snapshot(&u);
    let gen2 = reference_step(64, 64, &reference_step(64, 64, &gen0));
    u.tick();
    u.tick();
    assert_eq!(snapshot(&u), gen2);
}

#[test]
fn tick_matches_rule_on_seed() {
    let mut u = Universe::new();
    let expected = reference_step(64, 64, &snapshot(&u));
    u.tick();
    assert_eq!(snapshot(&u), expected);
}

#[test]
fn from_cells_rejects_bad_shapes() {
    assert!(Universe::from_cells(0, 3, vec![]).is_none());
    assert!(Universe::from_cells(3, 0, vec![]).is_none());
    assert!(Universe::from_cells(2, 2, vec![Cells::DEAD; 3]).is_none());
    assert!(Universe::from_cells(2, 2, vec![Cells::DEAD; 5]).is_none());
    let u = Universe::from_cells(2, 2, vec![Cells::ALIVE; 4]).expect("valid");
    assert_eq!(u.width(), 2);
    assert_eq!(u.height(), 2);
}

#[test]
fn cell_values_sum_as_integers() {
    assert_eq!(Cells::DEAD.value(), 0);
    assert_eq!(Cells::ALIVE.value(), 1);
}
