use breakout::breakout::{initialize_stage, Config};
use breakout::stage::{parse_stage, Stage, StageError, STAGE_COLS, STAGE_ROWS};

/// A grid text of `rows` lines of `cols` zero cells, with no trailing
/// newline, overridden at (row, col) by the given codes.
fn grid_text(rows: usize, cols: usize, overrides: &[(usize, usize, &str)]) -> Vec<u8> {
    let mut lines: Vec<String> = Vec::new();
    for r in 0..rows {
        let mut cells: Vec<String> = Vec::new();
        for c in 0..cols {
            let mut cell = String::from("0");
            for (orow, ocol, code) in overrides {
                if *orow == r && *ocol == c {
                    cell = String::from(*code);
                }
            }
            cells.push(cell);
        }
        lines.push(cells.join(" "));
    }
    lines.join("\n").into_bytes()
}

#[test]
fn parse_all_zeros() {
    let text = grid_text(STAGE_ROWS, STAGE_COLS, &[]);
    let stage = parse_stage(&text).expect("an all-zero grid parses");
    assert_eq!(stage.bricks.len(), STAGE_ROWS);
    for row in &stage.bricks {
        assert_eq!(row.len(), STAGE_COLS);
        for cell in row {
            assert_eq!(*cell, 0);
        }
    }
}

#[test]
fn parse_reads_values() {
    let text = grid_text(STAGE_ROWS, STAGE_COLS, &[(0, 5, "3"), (19, 0, "8"), (7, 7, "1")]);
    let stage = parse_stage(&text).expect("a valid grid parses");
    assert_eq!(stage.bricks[0][5], 3);
    assert_eq!(stage.bricks[19][0], 8);
    assert_eq!(stage.bricks[7][7], 1);
    assert_eq!(stage.bricks[0][0], 0);
}

#[test]
fn wrong_row_count_is_rejected() {
    let text = grid_text(19, STAGE_COLS, &[]);
    assert_eq!(parse_stage(&text), Err(StageError::BadRowCount { found: 19 }));
}

#[test]
fn trailing_newline_counts_as_a_row() {
    let mut text = grid_text(STAGE_ROWS, STAGE_COLS, &[]);
    text.push(b'\n');
    assert_eq!(parse_stage(&text), Err(StageError::BadRowCount { found: 21 }));
}

#[test]
fn wrong_column_count_is_rejected() {
    let mut lines: Vec<String> = Vec::new();
    for r in 0..STAGE_ROWS {
        let cols = if r == 3 { 19 } else { STAGE_COLS };
        let cells: Vec<String> = (0..cols).map(|_| String::from("0")).collect();
        lines.push(cells.join(" "));
    }
    let text = lines.join("\n").into_bytes();
    assert_eq!(
        parse_stage(&text),
        Err(StageError::BadColumnCount { row: 3, found: 19 })
    );
}

#[test]
fn non_numeric_token_is_rejected() {
    let text = grid_text(STAGE_ROWS, STAGE_COLS, &[(2, 4, "x")]);
    assert_eq!(parse_stage(&text), Err(StageError::BadToken { row: 2, col: 4 }));
}

#[test]
fn out_of_range_token_is_rejected() {
    let text = grid_text(STAGE_ROWS, STAGE_COLS, &[(0, 0, "9")]);
    assert_eq!(parse_stage(&text), Err(StageError::BadToken { row: 0, col: 0 }));
}

#[test]
fn overlong_token_is_rejected_without_overflow() {
    let text = grid_text(STAGE_ROWS, STAGE_COLS, &[(1, 1, "99999999999999999999999999")]);
    assert_eq!(parse_stage(&text), Err(StageError::BadToken { row: 1, col: 1 }));
}

#[test]
fn leading_zeros_are_accepted() {
    let text = grid_text(STAGE_ROWS, STAGE_COLS, &[(4, 4, "0008")]);
    let stage = parse_stage(&text).expect("leading zeros parse");
    assert_eq!(stage.bricks[4][4], 8);
}

#[test]
fn stage_new_checks_row_count() {
    let grid: Vec<Vec<usize>> = (0..19).map(|_| vec![0; STAGE_COLS]).collect();
    match Stage::new(grid) {
        Err(StageError::BadRowCount { found }) => assert_eq!(found, 19),
        other => panic!("expected a row-count error, got {:?}", other.is_ok()),
    }
}

#[test]
fn stage_new_checks_column_count() {
    let mut grid: Vec<Vec<usize>> = (0..STAGE_ROWS).map(|_| vec![0; STAGE_COLS]).collect();
    grid[11] = vec![0; 21];
    match Stage::new(grid) {
        Err(StageError::BadColumnCount { row, found }) => {
            assert_eq!(row, 11);
            assert_eq!(found, 21);
        },
        other => panic!("expected a column-count error, got {:?}", other.is_ok()),
    }
}

#[test]
fn stage_new_accepts_exact_dimensions() {
    let grid: Vec<Vec<usize>> = (0..STAGE_ROWS).map(|_| vec![0; STAGE_COLS]).collect();
    let stage = Stage::new(grid).expect("exact dimensions pass");
    assert_eq!(stage.bricks.len(), STAGE_ROWS);
}

#[test]
fn single_brick_is_placed_with_variant() {
    let text = grid_text(STAGE_ROWS, STAGE_COLS, &[(0, 5, "3")]);
    let stage = parse_stage(&text).expect("the grid parses");
    let cfg = Config::default();
    let bricks = initialize_stage(&cfg, &stage);
    assert_eq!(bricks.len(), 1);
    // column 5: half a brick width plus five widths; row 0: half a brick
    // height below the stage top
    assert_eq!(bricks[0].x, 88_000_000);
    assert_eq!(bricks[0].y, 177_000_000);
    assert_eq!(bricks[0].width, 16_000_000);
    assert_eq!(bricks[0].height, 6_000_000);
    assert_eq!(bricks[0].variant, 2);
}

#[test]
fn zero_codes_place_no_bricks() {
    let text = grid_text(STAGE_ROWS, STAGE_COLS, &[]);
    let stage = parse_stage(&text).expect("the grid parses");
    let cfg = Config::default();
    let bricks = initialize_stage(&cfg, &stage);
    assert_eq!(bricks.len(), 0);
}

#[test]
fn full_row_places_row_of_bricks() {
    let overrides: Vec<(usize, usize, &str)> = (0..STAGE_COLS).map(|c| (2, c, "1")).collect();
    let text = grid_text(STAGE_ROWS, STAGE_COLS, &overrides);
    let stage = parse_stage(&text).expect("the grid parses");
    let cfg = Config::default();
    let bricks = initialize_stage(&cfg, &stage);
    assert_eq!(bricks.len(), STAGE_COLS);
    for (c, brick) in bricks.iter().enumerate() {
        assert_eq!(brick.x, 8_000_000 + (c as i64) * 16_000_000);
        assert_eq!(brick.y, 177_000_000 - 2 * 6_000_000);
        assert_eq!(brick.variant, 0);
    }
}
