use snake::renderer::{Renderer, TerminalRenderer, BACKGROUND, DARK_SQUARE, LIGHT_SQUARE};

fn count_of(renderer: &TerminalRenderer, glyph: char) -> usize {
    renderer.rows().iter().flatten().filter(|cell| **cell == glyph).count()
}

#[test]
fn a_new_renderer_is_blank() {
    let renderer = TerminalRenderer::new(18, 80, 24);
    let rows = renderer.rows();
    assert_eq!(rows.len(), 24);
    for row in rows {
        assert_eq!(row.len(), 80);
        assert!(row.iter().all(|glyph| *glyph == BACKGROUND));
    }
    assert!(renderer.shown().is_empty());
}

#[test]
fn a_renderer_for_no_screen_at_all() {
    let mut renderer = TerminalRenderer::new(18, 0, 0);
    assert!(renderer.rows().is_empty());
    renderer.clear();
    renderer.put_char(0, 0, 'x');
    renderer.draw_text("text", 0, 0);
    renderer.present();
    assert!(renderer.shown().is_empty());

    let mut renderer = TerminalRenderer::new(18, 0, 5);
    assert_eq!(renderer.rows().len(), 5);
    assert!(renderer.rows().iter().all(|row| row.is_empty()));
    renderer.clear();
    renderer.draw_text("text", 0, 0);
    renderer.present();
    assert!(renderer.shown().is_empty());
}

#[test]
fn a_grid_cell_is_a_block_twice_as_wide_as_high() {
    let mut renderer = TerminalRenderer::new(18, 80, 24);
    renderer.put_char(0, 0, 'x');
    assert_eq!(renderer.rows()[3][22], 'x');
    assert_eq!(renderer.rows()[3][23], 'x');
    assert_eq!(count_of(&renderer, 'x'), 2);
    renderer.put_char(17, 17, 'y');
    assert_eq!(renderer.rows()[20][56], 'y');
    assert_eq!(renderer.rows()[20][57], 'y');
    assert_eq!(count_of(&renderer, 'y'), 2);
}

#[test]
fn the_scale_is_the_shorter_side_divided_by_the_grid() {
    let mut renderer = TerminalRenderer::new(10, 100, 50);
    renderer.put_char(0, 0, 'x');
    assert_eq!(count_of(&renderer, 'x'), 50);
    for row in 0..5 {
        for col in 0..10 {
            assert_eq!(renderer.rows()[row][col], 'x');
        }
    }
    assert_eq!(renderer.rows()[5][0], BACKGROUND);
    assert_eq!(renderer.rows()[0][10], BACKGROUND);
    renderer.put_char(9, 9, 'y');
    assert_eq!(count_of(&renderer, 'y'), 50);
    assert_eq!(renderer.rows()[45][90], 'y');
    assert_eq!(renderer.rows()[49][99], 'y');
}

#[test]
fn the_grid_is_centred_with_the_odd_cell_on_the_far_side() {
    let mut renderer = TerminalRenderer::new(3, 11, 4);
    renderer.put_char(0, 0, 'x');
    assert_eq!(renderer.rows()[0], "  xx       ".chars().collect::<Vec<_>>());
    renderer.put_char(2, 2, 'y');
    assert_eq!(renderer.rows()[2], "      yy   ".chars().collect::<Vec<_>>());
    assert_eq!(renderer.rows()[3], "           ".chars().collect::<Vec<_>>());
}

#[test]
fn a_grid_wider_than_the_screen_hangs_over_on_both_sides() {
    let mut renderer = TerminalRenderer::new(18, 20, 24);
    renderer.put_char(3, 0, 'a');
    assert_eq!(count_of(&renderer, 'a'), 0);
    renderer.put_char(4, 0, 'b');
    assert_eq!(renderer.rows()[3][0], 'b');
    assert_eq!(renderer.rows()[3][1], 'b');
    assert_eq!(count_of(&renderer, 'b'), 2);
    renderer.put_char(13, 0, 'c');
    assert_eq!(renderer.rows()[3][18], 'c');
    assert_eq!(renderer.rows()[3][19], 'c');
    renderer.put_char(14, 0, 'd');
    assert_eq!(count_of(&renderer, 'd'), 0);
}

#[test]
fn an_overhang_of_odd_width_is_halved_towards_zero() {
    let mut renderer = TerminalRenderer::new(18, 21, 24);
    renderer.put_char(3, 0, 'a');
    assert_eq!(renderer.rows()[3][0], 'a');
    assert_eq!(count_of(&renderer, 'a'), 1);
    renderer.put_char(4, 0, 'b');
    assert_eq!(renderer.rows()[3][1], 'b');
    assert_eq!(renderer.rows()[3][2], 'b');
}

#[test]
fn a_screen_too_small_for_the_grid_shows_nothing() {
    let mut renderer = TerminalRenderer::new(18, 80, 10);
    renderer.put_char(0, 0, 'x');
    renderer.put_char(5, 5, 'x');
    renderer.clear();
    assert_eq!(count_of(&renderer, BACKGROUND), 800);
}

#[test]
fn cells_off_the_screen_are_dropped() {
    let mut renderer = TerminalRenderer::new(18, 80, 24);
    for (x, y) in [
        (-12, 0),
        (29, 0),
        (0, -4),
        (0, 21),
        (i32::MAX, i32::MAX),
        (i32::MIN, i32::MIN),
        (i32::MAX, 0),
        (0, i32::MIN),
    ] {
        renderer.put_char(x, y, 'x');
    }
    assert_eq!(count_of(&renderer, 'x'), 0);
}

#[test]
fn cells_outside_the_grid_but_on_the_screen_are_drawn() {
    let mut renderer = TerminalRenderer::new(18, 80, 24);
    renderer.put_char(-11, -3, 'x');
    assert_eq!(renderer.rows()[0][0], 'x');
    assert_eq!(renderer.rows()[0][1], 'x');
    renderer.put_char(28, 20, 'y');
    assert_eq!(renderer.rows()[23][78], 'y');
    assert_eq!(renderer.rows()[23][79], 'y');
}

#[test]
fn the_board_is_a_checkerboard() {
    let mut renderer = TerminalRenderer::new(18, 80, 24);
    renderer.draw_grid();
    let rows = renderer.rows();
    for gy in 0..18usize {
        for gx in 0..18usize {
            let glyph = if (gx + gy) % 2 == 0 { DARK_SQUARE } else { LIGHT_SQUARE };
            assert_eq!(rows[3 + gy][22 + 2 * gx], glyph);
            assert_eq!(rows[3 + gy][23 + 2 * gx], glyph);
        }
    }
    assert_eq!(count_of(&renderer, DARK_SQUARE), 324);
    assert_eq!(count_of(&renderer, LIGHT_SQUARE), 324);
    assert_eq!(count_of(&renderer, BACKGROUND), 80 * 24 - 648);
    assert_eq!(rows[3][21], BACKGROUND);
    assert_eq!(rows[3][58], BACKGROUND);
    assert_eq!(rows[2][22], BACKGROUND);
    assert_eq!(rows[21][22], BACKGROUND);
}

#[test]
fn the_board_of_a_scaled_grid() {
    let mut renderer = TerminalRenderer::new(2, 9, 4);
    renderer.clear();
    let lines: Vec<String> = renderer.rows().iter().map(|row| row.iter().collect()).collect();
    assert_eq!(
        lines,
        vec![
            "░░░░▒▒▒▒ ".to_string(),
            "░░░░▒▒▒▒ ".to_string(),
            "▒▒▒▒░░░░ ".to_string(),
            "▒▒▒▒░░░░ ".to_string(),
        ]
    );
}

#[test]
fn clear_draws_the_board_over_what_was_drawn() {
    let mut renderer = TerminalRenderer::new(18, 80, 24);
    renderer.put_char(4, 4, 'x');
    renderer.put_char(-11, -3, 'y');
    renderer.clear();
    assert_eq!(count_of(&renderer, 'x'), 0);
    assert_eq!(renderer.rows()[7][30], DARK_SQUARE);
    assert_eq!(count_of(&renderer, 'y'), 2);
}

#[test]
fn text_runs_to_the_right() {
    let mut renderer = TerminalRenderer::new(18, 80, 24);
    renderer.draw_text("Score: 7", 2, 2);
    let line: String = renderer.rows()[2].iter().collect();
    assert_eq!(&line[..12], "  Score: 7  ");
    assert_eq!(count_of(&renderer, BACKGROUND), 80 * 24 - 7);
}

#[test]
fn text_ends_at_the_right_edge() {
    let mut renderer = TerminalRenderer::new(18, 10, 4);
    renderer.draw_text("abcdefgh", 6, 1);
    let line: String = renderer.rows()[1].iter().collect();
    assert_eq!(line, "      abcd");
    assert_eq!(renderer.rows()[2], vec![BACKGROUND; 10]);
    renderer.draw_text("xyz", 10, 0);
    renderer.draw_text("xyz", i32::MAX, 0);
    assert_eq!(renderer.rows()[0], vec![BACKGROUND; 10]);
}

#[test]
fn text_that_starts_left_of_the_screen_loses_its_start() {
    let mut renderer = TerminalRenderer::new(18, 10, 4);
    renderer.draw_text("abcdef", -4, 0);
    let line: String = renderer.rows()[0].iter().collect();
    assert_eq!(line, "ef        ");
    renderer.draw_text("abc", i32::MIN, 1);
    assert_eq!(renderer.rows()[1], vec![BACKGROUND; 10]);
}

#[test]
fn text_on_a_row_off_the_screen_is_dropped() {
    let mut renderer = TerminalRenderer::new(18, 10, 4);
    renderer.draw_text("abc", 0, 4);
    renderer.draw_text("abc", 0, -1);
    renderer.draw_text("abc", 0, i32::MAX);
    renderer.draw_text("abc", 0, i32::MIN);
    assert_eq!(count_of(&renderer, BACKGROUND), 40);
}

#[test]
fn text_of_other_than_latin_letters_takes_one_cell_per_character() {
    let mut renderer = TerminalRenderer::new(18, 10, 4);
    renderer.draw_text("äö█", 1, 3);
    assert_eq!(renderer.rows()[3][1], 'ä');
    assert_eq!(renderer.rows()[3][2], 'ö');
    assert_eq!(renderer.rows()[3][3], '█');
    assert_eq!(renderer.rows()[3][4], BACKGROUND);
    renderer.draw_text("", 0, 0);
    assert_eq!(renderer.rows()[0], vec![BACKGROUND; 10]);
}

#[test]
fn present_lays_out_every_cell_with_its_place() {
    let mut renderer = TerminalRenderer::new(1, 3, 2);
    renderer.draw_text("abc", 0, 0);
    renderer.draw_text("de", 1, 1);
    assert!(renderer.shown().is_empty());
    renderer.present();
    assert_eq!(
        renderer.shown(),
        &vec![(0, 0, 'a'), (1, 0, 'b'), (2, 0, 'c'), (0, 1, ' '), (1, 1, 'd'), (2, 1, 'e')]
    );
}

#[test]
fn present_shows_the_buffer_as_it_was_when_called() {
    let mut renderer = TerminalRenderer::new(18, 80, 24);
    renderer.put_char(0, 0, 'x');
    renderer.present();
    renderer.put_char(1, 0, 'y');
    let shown = renderer.shown();
    assert_eq!(shown.len(), 80 * 24);
    for (place, cell) in shown.iter().enumerate() {
        assert_eq!(cell.0 as usize, place % 80);
        assert_eq!(cell.1 as usize, place / 80);
    }
    assert_eq!(shown[3 * 80 + 22], (22, 3, 'x'));
    assert_eq!(shown[3 * 80 + 23], (23, 3, 'x'));
    assert_eq!(shown[3 * 80 + 24], (24, 3, BACKGROUND));
    renderer.present();
    assert_eq!(renderer.shown()[3 * 80 + 24], (24, 3, 'y'));
}

#[test]
fn the_largest_screen_is_laid_out_without_loss() {
    let mut renderer = TerminalRenderer::new(1, u16::MAX, 1);
    renderer.put_char(0, 0, 'x');
    assert_eq!(renderer.rows()[0][32766], 'x');
    assert_eq!(renderer.rows()[0][32767], 'x');
    assert_eq!(count_of(&renderer, 'x'), 2);
    renderer.present();
    assert_eq!(renderer.shown().len(), 65535);
    assert_eq!(renderer.shown()[65534], (65534, 0, BACKGROUND));
}
