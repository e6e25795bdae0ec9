//! What the player can set up.
use std::collections::HashMap;

use falling_tetromino_engine::{Configuration, DelayParameters, ExtNonNegF64, TetrominoGenerator};
use tetro_tui::button::Button;
use tetro_tui::color::Color;
use tetro_tui::keys::{KeyCode, KeyModifiers};
use tetro_tui::settings::{
    GameplaySettings, Glyphset, GraphicsSettings, NewGameSettings, Palette, RotationSystem,
    SavefileGranularity, Settings, FPS_30, FPS_60, KEYBINDS_NAMES, PALETTE_NAMES,
};
use tetro_tui::time::{ExtDuration, InGameTime};

fn millis(ms: u64) -> InGameTime {
    InGameTime::from_millis(ms)
}

fn palette(n: u8) -> Palette {
    HashMap::from([(n, Color::AnsiValue(n))])
}

fn settings() -> Settings {
    let keybinds = (0..4)
        .map(|n| {
            vec![((KeyCode::F(n), KeyModifiers { bits: 0 }), Button::VARIANTS[n as usize])]
        })
        .collect();
    Settings::default_with((0..10).map(palette).collect(), keybinds, 150)
}

#[test]
fn graphics_have_defaults() {
    let graphics = GraphicsSettings::default();
    assert_eq!(graphics.palette_active, 3);
    assert_eq!(graphics.palette_active_lockedtiles, 3);
    assert_eq!(graphics.glyphset, Glyphset::Unicode);
    assert!(graphics.show_effects && graphics.show_shadow_piece);
    assert!(!graphics.blindfolded && !graphics.show_button_state && !graphics.show_fps);
    assert_eq!(f64::from_bits(graphics.game_fps.bits), 30.0);
    assert_eq!(f64::from_bits(FPS_30), 30.0);
    assert_eq!(f64::from_bits(FPS_60), 60.0);
    assert_eq!(SavefileGranularity::default(), SavefileGranularity::NoSavefile);
}

#[test]
fn gameplay_has_the_defaults_of_the_engine() {
    let c = Configuration::default();
    let g = GameplaySettings::default();
    assert_eq!(g.rotation_system, RotationSystem::Ocular);
    assert_eq!(c.rotation_system, falling_tetromino_engine::RotationSystem::Ocular);
    assert_eq!(g.tetromino_generator, TetrominoGenerator::default());
    assert_eq!(g.piece_preview_count, c.piece_preview_count);
    assert_eq!(g.piece_preview_count, 4);
    assert_eq!(g.delayed_auto_shift, millis(167));
    assert_eq!(g.auto_repeat_rate, millis(33));
    assert_eq!(g.soft_drop_factor, ExtNonNegF64::new(10.0).unwrap());
    assert_eq!(g.line_clear_duration, millis(200));
    assert_eq!(g.spawn_delay, millis(50));
    assert!(g.allow_prespawn_actions);
}

#[test]
fn new_games_have_defaults() {
    let n = NewGameSettings::default_with(150);
    assert_eq!(n.custom_fall_delay_params, DelayParameters::standard_fall());
    assert_eq!(n.custom_win_condition, None);
    assert_eq!(n.custom_seed, None);
    assert_eq!(n.custom_board, None);
    assert_eq!(n.cheese_linelimit, Some(20));
    assert_eq!(n.cheese_fall_delay, ExtDuration::Infinite);
    assert_eq!(n.cheese_tiles_per_line, 9);
    assert_eq!(n.combo_linelimit, Some(30));
    assert_eq!(n.combo_startlayout, 150);
    assert!(!n.experimental_mode_unlocked);
    assert!(n.is_wf());
    let zero = NewGameSettings { cheese_linelimit: Some(0), ..NewGameSettings::default_with(0) };
    assert!(!zero.is_wf());
}

#[test]
fn slots_have_defaults() {
    let s = settings();
    assert_eq!(
        (s.graphics_slot_active, s.keybinds_slot_active, s.gameplay_slot_active),
        (0, 0, 0)
    );
    assert_eq!(s.graphics_slots_that_should_not_be_changed, 2);
    assert_eq!(s.palette_slots_that_should_not_be_changed, 10);
    assert_eq!(s.keybinds_slots_that_should_not_be_changed, 4);
    assert_eq!(s.gameplay_slots_that_should_not_be_changed, 2);
    assert_eq!(s.graphics_slots[0].0, "Default");
    assert_eq!(s.graphics_slots[1].0, "Extra Focused");
    let focused = s.graphics_slots[1].1;
    assert_eq!((focused.palette_active, focused.palette_active_lockedtiles), (2, 0));
    assert!(!focused.show_effects && focused.show_shadow_piece);
    assert_eq!(focused.game_fps.bits, FPS_60);
    for (i, (name, content)) in s.palette_slots.iter().enumerate() {
        assert_eq!(name, PALETTE_NAMES[i]);
        assert_eq!(*content, palette(i as u8));
    }
    assert_eq!(PALETTE_NAMES[3], "Okpalette");
    for (i, (name, content)) in s.keybinds_slots.iter().enumerate() {
        assert_eq!(name, KEYBINDS_NAMES[i]);
        assert_eq!(content[0].1, Button::VARIANTS[i]);
    }
    assert_eq!(s.gameplay_slots[0].0, "Default");
    assert_eq!(s.gameplay_slots[1].0, "Extra Finesse");
    let finesse = s.gameplay_slots[1].1;
    assert_eq!(finesse.delayed_auto_shift, millis(110));
    assert_eq!(finesse.auto_repeat_rate, millis(0));
    assert_eq!(finesse.piece_preview_count, 9);
    assert_eq!(finesse.spawn_delay, millis(50));
    assert!(s.is_wf());
}

#[test]
fn active_slots_are_used_and_changed() {
    let mut s = settings();
    s.graphics_slot_active = 1;
    s.gameplay_slot_active = 1;
    s.keybinds_slot_active = 2;
    assert!(!s.graphics().show_effects);
    assert_eq!(s.gameplay().piece_preview_count, 9);
    assert_eq!(s.keybinds()[0].1, Button::RotateLeft);
    assert_eq!(*s.palette(), palette(2));
    assert_eq!(*s.palette_lockedtiles(), palette(0));
    s.graphics_mut().blindfolded = true;
    s.gameplay_mut().piece_preview_count = 1;
    s.keybinds_mut().clear();
    assert!(s.graphics_slots[1].1.blindfolded && !s.graphics_slots[0].1.blindfolded);
    assert_eq!(s.gameplay_slots[1].1.piece_preview_count, 1);
    assert_eq!(s.gameplay_slots[0].1.piece_preview_count, 4);
    assert!(s.keybinds_slots[2].1.is_empty() && !s.keybinds_slots[0].1.is_empty());
}

#[test]
fn slots_that_do_not_exist_are_noticed() {
    let mut s = settings();
    s.gameplay_slot_active = 2;
    assert!(!s.is_wf());
    let mut s = settings();
    s.graphics_mut().palette_active = 10;
    assert!(!s.is_wf());
}
