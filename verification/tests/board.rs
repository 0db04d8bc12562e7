use std::num::{NonZeroU16, NonZeroU32};
use std::path::PathBuf;

use rodio::mixer::{mixer, MixerSource};
use rodio::source::SineWave;
use soundboard::audio::AudioEngine;
use soundboard::board::{Page, SoundboardApp};
use soundboard::sound::SoundLibrary;

fn board_with(names: &[&str]) -> (SoundboardApp, MixerSource) {
    let (m, out) = mixer(NonZeroU16::new(2).unwrap(), NonZeroU32::new(48_000).unwrap());
    let mut lib = SoundLibrary::default();
    for name in names {
        lib.add(name.to_string(), PathBuf::from(format!("/{name}.wav")));
    }
    (SoundboardApp::new(lib, AudioEngine::new(m)), out)
}

#[test]
fn new_board_shows_home() {
    let (board, _out) = board_with(&["a"]);
    assert!(board.page == Page::Home);
    assert!(!board.sidebar_collapsed);
    assert!(!board.stop_others);
    assert_eq!(board.selected_sound, None);
    assert!(!board.details_page_expanded);
    assert!(!board.recording_keybind);
    assert_eq!(board.library.sounds().len(), 1);
}

#[test]
fn toggle_sidebar_twice_restores() {
    let (mut board, _out) = board_with(&[]);
    board.toggle_sidebar();
    assert!(board.sidebar_collapsed);
    board.toggle_sidebar();
    assert!(!board.sidebar_collapsed);
}

#[test]
fn add_sound_names_after_file_stem() {
    let (mut board, _out) = board_with(&["a"]);
    board.add_sound(vec![
        PathBuf::from("/music/kick drum.wav"),
        PathBuf::from("/"),
        PathBuf::from("clap"),
    ]);
    let names: Vec<&str> = board.library.sounds().iter().map(|s| s.name.as_str()).collect();
    assert_eq!(names, vec!["a", "kick drum", "Sound", "clap"]);
    let ids: Vec<u64> = board.library.sounds().iter().map(|s| s.id).collect();
    assert_eq!(ids, vec![0, 1, 2, 3]);
    assert_eq!(board.library.sounds()[1].path, PathBuf::from("/music/kick drum.wav"));
}

#[test]
fn play_unknown_sound_does_nothing() {
    let (mut board, _out) = board_with(&["a"]);
    board.stop_others = true;
    board.audio.add_player().append(SineWave::new(440.0));
    assert_eq!(board.play_sound(5), None);
    assert_eq!(board.audio.len(), 1);
}

#[test]
fn play_sound_keeps_others_by_default() {
    let (mut board, _out) = board_with(&["a", "b"]);
    board.audio.add_player().append(SineWave::new(440.0));
    assert_eq!(board.play_sound(1), Some(1));
    assert_eq!(board.audio.len(), 1);
}

#[test]
fn play_sound_stops_others_when_asked() {
    let (mut board, _out) = board_with(&["a", "b"]);
    board.stop_others = true;
    board.audio.add_player().append(SineWave::new(440.0));
    board.audio.add_player();
    assert_eq!(board.play_sound(0), Some(0));
    assert_eq!(board.audio.len(), 0);
}

#[test]
fn remove_selected_sound_clears_selection() {
    let (mut board, _out) = board_with(&["a", "b"]);
    board.selected_sound = Some(1);
    board.remove_sound(1);
    assert_eq!(board.selected_sound, None);
    assert_eq!(board.library.sounds().len(), 1);
}

#[test]
fn remove_other_sound_keeps_selection() {
    let (mut board, _out) = board_with(&["a", "b"]);
    board.selected_sound = Some(1);
    board.remove_sound(0);
    assert_eq!(board.selected_sound, Some(1));
    assert_eq!(board.library.sounds()[0].id, 1);
}

#[test]
fn clear_sounds_empties_library() {
    let (mut board, _out) = board_with(&["a", "b"]);
    board.selected_sound = Some(0);
    board.clear_sounds();
    assert!(board.library.sounds().is_empty());
    assert_eq!(board.selected_sound, None);
    assert_eq!(board.library.next_id(), 2);
}

#[test]
fn close_detail_resets_panel() {
    let (mut board, _out) = board_with(&["a"]);
    board.selected_sound = Some(0);
    board.details_page_expanded = true;
    board.start_recording_keybind();
    assert!(board.recording_keybind);
    board.close_detail();
    assert_eq!(board.selected_sound, None);
    assert!(!board.details_page_expanded);
    assert!(!board.recording_keybind);
}

#[test]
fn delete_sound_stops_everything_then_removes() {
    let (mut board, _out) = board_with(&["a", "b"]);
    board.audio.add_player().append(SineWave::new(440.0));
    board.audio.add_player().append(SineWave::new(550.0));
    board.selected_sound = Some(0);
    board.delete_sound(0);
    assert_eq!(board.audio.len(), 0);
    assert_eq!(board.selected_sound, None);
    let ids: Vec<u64> = board.library.sounds().iter().map(|s| s.id).collect();
    assert_eq!(ids, vec![1]);
}

#[test]
fn toggle_recording_keybind_flips() {
    let (mut board, _out) = board_with(&[]);
    board.toggle_recording_keybind();
    assert!(board.recording_keybind);
    board.toggle_recording_keybind();
    assert!(!board.recording_keybind);
}
