use std::num::{NonZeroU16, NonZeroU32};

use rodio::mixer::{mixer, Mixer, MixerSource};
use rodio::source::SineWave;
use soundboard::audio::player::AudioPlayer;
use soundboard::audio::AudioEngine;

fn new_mixer() -> (Mixer, MixerSource) {
    mixer(NonZeroU16::new(2).unwrap(), NonZeroU32::new(44_100).unwrap())
}

#[test]
fn engine_starts_empty() {
    let (m, _out) = new_mixer();
    let engine = AudioEngine::new(m);
    assert_eq!(engine.len(), 0);
}

#[test]
fn engine_add_player_grows_pool() {
    let (m, _out) = new_mixer();
    let mut engine = AudioEngine::new(m);
    engine.add_player();
    engine.add_player();
    assert_eq!(engine.len(), 2);
}

#[test]
fn engine_prune_drops_finished_players_only() {
    let (m, _out) = new_mixer();
    let mut engine = AudioEngine::new(m);
    engine.add_player();
    let busy = engine.add_player();
    busy.append(SineWave::new(440.0));
    engine.add_player();
    engine.prune_finished();
    assert_eq!(engine.len(), 1);
}

#[test]
fn engine_prune_keeps_playing_players() {
    let (m, _out) = new_mixer();
    let mut engine = AudioEngine::new(m);
    engine.add_player().append(SineWave::new(220.0));
    engine.add_player().append(SineWave::new(330.0));
    engine.prune_finished();
    assert_eq!(engine.len(), 2);
}

#[test]
fn engine_stop_all_empties_pool() {
    let (m, _out) = new_mixer();
    let mut engine = AudioEngine::new(m);
    engine.add_player().append(SineWave::new(440.0));
    engine.add_player();
    engine.stop_all();
    assert_eq!(engine.len(), 0);
}

#[test]
fn player_keeps_one_player_per_sound() {
    let (m, _out) = new_mixer();
    let mut players = AudioPlayer::new(m);
    players.play(1);
    players.play(2);
    players.play(1);
    assert_eq!(players.len(), 2);
    assert!(players.is_playing(1));
    assert!(players.is_playing(2));
    assert!(!players.is_playing(3));
}

#[test]
fn player_stop_forgets_only_that_sound() {
    let (m, _out) = new_mixer();
    let mut players = AudioPlayer::new(m);
    players.play(1).append(SineWave::new(440.0));
    players.play(2);
    players.stop(1);
    assert!(!players.is_playing(1));
    assert!(players.is_playing(2));
    players.stop(5);
    assert_eq!(players.len(), 1);
}

#[test]
fn player_stop_all_forgets_everything() {
    let (m, _out) = new_mixer();
    let mut players = AudioPlayer::new(m);
    players.play(1);
    players.play(7);
    players.stop_all();
    assert_eq!(players.len(), 0);
    assert!(!players.is_playing(7));
}
