use plutau::lyrics::{LyricSettings, LyricSource};
use plutau::messages::{apply_message, control_channel, process_messages, send, ControlAction, ThreadMessage, QUEUE_CAPACITY};
use std::path::PathBuf;

#[test]
fn the_queue_holds_ten_commands() {
    assert_eq!(QUEUE_CAPACITY, 10);
    let (mut producer, _consumer) = control_channel();
    for i in 0..10 {
        assert!(send(&mut producer, ThreadMessage::SetLyricSource(i)).is_ok());
    }
    match send(&mut producer, ThreadMessage::LoadLyric(PathBuf::from("late.txt"))) {
        Err(ThreadMessage::LoadLyric(path)) => assert_eq!(path, PathBuf::from("late.txt")),
        _ => panic!("a full queue hands the command back"),
    }
}

#[test]
fn commands_arrive_in_the_order_sent() {
    let (mut producer, mut consumer) = control_channel();
    let mut settings = LyricSettings::new();
    send(&mut producer, ThreadMessage::LoadSinger(PathBuf::from("bank"))).ok().unwrap();
    send(&mut producer, ThreadMessage::SetLyricSource(2)).ok().unwrap();
    send(&mut producer, ThreadMessage::LoadLyric(PathBuf::from("song.txt"))).ok().unwrap();
    send(&mut producer, ThreadMessage::RemoveSinger(PathBuf::from("old"))).ok().unwrap();
    let actions = process_messages(&mut consumer, &mut settings);
    assert_eq!(actions.len(), 4);
    assert!(matches!(&actions[0], ControlAction::ReloadSinger(p) if p == &PathBuf::from("bank")));
    assert!(matches!(&actions[1], ControlAction::Nothing));
    assert!(matches!(&actions[2], ControlAction::ReadLyricFile(p) if p == &PathBuf::from("song.txt")));
    assert!(matches!(&actions[3], ControlAction::UnloadSinger(p) if p == &PathBuf::from("old")));
    assert!(matches!(settings.lyric_source, LyricSource::SysEx));
    assert!(process_messages(&mut consumer, &mut settings).is_empty());
}

#[test]
fn an_empty_queue_changes_nothing() {
    let (_producer, mut consumer) = control_channel();
    let mut settings = LyricSettings::new();
    settings.set_lyric_source(LyricSource::File);
    assert!(process_messages(&mut consumer, &mut settings).is_empty());
    assert!(matches!(settings.lyric_source, LyricSource::File));
}

#[test]
fn the_last_source_command_wins() {
    let (mut producer, mut consumer) = control_channel();
    let mut settings = LyricSettings::new();
    for index in [1, 2, 7, 1] {
        send(&mut producer, ThreadMessage::SetLyricSource(index)).ok().unwrap();
    }
    let actions = process_messages(&mut consumer, &mut settings);
    assert_eq!(actions.len(), 4);
    assert!(matches!(settings.lyric_source, LyricSource::File));
}

#[test]
fn a_drained_queue_takes_commands_again() {
    let (mut producer, mut consumer) = control_channel();
    let mut settings = LyricSettings::new();
    for i in 0..10 {
        send(&mut producer, ThreadMessage::SetLyricSource(i)).ok().unwrap();
    }
    assert_eq!(process_messages(&mut consumer, &mut settings).len(), 10);
    assert!(send(&mut producer, ThreadMessage::SetLyricSource(1)).is_ok());
    assert_eq!(process_messages(&mut consumer, &mut settings).len(), 1);
}

#[test]
fn a_command_is_applied_or_handed_on() {
    let mut settings = LyricSettings::new();
    assert!(matches!(apply_message(&mut settings, ThreadMessage::SetLyricSource(1)), ControlAction::Nothing));
    assert!(matches!(settings.lyric_source, LyricSource::File));
    let action = apply_message(&mut settings, ThreadMessage::LoadSinger(PathBuf::from("bank")));
    assert!(matches!(action, ControlAction::ReloadSinger(p) if p == PathBuf::from("bank")));
    assert!(matches!(settings.lyric_source, LyricSource::File));
    let action = apply_message(&mut settings, ThreadMessage::RemoveSinger(PathBuf::from("bank")));
    assert!(matches!(action, ControlAction::UnloadSinger(_)));
    let action = apply_message(&mut settings, ThreadMessage::LoadLyric(PathBuf::from("l.txt")));
    assert!(matches!(action, ControlAction::ReadLyricFile(_)));
}

#[test]
fn each_command_uses_up_a_known_free_slot() {
    let (mut producer, mut consumer) = control_channel();
    assert_eq!(producer.cached_slots(), 10);
    assert_eq!(producer.buffer().capacity(), 10);
    for used in 1..=10 {
        assert!(send(&mut producer, ThreadMessage::SetLyricSource(0)).is_ok());
        assert_eq!(producer.cached_slots(), 10 - used);
    }
    assert!(send(&mut producer, ThreadMessage::SetLyricSource(0)).is_err());
    assert_eq!(producer.cached_slots(), 0);
    assert_eq!(producer.buffer().capacity(), 10);
    let mut settings = LyricSettings::new();
    assert_eq!(process_messages(&mut consumer, &mut settings).len(), 10);
    assert_eq!(producer.cached_slots(), 0);
    assert!(send(&mut producer, ThreadMessage::SetLyricSource(0)).is_ok());
    assert_eq!(producer.cached_slots(), 9);
}

#[test]
fn new_settings_belong_to_no_file() {
    let settings = LyricSettings::new();
    assert!(settings.lyric_file.path.as_os_str().is_empty());
    assert_eq!(settings.lyric_file.path.as_os_str().as_encoded_bytes(), b"");
}
