use plutau::playing_sample::{accepts_note_on, release_all, retire_finished, FrameSource, PlayingSample, PlayingState};
use std::path::PathBuf;

fn voice(position: i64, state: PlayingState, start: u32, end: u32, ignore_fade: bool) -> PlayingSample<f32> {
    PlayingSample {
        handle: PathBuf::from("bank/a.wav"),
        gain: 0.5,
        position,
        state,
        vowel_start: start,
        vowel_end: end,
        ignore_fade,
    }
}

#[test]
fn a_new_voice_is_at_rest() {
    let v = PlayingSample::new(PathBuf::from("x.wav"), 0.75f32);
    assert_eq!(v.handle, PathBuf::from("x.wav"));
    assert_eq!(v.gain, 0.75);
    assert_eq!(v.position, 0);
    assert_eq!(v.state, PlayingState::ATTACK);
    assert_eq!((v.vowel_start, v.vowel_end), (0, 0));
    assert!(v.ignore_fade);
}

#[test]
fn a_started_voice_waits_for_its_note() {
    let v = PlayingSample::start(PathBuf::from("x.wav"), 0.25f32, 17, 100, 1000);
    assert_eq!(v.position, -17);
    assert_eq!(v.gain, 0.25);
    assert_eq!(v.state, PlayingState::ATTACK);
    assert_eq!((v.vowel_start, v.vowel_end), (100, 1000));
    assert!(v.ignore_fade);
    assert_eq!(v.frame_source(true, 50), FrameSource::Silent);
    let late = PlayingSample::start(PathBuf::new(), 1.0f32, u32::MAX, 0, 0);
    assert_eq!(late.position, -(u32::MAX as i64));
}

#[test]
fn attack_ends_at_the_loop_start() {
    let mut v = voice(97, PlayingState::ATTACK, 100, 1000, true);
    v.advance(0);
    assert_eq!((v.position, v.state), (98, PlayingState::ATTACK));
    v.advance(0);
    assert_eq!((v.position, v.state), (99, PlayingState::ATTACK));
    v.advance(0);
    assert_eq!((v.position, v.state), (100, PlayingState::SUSTAIN));
}

#[test]
fn sustain_cursor_climbs_by_one_and_wraps_to_the_loop_start() {
    let mut v = voice(100, PlayingState::SUSTAIN, 100, 1000, true);
    for expected in 101..=1000 {
        v.advance(0);
        assert_eq!(v.position, expected);
        assert_eq!(v.state, PlayingState::SUSTAIN);
    }
    v.advance(0);
    assert_eq!(v.position, 100);
    v.advance(0);
    assert_eq!(v.position, 101);
}

#[test]
fn sustain_wraps_to_the_loop_start_plus_the_crossfade() {
    let mut v = voice(1000, PlayingState::SUSTAIN, 100, 1000, true);
    v.advance(50);
    assert_eq!(v.position, 150);
    assert!(v.ignore_fade);
    v.advance(50);
    assert_eq!(v.position, 151);
    assert!(!v.ignore_fade);
}

#[test]
fn crossfade_engages_beyond_the_loop_start_plus_its_length() {
    let mut v = voice(148, PlayingState::SUSTAIN, 100, 1000, true);
    v.advance(50);
    assert!(v.ignore_fade);
    v.advance(50);
    assert_eq!(v.position, 150);
    assert!(v.ignore_fade);
    v.advance(50);
    assert!(!v.ignore_fade);
}

#[test]
fn release_jumps_to_the_loop_end_and_is_done() {
    let mut v = voice(300, PlayingState::RELEASE, 100, 1000, false);
    v.advance(50);
    assert_eq!(v.position, 1000);
    assert_eq!(v.state, PlayingState::DONE);
    assert!(v.ignore_fade);
    v.advance(50);
    assert_eq!(v.position, 1001);
    assert_eq!(v.state, PlayingState::DONE);
}

#[test]
fn blend_weight_runs_from_zero_to_just_below_one() {
    let at = |position: i64| voice(position, PlayingState::SUSTAIN, 100, 1000, false).frame_source(true, 50);
    assert_eq!(at(949), FrameSource::Single { at: 949 });
    assert_eq!(at(950), FrameSource::Blend { at: 950, second: 100, offset: 0, length: 50 });
    assert_eq!(at(975), FrameSource::Blend { at: 975, second: 125, offset: 25, length: 50 });
    assert_eq!(at(999), FrameSource::Blend { at: 999, second: 149, offset: 49, length: 50 });
    for position in 950..1000 {
        match at(position) {
            FrameSource::Blend { offset, length, .. } => {
                assert_eq!(offset as i64, position - 950);
                assert!(offset < length as u64);
            }
            other => panic!("{other:?}"),
        }
    }
}

#[test]
fn no_blend_without_crossfade_or_while_fade_is_ignored() {
    assert_eq!(voice(960, PlayingState::SUSTAIN, 100, 1000, false).frame_source(false, 50), FrameSource::Single { at: 960 });
    assert_eq!(voice(960, PlayingState::SUSTAIN, 100, 1000, true).frame_source(true, 50), FrameSource::Single { at: 960 });
    assert_eq!(voice(-1, PlayingState::ATTACK, 100, 1000, false).frame_source(true, 50), FrameSource::Silent);
    assert_eq!(voice(0, PlayingState::ATTACK, 100, 1000, false).frame_source(true, 50), FrameSource::Single { at: 0 });
}

#[test]
fn crossfade_longer_than_the_loop_end_blends_from_the_first_frame() {
    let v = voice(3, PlayingState::SUSTAIN, 2, 10, false);
    assert_eq!(v.frame_source(true, 30), FrameSource::Blend { at: 3, second: 25, offset: 23, length: 30 });
}

#[test]
fn note_on_is_gated_by_the_first_voice() {
    assert!(accepts_note_on(&Vec::<PlayingSample<f32>>::new()));
    assert!(!accepts_note_on(&vec![voice(0, PlayingState::SUSTAIN, 0, 0, true)]));
    assert!(!accepts_note_on(&vec![voice(0, PlayingState::ATTACK, 0, 0, true)]));
    assert!(accepts_note_on(&vec![voice(0, PlayingState::RELEASE, 0, 0, true)]));
    assert!(accepts_note_on(&vec![voice(0, PlayingState::DONE, 0, 0, true)]));
    assert!(accepts_note_on(&vec![
        voice(0, PlayingState::DONE, 0, 0, true),
        voice(0, PlayingState::SUSTAIN, 0, 0, true),
    ]));
    assert!(!accepts_note_on(&vec![
        voice(0, PlayingState::SUSTAIN, 0, 0, true),
        voice(0, PlayingState::DONE, 0, 0, true),
    ]));
}

#[test]
fn note_off_releases_every_voice() {
    let mut voices = vec![
        voice(5, PlayingState::ATTACK, 1, 2, true),
        voice(6, PlayingState::SUSTAIN, 3, 4, false),
        voice(7, PlayingState::DONE, 5, 6, true),
    ];
    release_all(&mut voices);
    assert_eq!(voices.len(), 3);
    for v in &voices {
        assert_eq!(v.state, PlayingState::RELEASE);
    }
    assert_eq!(voices[1].position, 6);
    assert_eq!(voices[1].gain, 0.5);
    assert_eq!((voices[1].vowel_start, voices[1].vowel_end), (3, 4));
    assert!(!voices[1].ignore_fade);
}

#[test]
fn instant_cutoff_drops_a_done_voice_at_once() {
    let mut voices = vec![voice(1000, PlayingState::DONE, 100, 1000, true)];
    retire_finished(&mut voices, &vec![Some(5000)], true);
    assert!(voices.is_empty());
}

#[test]
fn sustained_release_keeps_a_done_voice_until_the_sample_ends() {
    let mut voices = vec![voice(1000, PlayingState::DONE, 100, 1000, true)];
    retire_finished(&mut voices, &vec![Some(5000)], false);
    assert_eq!(voices.len(), 1);
    assert_eq!(voices[0].position, 1000);
    voices[0].position = 4999;
    retire_finished(&mut voices, &vec![Some(5000)], false);
    assert_eq!(voices.len(), 1);
    voices[0].position = 5000;
    retire_finished(&mut voices, &vec![Some(5000)], false);
    assert!(voices.is_empty());
}

#[test]
fn sustained_release_holds_a_done_voice_at_the_loop_end() {
    let mut voices = vec![voice(400, PlayingState::DONE, 100, 1000, true)];
    retire_finished(&mut voices, &vec![Some(5000)], false);
    assert_eq!(voices[0].position, 1000);
    assert_eq!(voices[0].state, PlayingState::DONE);
}

#[test]
fn voices_leave_at_the_end_of_their_sample_or_without_one() {
    let mut voices = vec![
        voice(10, PlayingState::SUSTAIN, 0, 100, true),
        voice(200, PlayingState::SUSTAIN, 0, 100, true),
        voice(20, PlayingState::ATTACK, 0, 100, true),
        voice(-5, PlayingState::ATTACK, 0, 100, true),
        voice(30, PlayingState::DONE, 0, 100, true),
    ];
    voices[3].gain = 0.125;
    retire_finished(&mut voices, &vec![Some(200), Some(200), None, Some(0), Some(200)], true);
    assert_eq!(voices.len(), 2);
    assert_eq!(voices[1].gain, 0.125);
    assert_eq!(voices[0].position, 10);
    assert_eq!(voices[1].position, -5);
}

#[test]
fn a_block_is_planned_frame_by_frame() {
    let mut v = voice(-2, PlayingState::ATTACK, 1, 3, true);
    let plan = v.plan_block(8, true, 1);
    assert_eq!(
        plan,
        vec![
            FrameSource::Silent,
            FrameSource::Silent,
            FrameSource::Single { at: 0 },
            FrameSource::Single { at: 1 },
            FrameSource::Single { at: 2 },
            FrameSource::Blend { at: 3, second: 2, offset: 1, length: 1 },
            FrameSource::Blend { at: 2, second: 1, offset: 0, length: 1 },
            FrameSource::Blend { at: 3, second: 2, offset: 1, length: 1 },
        ]
    );
    assert_eq!(v.position, 2);
    assert_eq!(v.state, PlayingState::SUSTAIN);
    assert!(!v.ignore_fade);
}

#[test]
fn a_planned_block_equals_single_steps() {
    let mut planned = voice(90, PlayingState::ATTACK, 100, 130, true);
    let mut stepped = voice(90, PlayingState::ATTACK, 100, 130, true);
    let plan = planned.plan_block(200, true, 10);
    for source in plan {
        assert_eq!(source, stepped.frame_source(true, 10));
        stepped.advance(10);
    }
    assert_eq!(planned.position, stepped.position);
    assert_eq!(planned.state, stepped.state);
    assert_eq!(planned.ignore_fade, stepped.ignore_fade);
    let mut idle = voice(5, PlayingState::DONE, 0, 0, true);
    assert!(idle.plan_block(0, true, 10).is_empty());
    assert_eq!(idle.position, 5);
}
