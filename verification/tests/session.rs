use voicepeak::probe::{FileInfo, BUILD_ID};
use voicepeak::session::{
    expect, within_deadline, Event, Exit, Library, Session, Stage, Target, Voicepeak, DONE,
    PRELOAD_VARIABLE, READY, SETTING_VARIABLE, TIMEOUT_SECS,
};

const OUTPUT: &[u8] = b"/tmp/out.wav";

/// A process is known by its number here.
type Engine = Voicepeak<u32>;

fn request(text: &str) -> Vec<String> {
    vec!["voicepeak".into(), "-s".into(), text.into(), "-o".into(), "/tmp/out.wav".into()]
}

fn wav(pcm: &[u8]) -> Vec<u8> {
    let mut bytes = b"RIFF".to_vec();
    bytes.extend((36 + pcm.len() as u32).to_le_bytes());
    bytes.extend(b"WAVEfmt \x10\0\0\0\x01\0\x01\0\x80\xbb\0\0\0\x77\x01\0\x02\0\x10\0data");
    bytes.extend((pcm.len() as u32).to_le_bytes());
    bytes.extend(pcm);
    bytes
}

fn known_build() -> Vec<u8> {
    let mut header = vec![0; 0x320];
    header[..7].copy_from_slice(b"\x7fELF\x02\x01\x01");
    header[0x30c..0x320].copy_from_slice(&BUILD_ID);
    header
}

fn steps(engine: &mut Engine, session: Session<u32>, events: Vec<Event<u32>>) -> Session<u32> {
    let mut session = session;
    for event in events {
        session = session.step(engine, event);
    }
    session
}

fn probing() -> Vec<Event<u32>> {
    vec![Event::SettingRead(None), Event::HeaderRead(Some(known_build()))]
}

fn starting(process: u32) -> Vec<Event<u32>> {
    let library = Library { path: b"/tmp/lib.so".to_vec(), inherited: None };
    vec![
        Event::LibraryWritten(Ok(library)),
        Event::Spawned(Ok(process)),
        Event::Replied(Ok(b'R')),
    ]
}

fn answering(output: Vec<u8>) -> Vec<Event<u32>> {
    vec![Event::Sent(Ok(())), Event::Replied(Ok(b'D')), Event::OutputRead(Ok(output))]
}

/// An engine that uses resident processes and keeps `process`.
fn keeping(process: u32) -> Engine {
    let mut engine = Engine::default();
    let mut session = engine.synthesize("/opt/voicepeak".into(), request("warm"), OUTPUT.to_vec());
    session = steps(&mut engine, session, probing());
    session = steps(&mut engine, session, starting(process));
    session = steps(&mut engine, session, answering(wav(&[0, 0])));
    assert_eq!(session.into_result(), Some(Ok(vec![0, 0])));
    assert_eq!(engine.enabled(), Some(true));
    assert_eq!(engine.process(), Some(&process));
    engine
}

/// An engine that uses resident processes and keeps none.
fn resident() -> Engine {
    let mut engine = Engine::default();
    let session = engine.synthesize("/opt/voicepeak".into(), request("warm"), OUTPUT.to_vec());
    drop(steps(&mut engine, session, probing()));
    assert_eq!(engine.enabled(), Some(true));
    engine
}

fn failure(engine: &mut Engine, session: Session<u32>, event: Event<u32>) -> String {
    session.step(engine, event).into_result().unwrap().unwrap_err()
}

#[test]
fn retains_one_process_only_after_success_and_discards_failed_output() {
    let mut engine = keeping(41);
    for text in ["a", "b"] {
        let session = engine.synthesize("unused".into(), request(text), OUTPUT.to_vec());
        assert_eq!(engine.process(), None);
        let output = wav(&[text.as_bytes()[0]; 4]);
        let session = steps(&mut engine, session, answering(output));
        assert_eq!(session.into_result(), Some(Ok(vec![text.as_bytes()[0]; 4])));
        assert_eq!(engine.process(), Some(&41));
    }
    let session = engine.synthesize("unused".into(), request("bad"), OUTPUT.to_vec());
    let session = steps(&mut engine, session, answering(b"incomplete".to_vec()));
    assert!(session.into_result().unwrap().is_err());
    assert!(engine.process().is_none());
    assert_eq!(engine.enabled(), Some(true));
}

#[test]
fn cancellation_and_child_exit_release_the_owned_process() {
    for given_up in 0..3 {
        let mut engine = keeping(41);
        let session = engine.synthesize("unused".into(), request("stall"), OUTPUT.to_vec());
        let events = answering(wav(&[1, 2])).into_iter().take(given_up).collect();
        drop(steps(&mut engine, session, events));
        assert!(engine.process().is_none());
        assert_eq!(engine.enabled(), Some(true));
    }
    let mut engine = keeping(41);
    let session = engine.synthesize("unused".into(), request("crash"), OUTPUT.to_vec());
    let session = session.step(&mut engine, Event::Sent(Ok(())));
    let error = failure(&mut engine, session, Event::Replied(Err("unexpected end of file".into())));
    assert_eq!(error, "resident response: unexpected end of file");
    assert!(engine.process().is_none());
}

#[test]
fn failed_native_start_uses_cli_on_the_next_attempt() {
    let args: Vec<String> = vec!["cp".into(), "/tmp/from".into(), "/tmp/to".into()];
    let mut engine = resident();
    let session = engine.synthesize("/bin/cp".into(), args.clone(), OUTPUT.to_vec());
    let events = vec![
        Event::LibraryWritten(Ok(Library { path: b"/tmp/lib.so".to_vec(), inherited: None })),
        Event::Spawned(Ok(7)),
        Event::Replied(Err("early eof".into())),
    ];
    let session = steps(&mut engine, session, events);
    assert!(session.into_result().unwrap().is_err());
    let session = engine.synthesize("/bin/cp".into(), args, OUTPUT.to_vec());
    assert!(matches!(session.stage(), Stage::RunCli));
    assert_eq!(session.cli_args(), ["/tmp/from", "/tmp/to"]);
    let events = vec![
        Event::Exited(Ok(Exit { success: true, status: "exit status: 0".into() })),
        Event::OutputRead(Ok(wav(&[1, 2]))),
    ];
    let session = steps(&mut engine, session, events);
    assert_eq!(session.into_result(), Some(Ok(vec![1, 2])));
    assert_eq!(engine.enabled(), Some(false));
    assert!(engine.process().is_none());
}

#[test]
fn new_engine_asks_for_the_setting_first() {
    let mut engine = Engine::default();
    assert_eq!(engine.enabled(), None);
    assert_eq!(engine.process(), None);
    let session = engine.synthesize("/opt/voicepeak".into(), request("a"), OUTPUT.to_vec());
    assert!(matches!(session.stage(), Stage::ReadSetting));
    let session = session.step(&mut engine, Event::SettingRead(Some("0".into())));
    assert!(matches!(session.stage(), Stage::RunCli));
    assert_eq!(engine.enabled(), Some(false));
}

#[test]
fn name_without_slash_is_looked_up() {
    let mut engine = Engine::default();
    let session = engine.synthesize("voicepeak".into(), request("a"), OUTPUT.to_vec());
    let session = session.step(&mut engine, Event::SettingRead(Some("1".into())));
    assert!(matches!(session.stage(), Stage::SearchPath));
    let found = Some(FileInfo { is_file: true, mode: 0o755 });
    let session = session.step(&mut engine, Event::Searched(vec![None, found]));
    assert!(matches!(session.stage(), Stage::ReadHeader(Target::InDirectory(1))));
    let session = session.step(&mut engine, Event::HeaderRead(Some(known_build())));
    assert!(matches!(session.stage(), Stage::WriteLibrary));
    assert_eq!(engine.enabled(), Some(true));

    let mut engine = Engine::default();
    let session = engine.synthesize("voicepeak".into(), request("a"), OUTPUT.to_vec());
    let events = vec![Event::SettingRead(None), Event::Searched(vec![None])];
    let session = steps(&mut engine, session, events);
    assert!(matches!(session.stage(), Stage::RunCli));
}

#[test]
fn name_with_slash_is_a_path() {
    let mut engine = Engine::default();
    let session = engine.synthesize("./voicepeak".into(), request("a"), OUTPUT.to_vec());
    let session = session.step(&mut engine, Event::SettingRead(None));
    assert!(matches!(session.stage(), Stage::ReadHeader(Target::Named)));
    let session = session.step(&mut engine, Event::HeaderRead(None));
    assert!(matches!(session.stage(), Stage::RunCli));
    assert_eq!(engine.enabled(), Some(false));
}

#[test]
fn other_build_is_run_once_for_each_request() {
    let mut engine = Engine::default();
    let session = engine.synthesize("/bin/sh".into(), request("a"), OUTPUT.to_vec());
    let events =
        vec![Event::SettingRead(None), Event::HeaderRead(Some(b"#!/bin/sh".to_vec()))];
    drop(steps(&mut engine, session, events));
    for _ in 0..2 {
        let session = engine.synthesize("/bin/sh".into(), request("a"), OUTPUT.to_vec());
        assert!(matches!(session.stage(), Stage::RunCli));
    }
}

#[test]
fn choice_is_not_made_again() {
    let mut engine = resident();
    let session = engine.synthesize("/bin/sh".into(), request("a"), OUTPUT.to_vec());
    assert!(matches!(session.stage(), Stage::WriteLibrary));
}

#[test]
fn library_precedes_inherited_ones() {
    for (inherited, expected) in [
        (None, "/tmp/lib.so"),
        (Some(b"/a.so:/b.so".to_vec()), "/tmp/lib.so:/a.so:/b.so"),
        (Some(Vec::new()), "/tmp/lib.so:"),
    ] {
        let mut engine = resident();
        let session = engine.synthesize("x".into(), request("a"), OUTPUT.to_vec());
        let library = Library { path: b"/tmp/lib.so".to_vec(), inherited };
        let session = session.step(&mut engine, Event::LibraryWritten(Ok(library)));
        match session.stage() {
            Stage::Spawn { argument, preload } => {
                assert_eq!(argument, "--help");
                assert_eq!(preload, expected.as_bytes());
            }
            _ => panic!("no process is to be spawned"),
        }
    }
}

#[test]
fn request_is_sent_to_the_ready_process() {
    let mut engine = resident();
    let session = engine.synthesize("x".into(), vec!["v".into(), "雨".into()], OUTPUT.to_vec());
    let mut session = steps(&mut engine, session, starting(5));
    match session.stage() {
        Stage::Send(process, wire) => {
            assert_eq!(*process, 5);
            assert_eq!(wire, b"\x02\0\0\0\x01\0\0\0v\x03\0\0\0\xe9\x9b\xa8");
        }
        _ => panic!("nothing is to be sent"),
    }
    *session.process_mut().unwrap() = 6;
    let session = steps(&mut engine, session, answering(wav(&[3, 4])));
    assert_eq!(session.into_result(), Some(Ok(vec![3, 4])));
    assert_eq!(engine.process(), Some(&6));
}

#[test]
fn process_is_lent_only_while_it_is_owned() {
    let mut engine = resident();
    let mut session = engine.synthesize("x".into(), request("a"), OUTPUT.to_vec());
    assert_eq!(session.process_mut(), None);
    session = steps(&mut engine, session, starting(5));
    assert_eq!(session.process_mut(), Some(&mut 5));
    session = steps(&mut engine, session, answering(wav(&[3, 4])));
    assert_eq!(session.process_mut(), None);
}

#[test]
fn start_failures_are_told_and_end_residence() {
    let written = || Event::LibraryWritten(Ok(Library { path: vec![], inherited: None }));
    let cases: Vec<(Vec<Event<u32>>, &str)> = vec![
        (vec![Event::LibraryWritten(Err("disk full".into()))], "resident library: disk full"),
        (vec![written(), Event::Spawned(Err("no such file".into()))], "resident spawn: no such file"),
        (
            vec![written(), Event::Spawned(Ok(3)), Event::Replied(Ok(b'D'))],
            "invalid resident response",
        ),
        (
            vec![written(), Event::Spawned(Ok(3)), Event::Replied(Err("eof".into()))],
            "resident response: eof",
        ),
    ];
    for (events, expected) in cases {
        let mut engine = resident();
        let session = engine.synthesize("x".into(), request("a"), OUTPUT.to_vec());
        let session = steps(&mut engine, session, events);
        assert_eq!(session.into_result(), Some(Err(expected.to_string())));
        assert_eq!(engine.enabled(), Some(false));
        assert_eq!(engine.process(), None);
    }
}

#[test]
fn request_failures_are_told_and_keep_residence() {
    let cases: Vec<(Vec<Event<u32>>, &str)> = vec![
        (vec![Event::Sent(Err("broken pipe".into()))], "resident request: broken pipe"),
        (vec![Event::Sent(Ok(())), Event::Replied(Ok(b'R'))], "invalid resident response"),
        (
            vec![
                Event::Sent(Ok(())),
                Event::Replied(Ok(b'D')),
                Event::OutputRead(Err("denied".into())),
            ],
            "read output: denied",
        ),
        (answering(wav(&[])), "empty or incomplete resident PCM"),
    ];
    for (events, expected) in cases {
        let mut engine = keeping(9);
        let session = engine.synthesize("x".into(), request("a"), OUTPUT.to_vec());
        let session = steps(&mut engine, session, events);
        assert_eq!(session.into_result(), Some(Err(expected.to_string())));
        assert_eq!(engine.enabled(), Some(true));
        assert_eq!(engine.process(), None);
    }
}

#[test]
fn unsendable_arguments_cost_the_process() {
    let mut engine = keeping(9);
    let session = engine.synthesize("x".into(), vec![], OUTPUT.to_vec());
    assert_eq!(
        session.into_result(),
        Some(Err("invalid resident voicepeak arguments".to_string()))
    );
    assert_eq!(engine.process(), None);

    let mut engine = resident();
    let session = engine.synthesize("x".into(), vec!["a\0b".into()], OUTPUT.to_vec());
    let session = steps(&mut engine, session, starting(4));
    assert_eq!(
        session.into_result(),
        Some(Err("invalid resident voicepeak arguments".to_string()))
    );
    assert_eq!(engine.enabled(), Some(true));
    assert_eq!(engine.process(), None);
}

#[test]
fn single_run_failures_are_told() {
    let cases: Vec<(Vec<Event<u32>>, &str)> = vec![
        (vec![Event::Exited(Err("no such file".into()))], "spawn: no such file"),
        (
            vec![Event::Exited(Ok(Exit { success: false, status: "exit status: 3".into() }))],
            "exited with exit status: 3",
        ),
        (
            vec![
                Event::Exited(Ok(Exit { success: true, status: "exit status: 0".into() })),
                Event::OutputRead(Err("denied".into())),
            ],
            "read output: denied",
        ),
        (
            vec![
                Event::Exited(Ok(Exit { success: true, status: "exit status: 0".into() })),
                Event::OutputRead(Ok(b"junk".to_vec())),
            ],
            "not a RIFF/WAVE file",
        ),
    ];
    for (events, expected) in cases {
        let mut engine = Engine::default();
        let session = engine.synthesize("x".into(), request("a"), OUTPUT.to_vec());
        let session = session.step(&mut engine, Event::SettingRead(Some("0".into())));
        let session = steps(&mut engine, session, events);
        assert_eq!(session.into_result(), Some(Err(expected.to_string())));
        assert_eq!(engine.enabled(), Some(false));
    }
}

#[test]
fn event_that_is_not_awaited_changes_nothing() {
    let mut engine = keeping(9);
    let session = engine.synthesize("x".into(), request("a"), OUTPUT.to_vec());
    let mut session = session.step(&mut engine, Event::OutputRead(Ok(wav(&[1, 2]))));
    assert!(matches!(session.stage(), Stage::Send(9, _)));
    assert_eq!(session.process_mut(), Some(&mut 9));
    assert_eq!(engine.process(), None);
    let session = steps(&mut engine, session, answering(wav(&[1, 2])));
    let session = session.step(&mut engine, Event::Replied(Err("late".into())));
    assert_eq!(session.into_result(), Some(Ok(vec![1, 2])));
}

#[test]
fn unfinished_session_has_no_result() {
    let mut engine = keeping(9);
    assert_eq!(engine.synthesize("x".into(), request("a"), OUTPUT.to_vec()).into_result(), None);
}

#[test]
fn longest_way_takes_nine_steps() {
    let mut engine = Engine::default();
    let session = engine.synthesize("voicepeak".into(), request("a"), OUTPUT.to_vec());
    let found = Some(FileInfo { is_file: true, mode: 0o755 });
    let mut events = vec![
        Event::SettingRead(None),
        Event::Searched(vec![found]),
        Event::HeaderRead(Some(known_build())),
    ];
    events.extend(starting(1));
    events.extend(answering(wav(&[1, 2])));
    assert_eq!(events.len(), 9);
    let session = steps(&mut engine, session, events);
    assert_eq!(session.into_result(), Some(Ok(vec![1, 2])));
}

#[test]
fn replies_are_held_against_what_is_expected() {
    assert_eq!((READY, DONE), (b'R', b'D'));
    assert_eq!(expect(Ok(b'R'), READY), Ok(()));
    assert_eq!(expect(Ok(b'D'), READY), Err("invalid resident response".to_string()));
    assert_eq!(expect(Err("eof".into()), DONE), Err("resident response: eof".to_string()));
}

#[test]
fn deadline_gives_an_error_of_its_own() {
    assert_eq!(TIMEOUT_SECS, 60);
    assert_eq!(within_deadline(Some(Ok(vec![1]))), Ok(vec![1]));
    assert_eq!(within_deadline(Some(Err("e".into()))), Err("e".to_string()));
    assert_eq!(within_deadline(None), Err("voicepeak timed out after 60 seconds".to_string()));
}

#[test]
fn process_is_kept_as_it_was_last_talked_to() {
    let mut engine = resident();
    let mut session = engine.synthesize("x".into(), request("a"), OUTPUT.to_vec());
    let mut process = 100;
    let mut events = starting(process);
    events.extend(answering(wav(&[8, 9])));
    for event in events {
        if let Some(owned) = session.process_mut() {
            process += 1;
            *owned = process;
        }
        session = session.step(&mut engine, event);
    }
    assert_eq!(process, 104);
    assert_eq!(session.process_mut(), None);
    assert_eq!(session.into_result(), Some(Ok(vec![8, 9])));
    assert_eq!(engine.process(), Some(&104));
}

#[test]
fn executable_stays_the_one_that_was_named() {
    let mut engine = Engine::default();
    let session = engine.synthesize("./voice peak".into(), request("a"), OUTPUT.to_vec());
    assert_eq!(session.executable(), "./voice peak");
    let session = steps(&mut engine, session, probing());
    let session = steps(&mut engine, session, starting(2));
    assert_eq!(session.executable(), "./voice peak");
}

#[test]
fn residence_is_ruled_out_without_arguments_too() {
    let mut engine = Engine::default();
    let session = engine.synthesize("/bin/sh".into(), vec![], OUTPUT.to_vec());
    let events = vec![Event::SettingRead(None), Event::HeaderRead(None)];
    let session = steps(&mut engine, session, events);
    assert!(matches!(session.stage(), Stage::RunCli));
    assert_eq!(engine.enabled(), Some(false));
}

#[test]
fn environment_variables_have_their_names() {
    assert_eq!(SETTING_VARIABLE, "MOCA_VOICEPEAK_RESIDENT");
    assert_eq!(PRELOAD_VARIABLE, "LD_PRELOAD");
}

#[test]
fn output_stays_the_one_that_was_named() {
    let mut engine = keeping(9);
    let path = b"/tmp/\xff out.wav".to_vec();
    let session = engine.synthesize("x".into(), request("a"), path.clone());
    assert_eq!(session.output(), path);
    let events = vec![Event::Sent(Ok(())), Event::Replied(Ok(b'D'))];
    let session = steps(&mut engine, session, events);
    assert!(matches!(session.stage(), Stage::ReadOutput(9)));
    assert_eq!(session.output(), path);
}
