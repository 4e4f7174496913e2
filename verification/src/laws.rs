//! What holds of every synthesis, whatever comes of its stages.
use crate::probe::first_runnable_from;
use crate::probe::is_runnable;
use crate::probe::is_supported;
use crate::probe::is_switched_off;
use crate::probe::law_first_runnable_is_first;
use crate::probe::law_what_switches_off;
use crate::probe::FileInfo;
use crate::session::begin;
use crate::session::held;
use crate::session::holding;
use crate::session::next;
use crate::session::preload_list;
use crate::session::reply_fault;
use crate::session::stage_view;
use crate::session::Engine;
use crate::session::Event;
use crate::session::Exit;
use crate::session::Library;
use crate::session::Stage;
use crate::session::StageView;
use crate::session::State;
use crate::session::Target;
use crate::session::Task;
use crate::session::DONE;
use crate::session::READY;
use crate::wav::complete_samples;
use crate::wav::law_written_wav_is_read;
use crate::wav::law_written_wav_reads_back;
use crate::wav::riff_size;
use crate::wav::samples;
use crate::wav::wav_file;
use crate::wire::request;
use crate::wire::sendable;
use vstd::prelude::*;

verus! {

/// Something that happens to a session.
pub enum Turn<P> {
    /// Its process is talked to, which may change the process.
    Talk(P),
    /// An event takes it on.
    Step(Event<P>),
}

/// Where a turn takes a session.
pub open spec fn turned<P>(task: Task, state: State<P>, turn: Turn<P>) -> State<P> {
    match turn {
        Turn::Talk(process) => (holding(state.0, process), state.1),
        Turn::Step(event) => next(task, state, event),
    }
}

/// Where turns take a session, one after the other.
pub open spec fn run<P>(task: Task, state: State<P>, turns: Seq<Turn<P>>) -> State<P>
    decreases turns.len(),
{
    if turns.len() == 0 {
        state
    } else {
        turned(task, run(task, state, turns.drop_last()), turns.last())
    }
}

/// Where a whole session of `task` stands after `turns`, which may be given up at that point.
pub open spec fn session<P>(task: Task, engine: Engine<P>, turns: Seq<Turn<P>>) -> State<P> {
    run(task, begin(task.args, engine), turns)
}

/// An engine keeps a process only while it uses such processes.
pub open spec fn sound<P>(engine: Engine<P>) -> bool {
    engine.process is Some ==> engine.enabled == Some(true)
}

/// The engine fits the stage that a session is at.
pub open spec fn fits<P>(task: Task, state: State<P>) -> bool {
    let engine = state.1;
    match state.0 {
        Stage::ReadSetting | Stage::SearchPath | Stage::ReadHeader(_) => {
            &&& engine.enabled is None
            &&& engine.process is None
        },
        Stage::Send(_, wire) => {
            &&& engine.enabled == Some(true)
            &&& engine.process is None
            &&& sendable(task.args)
            &&& wire == request(task.args)
        },
        Stage::WriteLibrary
        | Stage::Spawn { .. }
        | Stage::AwaitReady(_)
        | Stage::AwaitDone(_)
        | Stage::ReadOutput(_) => {
            &&& engine.enabled == Some(true)
            &&& engine.process is None
        },
        Stage::RunCli | Stage::ReadCliOutput => {
            &&& engine.enabled == Some(false)
            &&& engine.process is None
        },
        Stage::Finished(Ok(_)) => {
            &&& engine.enabled is Some
            &&& engine.enabled == Some(true) <==> engine.process is Some
        },
        Stage::Finished(Err(_)) => {
            &&& engine.enabled is Some
            &&& engine.process is None
        },
    }
}

/// Whenever a session stops, the engine fits the stage that the session is at.
pub proof fn law_engine_fits_the_stage<P>(task: Task, engine: Engine<P>, turns: Seq<Turn<P>>)
    requires
        sound(engine),
    ensures
        fits(task, session(task, engine, turns)),
    decreases turns.len(),
{
    if turns.len() > 0 {
        law_engine_fits_the_stage(task, engine, turns.drop_last());
    }
}

/// Whenever a session stops, the engine keeps a process only while it uses such processes.
pub proof fn law_engine_stays_sound<P>(task: Task, engine: Engine<P>, turns: Seq<Turn<P>>)
    requires
        sound(engine),
    ensures
        sound(session(task, engine, turns).1),
{
    law_engine_fits_the_stage(task, engine, turns);
}

/// As long as a session has not ended, the engine has no process: to give the session up is to give
/// up the process that it owns.
pub proof fn law_owned_process_is_not_kept<P>(task: Task, engine: Engine<P>, turns: Seq<Turn<P>>)
    requires
        sound(engine),
        !(session(task, engine, turns).0 is Finished),
    ensures
        session(task, engine, turns).1.process is None,
{
    law_engine_fits_the_stage(task, engine, turns);
}

/// A session that fails leaves no process behind.
pub proof fn law_failure_keeps_no_process<P>(task: Task, engine: Engine<P>, turns: Seq<Turn<P>>)
    requires
        sound(engine),
        session(task, engine, turns).0 matches Stage::Finished(Err(_)),
    ensures
        session(task, engine, turns).1.process is None,
{
    law_engine_fits_the_stage(task, engine, turns);
}

/// What is sent to a process is a request for the arguments of the session.
pub proof fn law_only_requests_are_sent<P>(task: Task, engine: Engine<P>, turns: Seq<Turn<P>>)
    requires
        sound(engine),
        session(task, engine, turns).0 is Send,
    ensures
        sendable(task.args),
        session(task, engine, turns).0->Send_1 == request(task.args),
{
    law_engine_fits_the_stage(task, engine, turns);
}

/// Whether `turn` brings a file from which `pcm` is taken, and which is whole where it has to be.
pub open spec fn brings<P>(turn: Turn<P>, pcm: Seq<u8>, whole: bool) -> bool {
    turn matches Turn::Step(Event::OutputRead(Ok(bytes))) && {
        &&& samples(bytes@) == Ok::<Seq<u8>, Seq<char>>(pcm)
        &&& whole ==> complete_samples(bytes@) == Ok::<Seq<u8>, Seq<char>>(pcm)
    }
}

proof fn lemma_samples_were_brought<P>(task: Task, engine: Engine<P>, turns: Seq<Turn<P>>)
    requires
        sound(engine),
    ensures
        session(task, engine, turns).0 matches Stage::Finished(Ok(pcm)) ==> exists|i: int|
            0 <= i < turns.len() && brings(
                #[trigger] turns[i],
                pcm,
                session(task, engine, turns).1.process is Some,
            ),
    decreases turns.len(),
{
    let state = session(task, engine, turns);
    if turns.len() > 0 {
        let before = session(task, engine, turns.drop_last());
        lemma_samples_were_brought(task, engine, turns.drop_last());
        law_engine_fits_the_stage(task, engine, turns.drop_last());
        if let Stage::Finished(Ok(pcm)) = state.0 {
            let whole = state.1.process is Some;
            if before.0 is Finished {
                assert(before == state);
                let i = choose|i: int|
                    0 <= i < turns.drop_last().len() && brings(
                        #[trigger] turns.drop_last()[i],
                        pcm,
                        whole,
                    );
                assert(turns[i] == turns.drop_last()[i]);
            } else {
                assert(brings(turns[turns.len() - 1], pcm, whole));
            }
        }
    }
}

/// The samples that a session ends with come from a file that was read for it.
pub proof fn law_result_is_the_output<P>(
    task: Task,
    engine: Engine<P>,
    turns: Seq<Turn<P>>,
    pcm: Seq<u8>,
)
    requires
        sound(engine),
        session(task, engine, turns).0 == Stage::<P, Seq<u8>, Seq<char>>::Finished(Ok(pcm)),
    ensures
        exists|i: int| 0 <= i < turns.len() && brings(#[trigger] turns[i], pcm, false),
{
    lemma_samples_were_brought(task, engine, turns);
    let i = choose|i: int|
        0 <= i < turns.len() && brings(
            #[trigger] turns[i],
            pcm,
            session(task, engine, turns).1.process is Some,
        );
    assert(brings(turns[i], pcm, false));
}

/// Where a session leaves a process behind, it has ended with the samples of a whole file.
pub proof fn law_process_is_kept_only_after_success<P>(
    task: Task,
    engine: Engine<P>,
    turns: Seq<Turn<P>>,
)
    requires
        sound(engine),
        session(task, engine, turns).1.process is Some,
    ensures
        session(task, engine, turns).0 matches Stage::Finished(Ok(pcm)) && exists|i: int|
            0 <= i < turns.len() && brings(#[trigger] turns[i], pcm, true),
{
    law_engine_fits_the_stage(task, engine, turns);
    lemma_samples_were_brought(task, engine, turns);
}

/// A process is never swapped for another: the one that a session owns after a step it owned
/// before, took from the engine or just started, and the one that it leaves behind it owned.
pub proof fn law_process_stays_the_same<P>(task: Task, state: State<P>, event: Event<P>)
    ensures
        held(next(task, state, event).0) matches Some(process) ==> {
            ||| held(state.0) == Some(process)
            ||| state.1.process == Some(process)
            ||| event == Event::Spawned(Ok::<P, String>(process))
        },
        next(task, state, event).1.process matches Some(process) ==> {
            ||| held(state.0) == Some(process)
            ||| state.1.process == Some(process)
        },
{
}

/// A session that ends with samples leaves a process behind exactly when such processes are used.
pub proof fn law_success_keeps_the_process<P>(task: Task, engine: Engine<P>, turns: Seq<Turn<P>>)
    requires
        sound(engine),
        session(task, engine, turns).0 matches Stage::Finished(Ok(_)),
    ensures
        session(task, engine, turns).1.enabled is Some,
        session(task, engine, turns).1.process is Some <==> session(task, engine, turns).1.enabled
            == Some(true),
{
    law_engine_fits_the_stage(task, engine, turns);
}

/// The events among the turns.
pub open spec fn events<P>(turns: Seq<Turn<P>>) -> Seq<Event<P>>
    decreases turns.len(),
{
    if turns.len() == 0 {
        seq![]
    } else {
        match turns.last() {
            Turn::Talk(_) => events(turns.drop_last()),
            Turn::Step(event) => events(turns.drop_last()).push(event),
        }
    }
}

/// What has become of `process`, of which talk is heard once `from` events have come and until
/// `to` have.
pub open spec fn last_talked_to<P>(turns: Seq<Turn<P>>, process: P, from: nat, to: nat) -> P
    decreases turns.len(),
{
    if turns.len() == 0 {
        process
    } else {
        match turns.last() {
            Turn::Talk(changed) if from <= events(turns.drop_last()).len() < to => changed,
            _ => last_talked_to(turns.drop_last(), process, from, to),
        }
    }
}

/// What is heard from a kept process that answers.
pub open spec fn answer<P>(output: Vec<u8>) -> Seq<Event<P>> {
    seq![Event::Sent(Ok(())), Event::Replied(Ok(DONE)), Event::OutputRead(Ok(output))]
}

/// What is heard from a process that starts and answers.
pub open spec fn start_and_answer<P>(
    library: Library,
    process: P,
    output: Vec<u8>,
) -> Seq<Event<P>> {
    seq![
        Event::LibraryWritten(Ok(library)),
        Event::Spawned(Ok(process)),
        Event::Replied(Ok(READY)),
        Event::Sent(Ok(())),
        Event::Replied(Ok(DONE)),
        Event::OutputRead(Ok(output)),
    ]
}

/// Where a session stands that still has to hear `left` of the three events of [`answer`].
spec fn answering<P>(task: Task, process: P, left: int, pcm: Seq<u8>) -> State<P> {
    let busy = Engine { enabled: Some(true), process: None };
    if left == 3 {
        (Stage::Send(process, request(task.args)), busy)
    } else if left == 2 {
        (Stage::AwaitDone(process), busy)
    } else if left == 1 {
        (Stage::ReadOutput(process), busy)
    } else {
        (Stage::Finished(Ok(pcm)), Engine { enabled: Some(true), process: Some(process) })
    }
}

proof fn lemma_answering<P>(
    task: Task,
    process: P,
    turns: Seq<Turn<P>>,
    output: Vec<u8>,
    pcm: Seq<u8>,
)
    requires
        sendable(task.args),
        complete_samples(output@) == Ok::<Seq<u8>, Seq<char>>(pcm),
        events(turns).len() <= 3,
        events(turns) == answer::<P>(output).take(events(turns).len() as int),
    ensures
        session(task, Engine { enabled: Some(true), process: Some(process) }, turns) == answering(
            task,
            last_talked_to(turns, process, 0, 3),
            3 - events(turns).len(),
            pcm,
        ),
    decreases turns.len(),
{
    if turns.len() > 0 {
        let earlier = turns.drop_last();
        let n = events(turns).len() as int;
        match turns.last() {
            Turn::Talk(_) => {
                lemma_answering(task, process, earlier, output, pcm);
            },
            Turn::Step(event) => {
                assert(events(turns).drop_last() =~= events(earlier));
                assert(events(earlier) =~= answer::<P>(output).take(n - 1));
                assert(events(turns)[n - 1] == answer::<P>(output)[n - 1]);
                lemma_answering(task, process, earlier, output, pcm);
            },
        }
    }
}

/// A kept process that answers with a whole file is kept again, as it was last talked to, and its
/// samples are the result.
pub proof fn law_answering_process_is_kept<P>(
    task: Task,
    process: P,
    turns: Seq<Turn<P>>,
    output: Vec<u8>,
    pcm: Seq<u8>,
)
    requires
        sendable(task.args),
        complete_samples(output@) == Ok::<Seq<u8>, Seq<char>>(pcm),
        events(turns) == answer::<P>(output),
    ensures
        session(task, Engine { enabled: Some(true), process: Some(process) }, turns) == (
            Stage::<P, Seq<u8>, Seq<char>>::Finished(Ok(pcm)),
            Engine {
                enabled: Some(true),
                process: Some(last_talked_to(turns, process, 0, 3)),
            },
        ),
{
    assert(answer::<P>(output).take(3) =~= answer::<P>(output));
    lemma_answering(task, process, turns, output, pcm);
}

/// Where a session stands that has heard `heard` of the six events of [`start_and_answer`].
spec fn starting<P>(task: Task, library: Library, process: P, heard: int, pcm: Seq<u8>) -> State<P> {
    let busy = Engine { enabled: Some(true), process: None };
    if heard == 0 {
        (Stage::WriteLibrary, busy)
    } else if heard == 1 {
        next(
            task,
            (Stage::WriteLibrary, busy),
            Event::LibraryWritten(Ok(library)),
        )
    } else if heard == 2 {
        (Stage::AwaitReady(process), busy)
    } else {
        answering(task, process, 6 - heard, pcm)
    }
}

proof fn lemma_starting<P>(
    task: Task,
    library: Library,
    process: P,
    turns: Seq<Turn<P>>,
    output: Vec<u8>,
    pcm: Seq<u8>,
)
    requires
        sendable(task.args),
        complete_samples(output@) == Ok::<Seq<u8>, Seq<char>>(pcm),
        events(turns).len() <= 6,
        events(turns) == start_and_answer(library, process, output).take(
            events(turns).len() as int,
        ),
    ensures
        session(task, Engine { enabled: Some(true), process: None }, turns) == starting(
            task,
            library,
            last_talked_to(turns, process, 2, 6),
            events(turns).len() as int,
            pcm,
        ),
        events(turns).len() < 2 ==> last_talked_to(turns, process, 2, 6) == process,
    decreases turns.len(),
{
    if turns.len() > 0 {
        let earlier = turns.drop_last();
        let n = events(turns).len() as int;
        let all = start_and_answer(library, process, output);
        match turns.last() {
            Turn::Talk(_) => {
                lemma_starting(task, library, process, earlier, output, pcm);
            },
            Turn::Step(event) => {
                assert(events(turns).drop_last() =~= events(earlier));
                assert(events(earlier) =~= all.take(n - 1));
                assert(events(turns)[n - 1] == all[n - 1]);
                lemma_starting(task, library, process, earlier, output, pcm);
            },
        }
    }
}

/// A process that starts, gets ready and answers with a whole file is kept, as it was last talked
/// to, and its samples are the result.
pub proof fn law_started_process_is_kept<P>(
    task: Task,
    library: Library,
    process: P,
    turns: Seq<Turn<P>>,
    output: Vec<u8>,
    pcm: Seq<u8>,
)
    requires
        sendable(task.args),
        complete_samples(output@) == Ok::<Seq<u8>, Seq<char>>(pcm),
        events(turns) == start_and_answer(library, process, output),
    ensures
        session(task, Engine { enabled: Some(true), process: None }, turns) == (
            Stage::<P, Seq<u8>, Seq<char>>::Finished(Ok(pcm)),
            Engine {
                enabled: Some(true),
                process: Some(last_talked_to(turns, process, 2, 6)),
            },
        ),
{
    let all = start_and_answer(library, process, output);
    assert(all.take(6) =~= all);
    lemma_starting(task, library, process, turns, output, pcm);
}

/// Whether `turn` says that a library was written with which `preload` is to be preloaded.
pub open spec fn writes<P>(turn: Turn<P>, preload: Seq<u8>) -> bool {
    turn matches Turn::Step(Event::LibraryWritten(Ok(library))) && preload == preload_list(
        library.path@,
        match library.inherited {
            Some(others) => Some(others@),
            None => None,
        },
    )
}

/// A process is started with one argument, and with the written library before those that were to
/// be preloaded anyway.
pub proof fn law_start_is_the_same_for_all<P>(task: Task, engine: Engine<P>, turns: Seq<Turn<P>>)
    requires
        session(task, engine, turns).0 is Spawn,
    ensures
        session(task, engine, turns).0->Spawn_argument == "--help"@,
        exists|i: int|
            0 <= i < turns.len() && writes(
                #[trigger] turns[i],
                session(task, engine, turns).0->Spawn_preload,
            ),
    decreases turns.len(),
{
    let preload = session(task, engine, turns).0->Spawn_preload;
    if turns.len() > 0 {
        let earlier = turns.drop_last();
        if session(task, engine, earlier).0 is Spawn {
            law_start_is_the_same_for_all(task, engine, earlier);
            let i = choose|i: int|
                0 <= i < earlier.len() && writes(#[trigger] earlier[i], preload);
            assert(turns[i] == earlier[i]);
        } else {
            assert(writes(turns[turns.len() - 1], preload));
        }
    }
}

/// After a session has begun, no step leads to sending but the one on which its process says that
/// it is ready.
pub proof fn law_nothing_is_sent_before_ready<P>(task: Task, state: State<P>, event: Event<P>)
    requires
        fits(task, state),
        next(task, state, event).0 is Send,
        !(state.0 is Send),
    ensures
        state.0 is AwaitReady,
        event == Event::<P>::Replied(Ok(READY)),
{
}

/// Whether an event says that a process could not be started.
pub open spec fn is_failed_start<P>(state: State<P>, event: Event<P>) -> bool {
    match (state.0, event) {
        (Stage::WriteLibrary, Event::LibraryWritten(Err(_))) => true,
        (Stage::Spawn { .. }, Event::Spawned(Err(_))) => true,
        (Stage::AwaitReady(_), Event::Replied(reply)) => reply != Ok::<u8, String>(READY),
        _ => false,
    }
}

/// An engine after sessions, each of which ended or was given up after its turns.
pub open spec fn life<P>(engine: Engine<P>, sessions: Seq<(Task, Seq<Turn<P>>)>) -> Engine<P>
    decreases sessions.len(),
{
    if sessions.len() == 0 {
        engine
    } else {
        session(sessions.last().0, life(engine, sessions.drop_last()), sessions.last().1).1
    }
}

/// All its life an engine keeps a process only while it uses such processes.
pub proof fn law_engine_is_sound_for_life<P>(sessions: Seq<(Task, Seq<Turn<P>>)>)
    ensures
        sound(life(Engine { enabled: None, process: None }, sessions)),
    decreases sessions.len(),
{
    if sessions.len() > 0 {
        law_engine_is_sound_for_life(sessions.drop_last());
        law_engine_stays_sound(
            sessions.last().0,
            life(Engine { enabled: None, process: None }, sessions.drop_last()),
            sessions.last().1,
        );
    }
}

proof fn lemma_ruled_out_for_life<P>(engine: Engine<P>, sessions: Seq<(Task, Seq<Turn<P>>)>)
    requires
        sound(engine),
        engine.enabled == Some(false),
    ensures
        life(engine, sessions).enabled == Some(false),
        sound(life(engine, sessions)),
    decreases sessions.len(),
{
    if sessions.len() > 0 {
        let before = life(engine, sessions.drop_last());
        lemma_ruled_out_for_life(engine, sessions.drop_last());
        law_choice_is_made_once(sessions.last().0, before, sessions.last().1);
        law_engine_stays_sound(sessions.last().0, before, sessions.last().1);
    }
}

/// Where a process cannot be started the session fails, and every later one runs the executable
/// once, however many come between.
pub proof fn law_failed_start_turns_to_single_runs<P>(
    task: Task,
    state: State<P>,
    event: Event<P>,
    sessions: Seq<(Task, Seq<Turn<P>>)>,
    later: Task,
)
    requires
        fits(task, state),
        is_failed_start(state, event),
    ensures
        next(task, state, event).0 matches Stage::Finished(Err(_)),
        next(task, state, event).1.enabled == Some(false),
        begin(later.args, life(next(task, state, event).1, sessions)).0 is RunCli,
{
    lemma_ruled_out_for_life(next(task, state, event).1, sessions);
}

/// A failure other than that of a start does not end the use of resident processes.
pub proof fn law_only_a_failed_start_ends_residence<P>(task: Task, state: State<P>, event: Event<P>)
    requires
        fits(task, state),
        state.1.enabled == Some(true),
        !is_failed_start(state, event),
    ensures
        next(task, state, event).1.enabled == Some(true),
{
}

/// Once it is known whether resident processes are used, it is not asked again, and what was ruled
/// out stays ruled out.
pub proof fn law_choice_is_made_once<P>(task: Task, engine: Engine<P>, turns: Seq<Turn<P>>)
    requires
        sound(engine),
        engine.enabled is Some,
    ensures
        !(session(task, engine, turns).0 is ReadSetting),
        !(session(task, engine, turns).0 is SearchPath),
        !(session(task, engine, turns).0 is ReadHeader),
        session(task, engine, turns).1.enabled is Some,
        engine.enabled == Some(false) ==> session(task, engine, turns).1.enabled == Some(false),
    decreases turns.len(),
{
    if turns.len() > 0 {
        law_choice_is_made_once(task, engine, turns.drop_last());
        law_engine_fits_the_stage(task, engine, turns.drop_last());
    }
}

/// Whether `turn` says that resident processes are not switched off.
pub open spec fn permits<P>(turn: Turn<P>) -> bool {
    turn matches Turn::Step(Event::SettingRead(setting)) && !is_switched_off(
        match setting {
            Some(value) => Some(value@),
            None => None,
        },
    )
}

/// Whether `turn` shows the known build.
pub open spec fn shows_known_build<P>(turn: Turn<P>) -> bool {
    turn matches Turn::Step(Event::HeaderRead(Some(header))) && is_supported(header@)
}

proof fn lemma_first_use<P>(task: Task, engine: Engine<P>, turns: Seq<Turn<P>>)
    requires
        sound(engine),
        engine.enabled is None,
    ensures
        ({
            let state = session(task, engine, turns);
            &&& state.0 is SearchPath || state.0 is ReadHeader || state.1.enabled == Some(true)
                ==> exists|i: int| 0 <= i < turns.len() && permits(#[trigger] turns[i])
            &&& state.1.enabled == Some(true) ==> exists|i: int|
                0 <= i < turns.len() && shows_known_build(#[trigger] turns[i])
        }),
    decreases turns.len(),
{
    if turns.len() > 0 {
        let state = session(task, engine, turns);
        let before = session(task, engine, turns.drop_last());
        let last = turns[turns.len() - 1];
        lemma_first_use(task, engine, turns.drop_last());
        law_engine_fits_the_stage(task, engine, turns.drop_last());
        law_engine_fits_the_stage(task, engine, turns);
        if state.0 is SearchPath || state.0 is ReadHeader || state.1.enabled == Some(true) {
            if before.0 is ReadSetting {
                assert(permits(last));
            } else {
                let i = choose|i: int|
                    0 <= i < turns.drop_last().len() && permits(#[trigger] turns.drop_last()[i]);
                assert(turns[i] == turns.drop_last()[i]);
            }
        }
        if state.1.enabled == Some(true) {
            if before.1.enabled == Some(true) {
                let i = choose|i: int|
                    0 <= i < turns.drop_last().len() && shows_known_build(
                        #[trigger] turns.drop_last()[i],
                    );
                assert(turns[i] == turns.drop_last()[i]);
            } else {
                assert(shows_known_build(last));
            }
        }
    }
}

/// An engine that knew nothing uses resident processes only after it was told that they are not
/// switched off, and was shown the known build.
pub proof fn law_residence_needs_the_known_build<P>(
    task: Task,
    engine: Engine<P>,
    turns: Seq<Turn<P>>,
)
    requires
        sound(engine),
        engine.enabled is None,
        session(task, engine, turns).1.enabled == Some(true),
    ensures
        exists|i: int| 0 <= i < turns.len() && permits(#[trigger] turns[i]),
        exists|i: int| 0 <= i < turns.len() && shows_known_build(#[trigger] turns[i]),
{
    lemma_first_use(task, engine, turns);
}

/// Whether a stage waits for an event.
pub open spec fn awaits<P>(state: State<P>, event: Event<P>) -> bool {
    match (state.0, event) {
        (Stage::ReadSetting, Event::SettingRead(_)) => true,
        (Stage::SearchPath, Event::Searched(_)) => true,
        (Stage::ReadHeader(_), Event::HeaderRead(_)) => true,
        (Stage::WriteLibrary, Event::LibraryWritten(_)) => true,
        (Stage::Spawn { .. }, Event::Spawned(_)) => true,
        (Stage::AwaitReady(_), Event::Replied(_)) => true,
        (Stage::Send(_, _), Event::Sent(_)) => true,
        (Stage::AwaitDone(_), Event::Replied(_)) => true,
        (Stage::ReadOutput(_), Event::OutputRead(_)) => true,
        (Stage::RunCli, Event::Exited(_)) => true,
        (Stage::ReadCliOutput, Event::OutputRead(_)) => true,
        _ => false,
    }
}

/// The most steps that can still be taken from a stage.
pub open spec fn steps_left<P>(state: State<P>) -> nat {
    match state.0 {
        Stage::ReadSetting => 9,
        Stage::SearchPath => 8,
        Stage::ReadHeader(_) => 7,
        Stage::WriteLibrary => 6,
        Stage::Spawn { .. } => 5,
        Stage::AwaitReady(_) => 4,
        Stage::Send(_, _) => 3,
        Stage::AwaitDone(_) => 2,
        Stage::ReadOutput(_) => 1,
        Stage::RunCli => 2,
        Stage::ReadCliOutput => 1,
        Stage::Finished(_) => 0,
    }
}

/// Every event that a stage waits for brings the session nearer to its end, and no other event
/// changes anything.
pub proof fn law_steps_lead_to_the_end<P>(task: Task, state: State<P>, event: Event<P>)
    ensures
        awaits(state, event) ==> steps_left(next(task, state, event)) < steps_left(state),
        !awaits(state, event) ==> next(task, state, event) == state,
{
}

/// Where events take a session whose process is not talked to.
pub open spec fn heard<P>(task: Task, state: State<P>, events: Seq<Event<P>>) -> State<P>
    decreases events.len(),
{
    if events.len() == 0 {
        state
    } else {
        next(task, heard(task, state, events.drop_last()), events.last())
    }
}

proof fn lemma_talk_without_process<P>(task: Task, state: State<P>, turns: Seq<Turn<P>>)
    requires
        forall|k: int|
            0 <= k <= events(turns).len() ==> held(
                (#[trigger] heard(task, state, events(turns).take(k))).0,
            ) is None,
    ensures
        run(task, state, turns) == heard(task, state, events(turns)),
    decreases turns.len(),
{
    if turns.len() > 0 {
        let earlier = turns.drop_last();
        let n = events(earlier).len() as int;
        assert forall|k: int| 0 <= k <= n implies held(
            (#[trigger] heard(task, state, events(earlier).take(k))).0,
        ) is None by {
            assert(events(earlier).take(k) =~= events(turns).take(k));
        }
        lemma_talk_without_process(task, state, earlier);
        assert(events(earlier).take(n) =~= events(earlier));
        assert(held(heard(task, state, events(earlier).take(n)).0) is None);
        if let Turn::Step(event) = turns.last() {
            assert(events(turns).drop_last() =~= events(earlier));
        }
    }
}

proof fn lemma_one_event<P>(task: Task, state: State<P>, turns: Seq<Turn<P>>, event: Event<P>)
    requires
        events(turns) == seq![event],
        held(state.0) is None,
        held(next(task, state, event).0) is None,
    ensures
        run(task, state, turns) == next(task, state, event),
{
    let all = seq![event];
    assert(all.drop_last() =~= seq![]);
    assert(heard(task, state, all.drop_last()) == state);
    assert forall|k: int| 0 <= k <= all.len() implies held(
        (#[trigger] heard(task, state, all.take(k))).0,
    ) is None by {
        assert(k == 0 || k == 1);
        assert(all.take(1) =~= all);
        assert(all.take(0) =~= seq![]);
    }
    lemma_talk_without_process(task, state, turns);
}

proof fn lemma_two_events<P>(
    task: Task,
    state: State<P>,
    turns: Seq<Turn<P>>,
    first: Event<P>,
    second: Event<P>,
)
    requires
        events(turns) == seq![first, second],
        held(state.0) is None,
        held(next(task, state, first).0) is None,
        held(next(task, next(task, state, first), second).0) is None,
    ensures
        run(task, state, turns) == next(task, next(task, state, first), second),
{
    let all = seq![first, second];
    assert(all.drop_last() =~= seq![first]);
    assert(seq![first].drop_last() =~= seq![]);
    assert(heard(task, state, seq![first].drop_last()) == state);
    assert(heard(task, state, seq![first]) == next(task, state, first));
    assert forall|k: int| 0 <= k <= all.len() implies held(
        (#[trigger] heard(task, state, all.take(k))).0,
    ) is None by {
        assert(k == 0 || k == 1 || k == 2);
        assert(all.take(2) =~= all);
        assert(all.take(1) =~= seq![first]);
        assert(all.take(0) =~= seq![]);
    }
    lemma_talk_without_process(task, state, turns);
}

/// A single run that ends well, and leaves a file that is made of a description and samples, gives
/// those samples, however many there are. Nothing changes in the engine.
pub proof fn law_single_run_gives_the_samples<P>(
    task: Task,
    engine: Engine<P>,
    turns: Seq<Turn<P>>,
    exit: Exit,
    output: Vec<u8>,
    format: Seq<u8>,
    pcm: Seq<u8>,
)
    requires
        engine.enabled == Some(false),
        exit.success,
        events(turns) == seq![Event::<P>::Exited(Ok(exit)), Event::OutputRead(Ok(output))],
        output@ == wav_file(format, pcm),
        format.len() <= u32::MAX,
        pcm.len() <= u32::MAX,
    ensures
        session(task, engine, turns) == (
            Stage::<P, Seq<u8>, Seq<char>>::Finished(Ok(pcm)),
            engine,
        ),
{
    law_written_wav_is_read(format, pcm);
    law_single_run_gives_what_was_written(task, engine, turns, exit, output);
}

/// A single run that ends well gives what can be read from the file that it leaves, whatever is in
/// it.
pub proof fn law_single_run_gives_what_was_written<P>(
    task: Task,
    engine: Engine<P>,
    turns: Seq<Turn<P>>,
    exit: Exit,
    output: Vec<u8>,
)
    requires
        engine.enabled == Some(false),
        exit.success,
        events(turns) == seq![Event::<P>::Exited(Ok(exit)), Event::OutputRead(Ok(output))],
    ensures
        session(task, engine, turns) == (
            Stage::<P, Seq<u8>, Seq<char>>::Finished(samples(output@)),
            engine,
        ),
{
    lemma_two_events(
        task,
        begin(task.args, engine),
        turns,
        Event::Exited(Ok(exit)),
        Event::OutputRead(Ok(output)),
    );
}

/// A single run that cannot be started, ends badly or leaves no file to read fails, and says which
/// and why. Nothing changes in the engine.
pub proof fn law_single_run_tells_what_failed<P>(
    task: Task,
    engine: Engine<P>,
    turns: Seq<Turn<P>>,
    exit: Exit,
    error: String,
)
    requires
        engine.enabled == Some(false),
    ensures
        events(turns) == seq![Event::<P>::Exited(Err(error))] ==> session(task, engine, turns) == (
            Stage::<P, Seq<u8>, Seq<char>>::Finished(Err("spawn: "@ + error@)),
            engine,
        ),
        events(turns) == seq![Event::<P>::Exited(Ok(exit))] && !exit.success ==> session(
            task,
            engine,
            turns,
        ) == (
            Stage::<P, Seq<u8>, Seq<char>>::Finished(Err("exited with "@ + exit.status@)),
            engine,
        ),
        events(turns) == seq![Event::<P>::Exited(Ok(exit)), Event::OutputRead(Err(error))]
            && exit.success ==> session(task, engine, turns) == (
            Stage::<P, Seq<u8>, Seq<char>>::Finished(Err("read output: "@ + error@)),
            engine,
        ),
{
    let start = begin(task.args, engine);
    if events(turns) == seq![Event::<P>::Exited(Err(error))] {
        lemma_one_event(task, start, turns, Event::Exited(Err(error)));
    }
    if events(turns) == seq![Event::<P>::Exited(Ok(exit))] && !exit.success {
        lemma_one_event(task, start, turns, Event::Exited(Ok(exit)));
    }
    if events(turns) == seq![Event::<P>::Exited(Ok(exit)), Event::OutputRead(Err(error))]
        && exit.success {
        lemma_two_events(
            task,
            start,
            turns,
            Event::Exited(Ok(exit)),
            Event::OutputRead(Err(error)),
        );
    }
}

/// How a session begins depends on the engine alone, but for a kept process: it is sent the
/// arguments where they can be sent, and given up where they cannot.
pub proof fn law_how_a_session_begins<P>(task: Task, engine: Engine<P>, process: P)
    ensures
        engine.enabled is None ==> begin(task.args, engine) == (
            Stage::<P, Seq<u8>, Seq<char>>::ReadSetting,
            engine,
        ),
        engine.enabled == Some(false) ==> begin(task.args, engine) == (
            Stage::<P, Seq<u8>, Seq<char>>::RunCli,
            engine,
        ),
        engine.enabled == Some(true) && engine.process is None ==> begin(task.args, engine) == (
            Stage::<P, Seq<u8>, Seq<char>>::WriteLibrary,
            engine,
        ),
        engine.enabled == Some(true) && engine.process == Some(process) ==> begin(
            task.args,
            engine,
        ) == (
            if sendable(task.args) {
                Stage::<P, Seq<u8>, Seq<char>>::Send(process, request(task.args))
            } else {
                Stage::Finished(Err("invalid resident voicepeak arguments"@))
            },
            Engine::<P> { enabled: Some(true), process: None },
        ),
{
}

/// Only the single character `0` rules resident processes out before anything is looked at. Else an
/// executable with a slash in its name is looked into as it is named, and any other is looked up.
pub proof fn law_setting_and_name_decide<P>(task: Task, engine: Engine<P>, setting: Option<String>)
    ensures
        ({
            let after = next(task, (Stage::ReadSetting, engine), Event::SettingRead(setting));
            if setting matches Some(text) && text@.len() == 1 && text@[0] == '0' {
                after == (
                    Stage::<P, Seq<u8>, Seq<char>>::RunCli,
                    Engine { enabled: Some(false), process: engine.process },
                )
            } else if exists|i: int| 0 <= i < task.executable.len() && task.executable[i] == '/' {
                after == (Stage::<P, Seq<u8>, Seq<char>>::ReadHeader(Target::Named), engine)
            } else {
                after == (Stage::<P, Seq<u8>, Seq<char>>::SearchPath, engine)
            }
        }),
{
    if let Some(text) = setting {
        law_what_switches_off(text@);
    }
}

/// The executable in the first directory where it can be run is looked into.
pub proof fn law_first_executable_is_looked_into<P>(
    task: Task,
    engine: Engine<P>,
    candidates: Vec<Option<FileInfo>>,
    i: int,
)
    requires
        0 <= i < candidates@.len(),
        is_runnable(candidates@[i]),
        forall|j: int| 0 <= j < i ==> !is_runnable(#[trigger] candidates@[j]),
    ensures
        next(task, (Stage::SearchPath, engine), Event::Searched(candidates)) == (
            Stage::<P, Seq<u8>, Seq<char>>::ReadHeader(Target::InDirectory(i as usize)),
            engine,
        ),
{
    law_first_runnable_is_first(candidates@);
    let found = first_runnable_from(candidates@, 0);
    match found {
        Some(k) => {
            if k < i {
                assert(!is_runnable(candidates@[k]));
            } else if i < k {
                assert(!is_runnable(candidates@[i]));
            }
        },
        None => {
            assert(!is_runnable(candidates@[i]));
        },
    }
}

/// Where the executable can be run in no directory, resident processes are ruled out.
pub proof fn law_vain_search_rules_out<P>(
    task: Task,
    engine: Engine<P>,
    candidates: Vec<Option<FileInfo>>,
)
    requires
        forall|j: int| 0 <= j < candidates@.len() ==> !is_runnable(#[trigger] candidates@[j]),
    ensures
        next(task, (Stage::SearchPath, engine), Event::Searched(candidates)) == (
            Stage::<P, Seq<u8>, Seq<char>>::RunCli,
            Engine { enabled: Some(false), process: engine.process },
        ),
{
    law_first_runnable_is_first(candidates@);
}

/// The known build, and no other file, brings resident processes into use.
pub proof fn law_known_build_decides<P>(
    task: Task,
    engine: Engine<P>,
    target: Target,
    header: Option<Vec<u8>>,
)
    ensures
        ({
            let after = next(task, (Stage::ReadHeader(target), engine), Event::HeaderRead(header));
            let known = header matches Some(bytes) && is_supported(bytes@);
            &&& after == begin(
                task.args,
                Engine { enabled: Some(known), process: engine.process },
            )
            &&& known && engine.process is None ==> after == (
                Stage::<P, Seq<u8>, Seq<char>>::WriteLibrary,
                Engine::<P> { enabled: Some(true), process: None },
            )
            &&& !known ==> after == (
                Stage::<P, Seq<u8>, Seq<char>>::RunCli,
                Engine { enabled: Some(false), process: engine.process },
            )
        }),
{
}

/// What a process is to preload, byte by byte: the whole path of the written library; where
/// something was to be preloaded anyway, a colon after it and then all of that; and nothing else.
pub proof fn law_preload_is_the_whole_list<P>(task: Task, engine: Engine<P>, library: Library)
    ensures
        ({
            let after = next(
                task,
                (Stage::WriteLibrary, engine),
                Event::LibraryWritten(Ok(library)),
            );
            let path = library.path@;
            &&& after.1 == engine
            &&& after.0 matches Stage::Spawn { argument, preload } && {
                &&& argument == seq!['-', '-', 'h', 'e', 'l', 'p']
                &&& forall|k: int| 0 <= k < path.len() ==> #[trigger] preload[k] == path[k]
                &&& match library.inherited {
                    None => preload.len() == path.len(),
                    Some(others) => {
                        &&& preload.len() == path.len() + 1 + others@.len()
                        &&& preload[path.len() as int] == 0x3a
                        &&& forall|k: int|
                            0 <= k < others@.len() ==> preload[path.len() + 1 + k]
                                == #[trigger] others@[k]
                    },
                }
            }
        }),
{
    reveal_strlit("--help");
    assert("--help"@ =~= seq!['-', '-', 'h', 'e', 'l', 'p']);
}

/// A start that succeeds goes on with the process that was started and leaves the engine as it is.
/// One that fails says at what and why, and rules resident processes out.
pub proof fn law_start_step_by_step<P>(
    task: Task,
    engine: Engine<P>,
    argument: Seq<char>,
    preload: Seq<u8>,
    process: P,
    byte: u8,
    error: String,
)
    ensures
        next(task, (Stage::WriteLibrary, engine), Event::LibraryWritten(Err(error))) == (
            Stage::<P, Seq<u8>, Seq<char>>::Finished(Err("resident library: "@ + error@)),
            Engine { enabled: Some(false), process: engine.process },
        ),
        next(task, (Stage::Spawn { argument, preload }, engine), Event::Spawned(Err(error))) == (
            Stage::<P, Seq<u8>, Seq<char>>::Finished(Err("resident spawn: "@ + error@)),
            Engine { enabled: Some(false), process: engine.process },
        ),
        next(task, (Stage::Spawn { argument, preload }, engine), Event::Spawned(Ok(process))) == (
            Stage::<P, Seq<u8>, Seq<char>>::AwaitReady(process),
            engine,
        ),
        next(task, (Stage::AwaitReady(process), engine), Event::Replied(Err(error))) == (
            Stage::<P, Seq<u8>, Seq<char>>::Finished(Err("resident response: "@ + error@)),
            Engine { enabled: Some(false), process: engine.process },
        ),
        byte != 0x52 ==> next(
            task,
            (Stage::AwaitReady(process), engine),
            Event::Replied(Ok(byte)),
        ) == (
            Stage::<P, Seq<u8>, Seq<char>>::Finished(Err("invalid resident response"@)),
            Engine { enabled: Some(false), process: engine.process },
        ),
        next(task, (Stage::AwaitReady(process), engine), Event::Replied(Ok(0x52))) == (
            if sendable(task.args) {
                Stage::<P, Seq<u8>, Seq<char>>::Send(process, request(task.args))
            } else {
                Stage::Finished(Err("invalid resident voicepeak arguments"@))
            },
            engine,
        ),
{
}

/// A request that is sent and answered leads to the output file. One that fails says at what and
/// why, and leaves the engine as it is.
pub proof fn law_request_step_by_step<P>(
    task: Task,
    engine: Engine<P>,
    wire: Seq<u8>,
    process: P,
    byte: u8,
    error: String,
)
    ensures
        next(task, (Stage::Send(process, wire), engine), Event::Sent(Ok(()))) == (
            Stage::<P, Seq<u8>, Seq<char>>::AwaitDone(process),
            engine,
        ),
        next(task, (Stage::Send(process, wire), engine), Event::Sent(Err(error))) == (
            Stage::<P, Seq<u8>, Seq<char>>::Finished(Err("resident request: "@ + error@)),
            engine,
        ),
        next(task, (Stage::AwaitDone(process), engine), Event::Replied(Ok(0x44))) == (
            Stage::<P, Seq<u8>, Seq<char>>::ReadOutput(process),
            engine,
        ),
        byte != 0x44 ==> next(
            task,
            (Stage::AwaitDone(process), engine),
            Event::Replied(Ok(byte)),
        ) == (Stage::<P, Seq<u8>, Seq<char>>::Finished(Err("invalid resident response"@)), engine),
        next(task, (Stage::AwaitDone(process), engine), Event::Replied(Err(error))) == (
            Stage::<P, Seq<u8>, Seq<char>>::Finished(Err("resident response: "@ + error@)),
            engine,
        ),
        next(task, (Stage::ReadOutput(process), engine), Event::OutputRead(Err(error))) == (
            Stage::<P, Seq<u8>, Seq<char>>::Finished(Err("read output: "@ + error@)),
            engine,
        ),
{
}

/// The output of a process that is whole gives its samples and the process back to the engine; one
/// that is not gives the reason, and the process is given up.
pub proof fn law_resident_output_decides<P>(
    task: Task,
    engine: Engine<P>,
    process: P,
    output: Vec<u8>,
)
    ensures
        ({
            let after = next(
                task,
                (Stage::ReadOutput(process), engine),
                Event::OutputRead(Ok(output)),
            );
            &&& after.0 == Stage::<P, Seq<u8>, Seq<char>>::Finished(complete_samples(output@))
            &&& after.1.enabled == engine.enabled
            &&& after.1.process == if complete_samples(output@) is Ok {
                Some(process)
            } else {
                engine.process
            }
        }),
{
}

/// A process that is kept, or that has just been started, and answers with a file made of a
/// description and samples gives those samples.
pub proof fn law_resident_output_gives_the_samples<P>(
    task: Task,
    engine: Engine<P>,
    process: P,
    output: Vec<u8>,
    format: Seq<u8>,
    pcm: Seq<u8>,
)
    requires
        output@ == wav_file(format, pcm),
        pcm.len() > 0,
        pcm.len() % 2 == 0,
        riff_size(format, pcm) <= u32::MAX,
    ensures
        next(task, (Stage::ReadOutput(process), engine), Event::OutputRead(Ok(output))) == (
            Stage::<P, Seq<u8>, Seq<char>>::Finished(Ok(pcm)),
            Engine { enabled: engine.enabled, process: Some(process) },
        ),
{
    law_written_wav_reads_back(format, pcm);
}

/// A reply is in order if and only if it is the byte that is expected; any other byte and any
/// failure to read one have their own messages.
pub proof fn law_replies(byte: u8, expected: u8, error: String)
    ensures
        reply_fault(Ok(byte), expected) is None <==> byte == expected,
        byte != expected ==> reply_fault(Ok(byte), expected) == Some("invalid resident response"@),
        reply_fault(Err(error), expected) == Some("resident response: "@ + error@),
{
}

/// A session owns its process from the start of it until its output is read, and at no other time;
/// talking to the process changes that and nothing else.
pub proof fn law_when_a_process_is_owned<P>(
    stage: StageView<P>,
    process: P,
    changed: P,
    wire: Seq<u8>,
)
    ensures
        held(Stage::<P, Seq<u8>, Seq<char>>::AwaitReady(process)) == Some(process),
        held(Stage::<P, Seq<u8>, Seq<char>>::Send(process, wire)) == Some(process),
        held(Stage::<P, Seq<u8>, Seq<char>>::AwaitDone(process)) == Some(process),
        held(Stage::<P, Seq<u8>, Seq<char>>::ReadOutput(process)) == Some(process),
        !(stage is AwaitReady || stage is Send || stage is AwaitDone || stage is ReadOutput)
            ==> held(stage) is None && holding(stage, changed) == stage,
        held(stage) is Some ==> held(holding(stage, changed)) == Some(changed),
        held(stage) is Some ==> holding(holding(stage, changed), held(stage)->0) == stage,
        holding(Stage::Send(process, wire), changed) == Stage::<P, Seq<u8>, Seq<char>>::Send(
            changed,
            wire,
        ),
        stage is AwaitReady <==> holding(stage, changed) is AwaitReady,
        stage is AwaitDone <==> holding(stage, changed) is AwaitDone,
        stage is ReadOutput <==> holding(stage, changed) is ReadOutput,
{
}

/// A stage is seen as what it is.
pub proof fn law_stages_are_seen_as_they_are<P>(
    process: P,
    target: Target,
    bytes: Vec<u8>,
    text: String,
)
    ensures
        stage_view(Stage::<P, Vec<u8>, String>::ReadSetting) is ReadSetting,
        stage_view(Stage::<P, Vec<u8>, String>::SearchPath) is SearchPath,
        stage_view(Stage::<P, Vec<u8>, String>::ReadHeader(target)) == Stage::<
            P,
            Seq<u8>,
            Seq<char>,
        >::ReadHeader(target),
        stage_view(Stage::<P, Vec<u8>, String>::WriteLibrary) is WriteLibrary,
        stage_view(Stage::<P, Vec<u8>, String>::Spawn { argument: text, preload: bytes })
            == (Stage::<P, Seq<u8>, Seq<char>>::Spawn { argument: text@, preload: bytes@ }),
        stage_view(Stage::<P, Vec<u8>, String>::AwaitReady(process)) == Stage::<
            P,
            Seq<u8>,
            Seq<char>,
        >::AwaitReady(process),
        stage_view(Stage::<P, Vec<u8>, String>::Send(process, bytes)) == Stage::<
            P,
            Seq<u8>,
            Seq<char>,
        >::Send(process, bytes@),
        stage_view(Stage::<P, Vec<u8>, String>::AwaitDone(process)) == Stage::<
            P,
            Seq<u8>,
            Seq<char>,
        >::AwaitDone(process),
        stage_view(Stage::<P, Vec<u8>, String>::ReadOutput(process)) == Stage::<
            P,
            Seq<u8>,
            Seq<char>,
        >::ReadOutput(process),
        stage_view(Stage::<P, Vec<u8>, String>::RunCli) is RunCli,
        stage_view(Stage::<P, Vec<u8>, String>::ReadCliOutput) is ReadCliOutput,
        stage_view(Stage::<P, Vec<u8>, String>::Finished(Ok(bytes))) == Stage::<
            P,
            Seq<u8>,
            Seq<char>,
        >::Finished(Ok(bytes@)),
        stage_view(Stage::<P, Vec<u8>, String>::Finished(Err(text))) == Stage::<
            P,
            Seq<u8>,
            Seq<char>,
        >::Finished(Err(text@)),
{
}

} // verus!
