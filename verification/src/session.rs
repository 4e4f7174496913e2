//! One synthesis after the other, with a process that is kept between them.
//!
//! [`Voicepeak`] is what outlives a synthesis and [`Session`] is one synthesis. A session does not
//! touch files or processes: its [`Stage`] says what to do next, and the [`Event`] that comes of it
//! takes the session to the next stage. While a session runs, the process that it uses belongs to
//! it. Only a session that ends with whole samples hands the process back, so that giving up a
//! session at any stage gives up its process too.
use crate::probe::first_runnable;
use crate::probe::first_runnable_from;
use crate::probe::is_supported;
use crate::probe::is_switched_off;
use crate::probe::supported_header;
use crate::probe::switched_off;
use crate::probe::FileInfo;
use crate::text::contains_char;
use crate::text::with_detail;
use crate::wav::complete_pcm;
use crate::wav::complete_samples;
use crate::wav::extract_pcm;
use crate::wav::samples;
use crate::wire::encode_args;
use crate::wire::request;
use crate::wire::sendable;
use crate::wire::texts;
use vstd::prelude::*;
use vstd::slice::slice_subrange;

verus! {

/// How long a synthesis may take.
pub const TIMEOUT_SECS: u64 = 60;

/// The byte with which a process says that it waits for requests.
pub const READY: u8 = 0x52;

/// The byte with which a process says that it has answered a request.
pub const DONE: u8 = 0x44;

/// The environment variable whose setting can switch resident processes off.
pub const SETTING_VARIABLE: &'static str = "MOCA_VOICEPEAK_RESIDENT";

/// The environment variable that lists the libraries to preload.
pub const PRELOAD_VARIABLE: &'static str = "LD_PRELOAD";

/// The engine: whether resident processes are used, and the one that is kept. A process is a `P`.
pub struct Voicepeak<P> {
    enabled: Option<bool>,
    process: Option<P>,
}

/// What an engine holds.
pub struct Engine<P> {
    /// Whether resident processes are used, once that is known.
    pub enabled: Option<bool>,
    /// The process that is kept for the next synthesis.
    pub process: Option<P>,
}

impl<P> View for Voicepeak<P> {
    type V = Engine<P>;

    closed spec fn view(&self) -> Engine<P> {
        Engine { enabled: self.enabled, process: self.process }
    }
}

/// The executable to look into.
#[derive(Clone, Copy, Debug, PartialEq, Eq, Structural)]
pub enum Target {
    /// The executable as it was named, which is a path.
    Named,
    /// The executable in the directory of the search path that has this position.
    InDirectory(usize),
}

/// What a synthesis waits for. `B` stands for bytes and `T` for text.
pub enum Stage<P, B, T> {
    /// To hear what [`SETTING_VARIABLE`] is set to.
    ReadSetting,
    /// To hear what the file system says of the executable in each directory of the search path.
    SearchPath,
    /// To have the first bytes of the executable read.
    ReadHeader(Target),
    /// To have the library written that makes a process resident.
    WriteLibrary,
    /// To have the executable started as a process.
    Spawn {
        /// The one argument that it gets.
        argument: T,
        /// What [`PRELOAD_VARIABLE`] is set to for it.
        preload: B,
    },
    /// To hear that the process is ready.
    AwaitReady(P),
    /// To have these bytes sent to the process.
    Send(P, B),
    /// To hear that the process has answered.
    AwaitDone(P),
    /// To have the output file of the session read, which the process wrote.
    ReadOutput(P),
    /// To have the executable run once, on the arguments.
    RunCli,
    /// To have the output file of the session read, which the run wrote.
    ReadCliOutput,
    /// Nothing: this is the result.
    Finished(Result<B, T>),
}

/// A library that was written for a process to preload.
pub struct Library {
    /// Where it was written.
    pub path: Vec<u8>,
    /// What [`PRELOAD_VARIABLE`] was set to anyway.
    pub inherited: Option<Vec<u8>>,
}

/// How a run of the executable ended.
pub struct Exit {
    /// Whether it ended well.
    pub success: bool,
    /// The end in words.
    pub status: String,
}

/// What came of a stage. A text says what went wrong.
pub enum Event<P> {
    /// Of [`Stage::ReadSetting`]; `None` where there is no setting.
    SettingRead(Option<String>),
    /// Of [`Stage::SearchPath`]; `None` for each directory of which nothing was said.
    Searched(Vec<Option<FileInfo>>),
    /// Of [`Stage::ReadHeader`]; `None` where the file could not be read so far.
    HeaderRead(Option<Vec<u8>>),
    /// Of [`Stage::WriteLibrary`].
    LibraryWritten(Result<Library, String>),
    /// Of [`Stage::Spawn`].
    Spawned(Result<P, String>),
    /// Of [`Stage::AwaitReady`] and [`Stage::AwaitDone`].
    Replied(Result<u8, String>),
    /// Of [`Stage::Send`].
    Sent(Result<(), String>),
    /// Of [`Stage::ReadOutput`] and [`Stage::ReadCliOutput`].
    OutputRead(Result<Vec<u8>, String>),
    /// Of [`Stage::RunCli`].
    Exited(Result<Exit, String>),
}

/// A stage whose bytes and text are seen as sequences.
pub type StageView<P> = Stage<P, Seq<u8>, Seq<char>>;

/// How [`Stage`] is seen.
pub open spec fn stage_view<P>(stage: Stage<P, Vec<u8>, String>) -> StageView<P> {
    match stage {
        Stage::ReadSetting => Stage::ReadSetting,
        Stage::SearchPath => Stage::SearchPath,
        Stage::ReadHeader(target) => Stage::ReadHeader(target),
        Stage::WriteLibrary => Stage::WriteLibrary,
        Stage::Spawn { argument, preload } => Stage::Spawn {
            argument: argument@,
            preload: preload@,
        },
        Stage::AwaitReady(process) => Stage::AwaitReady(process),
        Stage::Send(process, wire) => Stage::Send(process, wire@),
        Stage::AwaitDone(process) => Stage::AwaitDone(process),
        Stage::ReadOutput(process) => Stage::ReadOutput(process),
        Stage::RunCli => Stage::RunCli,
        Stage::ReadCliOutput => Stage::ReadCliOutput,
        Stage::Finished(result) => Stage::Finished(crate::wav::outcome(result)),
    }
}

/// One synthesis.
pub struct Session<P> {
    executable: String,
    args: Vec<String>,
    output: Vec<u8>,
    stage: Stage<P, Vec<u8>, String>,
}

/// What is to be run.
pub struct Task {
    /// The executable. With a slash it is a path, without one it is looked up on the search path.
    pub executable: Seq<char>,
    /// The arguments of the executable, with its name in front.
    pub args: Seq<Seq<char>>,
    /// The path of the file that the arguments have the samples written to.
    pub output: Seq<u8>,
}

/// What a session holds.
pub struct SessionView<P> {
    /// What is to be run.
    pub task: Task,
    /// What the session waits for.
    pub stage: StageView<P>,
}

impl<P> View for Session<P> {
    type V = SessionView<P>;

    closed spec fn view(&self) -> SessionView<P> {
        SessionView {
            task: Task {
                executable: self.executable@,
                args: texts(self.args@),
                output: self.output@,
            },
            stage: stage_view(self.stage),
        }
    }
}

/// The process that a session owns at a stage.
pub open spec fn held<P>(stage: StageView<P>) -> Option<P> {
    match stage {
        Stage::AwaitReady(process) => Some(process),
        Stage::Send(process, _) => Some(process),
        Stage::AwaitDone(process) => Some(process),
        Stage::ReadOutput(process) => Some(process),
        _ => None,
    }
}

/// The stage with another process in place of the one that the session owns.
pub open spec fn holding<P>(stage: StageView<P>, process: P) -> StageView<P> {
    match stage {
        Stage::AwaitReady(_) => Stage::AwaitReady(process),
        Stage::Send(_, wire) => Stage::Send(process, wire),
        Stage::AwaitDone(_) => Stage::AwaitDone(process),
        Stage::ReadOutput(_) => Stage::ReadOutput(process),
        _ => stage,
    }
}

/// The libraries to preload: the one at `path`, then the inherited ones after a colon.
pub open spec fn preload_list(path: Seq<u8>, inherited: Option<Seq<u8>>) -> Seq<u8> {
    match inherited {
        Some(others) => path + seq![0x3a] + others,
        None => path,
    }
}

/// What is wrong with a reply where `expected` is.
pub open spec fn reply_fault(reply: Result<u8, String>, expected: u8) -> Option<Seq<char>> {
    match reply {
        Ok(byte) => if byte == expected {
            None
        } else {
            Some("invalid resident response"@)
        },
        Err(error) => Some("resident response: "@ + error@),
    }
}

/// A stage, with the engine as it is then.
pub type State<P> = (StageView<P>, Engine<P>);

/// The session ends with an error.
pub open spec fn failed<P>(error: Seq<char>, engine: Engine<P>) -> State<P> {
    (Stage::Finished(Err(error)), engine)
}

/// A failure to make a resident process ends the use of such processes.
pub open spec fn start_failed<P>(error: Seq<char>, engine: Engine<P>) -> State<P> {
    failed(error, Engine { enabled: Some(false), process: engine.process })
}

/// A process is asked for `args`.
pub open spec fn ask<P>(args: Seq<Seq<char>>, process: P, engine: Engine<P>) -> State<P> {
    if sendable(args) {
        (Stage::Send(process, request(args)), engine)
    } else {
        failed("invalid resident voicepeak arguments"@, engine)
    }
}

/// How a synthesis of `args` begins. The process that is kept leaves the engine.
pub open spec fn begin<P>(args: Seq<Seq<char>>, engine: Engine<P>) -> State<P> {
    match engine.enabled {
        None => (Stage::ReadSetting, engine),
        Some(false) => (Stage::RunCli, engine),
        Some(true) => match engine.process {
            Some(process) => ask(args, process, Engine { enabled: Some(true), process: None }),
            None => (Stage::WriteLibrary, engine),
        },
    }
}

/// It has turned out whether resident processes are used.
pub open spec fn settle<P>(args: Seq<Seq<char>>, supported: bool, engine: Engine<P>) -> State<P> {
    begin(args, Engine { enabled: Some(supported), process: engine.process })
}

/// Where a session goes from a stage. An event that the stage does not wait for changes
/// nothing.
pub open spec fn next<P>(task: Task, state: State<P>, event: Event<P>) -> State<P> {
    let args = task.args;
    let (stage, engine) = state;
    match (stage, event) {
        (Stage::ReadSetting, Event::SettingRead(setting)) => if is_switched_off(
            match setting {
                Some(value) => Some(value@),
                None => None,
            },
        ) {
            settle(args, false, engine)
        } else if task.executable.contains('/') {
            (Stage::ReadHeader(Target::Named), engine)
        } else {
            (Stage::SearchPath, engine)
        },
        (Stage::SearchPath, Event::Searched(candidates)) => match first_runnable_from(
            candidates@,
            0,
        ) {
            Some(i) => (Stage::ReadHeader(Target::InDirectory(i as usize)), engine),
            None => settle(args, false, engine),
        },
        (Stage::ReadHeader(_), Event::HeaderRead(header)) => match header {
            Some(bytes) => settle(args, is_supported(bytes@), engine),
            None => settle(args, false, engine),
        },
        (Stage::WriteLibrary, Event::LibraryWritten(written)) => match written {
            Ok(library) => (
                Stage::Spawn {
                    argument: "--help"@,
                    preload: preload_list(
                        library.path@,
                        match library.inherited {
                            Some(others) => Some(others@),
                            None => None,
                        },
                    ),
                },
                engine,
            ),
            Err(error) => start_failed("resident library: "@ + error@, engine),
        },
        (Stage::Spawn { .. }, Event::Spawned(spawned)) => match spawned {
            Ok(process) => (Stage::AwaitReady(process), engine),
            Err(error) => start_failed("resident spawn: "@ + error@, engine),
        },
        (Stage::AwaitReady(process), Event::Replied(reply)) => match reply_fault(reply, READY) {
            None => ask(args, process, engine),
            Some(error) => start_failed(error, engine),
        },
        (Stage::Send(process, _), Event::Sent(sent)) => match sent {
            Ok(_) => (Stage::AwaitDone(process), engine),
            Err(error) => failed("resident request: "@ + error@, engine),
        },
        (Stage::AwaitDone(process), Event::Replied(reply)) => match reply_fault(reply, DONE) {
            None => (Stage::ReadOutput(process), engine),
            Some(error) => failed(error, engine),
        },
        (Stage::ReadOutput(process), Event::OutputRead(output)) => match output {
            Ok(bytes) => match complete_samples(bytes@) {
                Ok(pcm) => (
                    Stage::Finished(Ok(pcm)),
                    Engine { enabled: engine.enabled, process: Some(process) },
                ),
                Err(error) => failed(error, engine),
            },
            Err(error) => failed("read output: "@ + error@, engine),
        },
        (Stage::RunCli, Event::Exited(exited)) => match exited {
            Ok(exit) => if exit.success {
                (Stage::ReadCliOutput, engine)
            } else {
                failed("exited with "@ + exit.status@, engine)
            },
            Err(error) => failed("spawn: "@ + error@, engine),
        },
        (Stage::ReadCliOutput, Event::OutputRead(output)) => match output {
            Ok(bytes) => (Stage::Finished(samples(bytes@)), engine),
            Err(error) => failed("read output: "@ + error@, engine),
        },
        _ => state,
    }
}

fn preload(path: Vec<u8>, inherited: Option<Vec<u8>>) -> (list: Vec<u8>)
    ensures
        list@ == preload_list(
            path@,
            match inherited {
                Some(others) => Some(others@),
                None => None,
            },
        ),
{
    let mut list = path;
    match inherited {
        Some(others) => {
            list.push(0x3a);
            list.extend_from_slice(others.as_slice());
            assert(list@ =~= path@ + seq![0x3a] + others@);
        },
        None => {},
    }
    list
}

/// Holds a reply of a process against the byte that it has to be.
pub fn expect(reply: Result<u8, String>, expected: u8) -> (result: Result<(), String>)
    ensures
        result is Ok <==> reply_fault(reply, expected) is None,
        result matches Err(error) ==> reply_fault(reply, expected) == Some(error@),
{
    match reply {
        Ok(byte) => if byte == expected {
            Ok(())
        } else {
            Err("invalid resident response".to_owned())
        },
        Err(error) => Err(with_detail("resident response: ", error.as_str())),
    }
}

/// The result of a synthesis, of which there is none where its time ran out.
pub fn within_deadline(result: Option<Result<Vec<u8>, String>>) -> (outcome: Result<
    Vec<u8>,
    String,
>)
    ensures
        match result {
            Some(ended) => outcome == ended,
            None => crate::wav::outcome(outcome) == Err::<Seq<u8>, Seq<char>>(
                "voicepeak timed out after 60 seconds"@,
            ),
        },
{
    match result {
        Some(ended) => ended,
        None => Err("voicepeak timed out after 60 seconds".to_owned()),
    }
}

impl<P> Default for Voicepeak<P> {
    /// An engine that knows nothing of its executable and keeps no process.
    fn default() -> (engine: Self)
        ensures
            engine@ == (Engine::<P> { enabled: None, process: None }),
    {
        Voicepeak { enabled: None, process: None }
    }
}

impl<P> Voicepeak<P> {
    /// Whether resident processes are used, once that is known.
    pub fn enabled(&self) -> (enabled: Option<bool>)
        ensures
            enabled == self@.enabled,
    {
        self.enabled
    }

    /// The process that is kept.
    pub fn process(&self) -> (process: Option<&P>)
        ensures
            match process {
                Some(kept) => self@.process == Some(*kept),
                None => self@.process is None,
            },
    {
        self.process.as_ref()
    }

    fn ask(args: &[String], process: P) -> (stage: Stage<P, Vec<u8>, String>)
        ensures
            forall|engine: Engine<P>| #[trigger]
                ask(texts(args@), process, engine) == (stage_view(stage), engine),
    {
        match encode_args(args) {
            Ok(wire) => Stage::Send(process, wire),
            Err(error) => Stage::Finished(Err(error)),
        }
    }

    fn begin(&mut self, args: &[String]) -> (stage: Stage<P, Vec<u8>, String>)
        ensures
            (stage_view(stage), final(self)@) == begin(texts(args@), old(self)@),
    {
        match self.enabled {
            None => Stage::ReadSetting,
            Some(false) => Stage::RunCli,
            Some(true) => match self.process.take() {
                Some(process) => Self::ask(args, process),
                None => Stage::WriteLibrary,
            },
        }
    }

    fn settle(&mut self, args: &[String], supported: bool) -> (stage: Stage<P, Vec<u8>, String>)
        ensures
            (stage_view(stage), final(self)@) == settle(texts(args@), supported, old(self)@),
    {
        self.enabled = Some(supported);
        self.begin(args)
    }

    /// Begins a synthesis. `args` are the arguments of the executable, with its name in front, and
    /// `output` is the path of the file that they have the samples written to.
    pub fn synthesize(
        &mut self,
        executable: String,
        args: Vec<String>,
        output: Vec<u8>,
    ) -> (session: Session<P>)
        ensures
            session@.task == (Task {
                executable: executable@,
                args: texts(args@),
                output: output@,
            }),
            (session@.stage, final(self)@) == begin(texts(args@), old(self)@),
    {
        let stage = self.begin(args.as_slice());
        Session { executable, args, output, stage }
    }
}

impl<P> Session<P> {
    /// What the session waits for.
    pub fn stage(&self) -> (stage: &Stage<P, Vec<u8>, String>)
        ensures
            stage_view(*stage) == self@.stage,
    {
        &self.stage
    }

    /// The executable as it was named for this synthesis.
    pub fn executable(&self) -> (name: &str)
        ensures
            name@ == self@.task.executable,
    {
        self.executable.as_str()
    }

    /// The path of the file that is to be read for the samples.
    pub fn output(&self) -> (path: &[u8])
        ensures
            path@ == self@.task.output,
    {
        self.output.as_slice()
    }

    /// The process that the session owns, to be talked to.
    pub fn process_mut(&mut self) -> (process: Option<&mut P>)
        ensures
            final(self)@.task == old(self)@.task,
            match process {
                Some(owned) => {
                    &&& held(old(self)@.stage) == Some(*owned)
                    &&& final(self)@.stage == holding(old(self)@.stage, *final(owned))
                },
                None => held(old(self)@.stage) is None && final(self)@.stage == old(self)@.stage,
            },
    {
        match &mut self.stage {
            Stage::AwaitReady(process) => Some(process),
            Stage::Send(process, _) => Some(process),
            Stage::AwaitDone(process) => Some(process),
            Stage::ReadOutput(process) => Some(process),
            _ => None,
        }
    }

    /// The result, where there is one yet.
    pub fn into_result(self) -> (result: Option<Result<Vec<u8>, String>>)
        ensures
            match result {
                Some(ended) => self@.stage == Stage::<P, Seq<u8>, Seq<char>>::Finished(
                    crate::wav::outcome(ended),
                ),
                None => !(self@.stage is Finished),
            },
    {
        match self.stage {
            Stage::Finished(ended) => Some(ended),
            _ => None,
        }
    }

    /// The arguments with which the executable is run once: all but its name.
    pub fn cli_args(&self) -> (args: &[String])
        requires
            self@.task.args.len() > 0,
        ensures
            texts(args@) == self@.task.args.drop_first(),
    {
        let args = slice_subrange(self.args.as_slice(), 1, self.args.len());
        assert(texts(args@) =~= self@.task.args.drop_first());
        args
    }

    /// Goes on with what came of the stage.
    pub fn step(self, engine: &mut Voicepeak<P>, event: Event<P>) -> (session: Session<P>)
        ensures
            session@.task == self@.task,
            (session@.stage, final(engine)@) == next(
                self@.task,
                (self@.stage, old(engine)@),
                event,
            ),
    {
        let Session { executable, args, output, stage } = self;
        let stage = match stage {
            Stage::ReadSetting => match event {
                Event::SettingRead(setting) => if switched_off(&setting) {
                    engine.settle(args.as_slice(), false)
                } else if contains_char(executable.as_str(), '/') {
                    Stage::ReadHeader(Target::Named)
                } else {
                    Stage::SearchPath
                },
                _ => Stage::ReadSetting,
            },
            Stage::SearchPath => match event {
                Event::Searched(candidates) => match first_runnable(candidates.as_slice()) {
                    Some(i) => Stage::ReadHeader(Target::InDirectory(i)),
                    None => engine.settle(args.as_slice(), false),
                },
                _ => Stage::SearchPath,
            },
            Stage::ReadHeader(target) => match event {
                Event::HeaderRead(Some(header)) => engine.settle(
                    args.as_slice(),
                    supported_header(header.as_slice()),
                ),
                Event::HeaderRead(None) => engine.settle(args.as_slice(), false),
                _ => Stage::ReadHeader(target),
            },
            Stage::WriteLibrary => match event {
                Event::LibraryWritten(Ok(library)) => Stage::Spawn {
                    argument: "--help".to_owned(),
                    preload: preload(library.path, library.inherited),
                },
                Event::LibraryWritten(Err(error)) => {
                    engine.enabled = Some(false);
                    Stage::Finished(Err(with_detail("resident library: ", error.as_str())))
                },
                _ => Stage::WriteLibrary,
            },
            Stage::Spawn { argument, preload } => match event {
                Event::Spawned(Ok(process)) => Stage::AwaitReady(process),
                Event::Spawned(Err(error)) => {
                    engine.enabled = Some(false);
                    Stage::Finished(Err(with_detail("resident spawn: ", error.as_str())))
                },
                _ => Stage::Spawn { argument, preload },
            },
            Stage::AwaitReady(process) => match event {
                Event::Replied(reply) => match expect(reply, READY) {
                    Ok(_) => Voicepeak::ask(args.as_slice(), process),
                    Err(error) => {
                        engine.enabled = Some(false);
                        Stage::Finished(Err(error))
                    },
                },
                _ => Stage::AwaitReady(process),
            },
            Stage::Send(process, wire) => match event {
                Event::Sent(Ok(_)) => Stage::AwaitDone(process),
                Event::Sent(Err(error)) => Stage::Finished(
                    Err(with_detail("resident request: ", error.as_str())),
                ),
                _ => Stage::Send(process, wire),
            },
            Stage::AwaitDone(process) => match event {
                Event::Replied(reply) => match expect(reply, DONE) {
                    Ok(_) => Stage::ReadOutput(process),
                    Err(error) => Stage::Finished(Err(error)),
                },
                _ => Stage::AwaitDone(process),
            },
            Stage::ReadOutput(process) => match event {
                Event::OutputRead(Ok(bytes)) => match complete_pcm(bytes.as_slice()) {
                    Ok(pcm) => {
                        engine.process = Some(process);
                        Stage::Finished(Ok(pcm))
                    },
                    Err(error) => Stage::Finished(Err(error)),
                },
                Event::OutputRead(Err(error)) => Stage::Finished(
                    Err(with_detail("read output: ", error.as_str())),
                ),
                _ => Stage::ReadOutput(process),
            },
            Stage::RunCli => match event {
                Event::Exited(Ok(exit)) => if exit.success {
                    Stage::ReadCliOutput
                } else {
                    Stage::Finished(Err(with_detail("exited with ", exit.status.as_str())))
                },
                Event::Exited(Err(error)) => Stage::Finished(
                    Err(with_detail("spawn: ", error.as_str())),
                ),
                _ => Stage::RunCli,
            },
            Stage::ReadCliOutput => match event {
                Event::OutputRead(Ok(bytes)) => Stage::Finished(extract_pcm(bytes.as_slice())),
                Event::OutputRead(Err(error)) => Stage::Finished(
                    Err(with_detail("read output: ", error.as_str())),
                ),
                _ => Stage::ReadCliOutput,
            },
            Stage::Finished(result) => Stage::Finished(result),
        };
        Session { executable, args, output, stage }
    }
}

} // verus!
