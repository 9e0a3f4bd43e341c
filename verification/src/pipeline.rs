//! The run as a state machine: each step takes what the outside world
//! reported and decides what it has to do next. Reading files and running
//! the media tool are left to the caller.

use crate::command::{
    download_args, download_command, listing_args, listing_command, title_args, title_command,
    INPUT_FILE, OUTPUT_DIR,
};
use crate::links::{classify, playlist_members, playlists_of, videos_of};
use crate::task::{task_views, titled, untitled, TaskView, VideoTask};
use crate::text::{lines_of, trimmed, utf8_lossy, views};
use crate::title::{is_clean, lemma_sanitized_is_clean, raw_title, sanitize, sanitized};
use vstd::prelude::*;
use vstd::utf8::{decode_utf8, valid_utf8};

verus! {

/// Where a run stands: what it is waiting for.
#[derive(Clone, Copy, Debug, PartialEq, Eq, Structural)]
pub enum Stage {
    /// Waiting for the output directory and the input file to exist.
    Bootstrapping,
    /// Waiting for the contents of the input file.
    Loading,
    /// Waiting for the listings of the playlists.
    Expanding,
    /// Waiting for the titles of the videos.
    Resolving,
    /// Waiting for the downloads to end.
    Downloading,
    /// Nothing is left to do.
    Finished,
}

/// Why a step was refused. A refused step leaves the run as it was.
#[derive(Clone, Copy, Debug, PartialEq, Eq, Structural)]
pub enum PipelineError {
    /// The event does not answer the action that the run is waiting on.
    UnexpectedEvent,
    /// There is not one output for each command that was to be run.
    OutputCount,
    /// A playlist listing is not well-formed UTF-8.
    UnreadableListing,
}

/// What the outside world reports.
pub enum Event {
    /// The output directory and the input file exist.
    Bootstrapped,
    /// The input file was read; these are its contents.
    InputRead(String),
    /// Every command of the last action has run; these are their standard
    /// outputs, in the order of the commands.
    Outputs(Vec<Vec<u8>>),
}

/// What the caller has to do next.
pub enum Action {
    /// Create the directory and the file unless they exist, then report
    /// [`Event::Bootstrapped`].
    Bootstrap { directory: String, input_file: String },
    /// Read the file and report its contents.
    ReadInput { path: String },
    /// Run the media tool once with each argument list, in any order or all
    /// at once, wait for all of them, and report their outputs.
    Run { commands: Vec<Vec<String>> },
    /// Stop: the run is over.
    Finish,
}

/// An [`Event`] as plain values.
pub enum EventView {
    Bootstrapped,
    InputRead(Seq<char>),
    Outputs(Seq<Seq<u8>>),
}

/// An [`Action`] as plain values.
pub enum ActionView {
    Bootstrap { directory: Seq<char>, input_file: Seq<char> },
    ReadInput { path: Seq<char> },
    Run { commands: Seq<Seq<Seq<char>>> },
    Finish,
}

/// A run as plain values.
pub struct PipelineView {
    pub stage: Stage,
    pub playlists: Seq<Seq<char>>,
    pub tasks: Seq<TaskView>,
}

/// The views of a sequence of byte strings.
pub open spec fn byte_views(outputs: Seq<Vec<u8>>) -> Seq<Seq<u8>> {
    outputs.map_values(|output: Vec<u8>| output@)
}

/// The views of a sequence of argument lists.
pub open spec fn command_views(commands: Seq<Vec<String>>) -> Seq<Seq<Seq<char>>> {
    commands.map_values(|command: Vec<String>| views(command@))
}

impl View for Event {
    type V = EventView;

    open spec fn view(&self) -> EventView {
        match self {
            Event::Bootstrapped => EventView::Bootstrapped,
            Event::InputRead(contents) => EventView::InputRead(contents@),
            Event::Outputs(outputs) => EventView::Outputs(byte_views(outputs@)),
        }
    }
}

impl View for Action {
    type V = ActionView;

    open spec fn view(&self) -> ActionView {
        match self {
            Action::Bootstrap { directory, input_file } => ActionView::Bootstrap {
                directory: directory@,
                input_file: input_file@,
            },
            Action::ReadInput { path } => ActionView::ReadInput { path: path@ },
            Action::Run { commands } => ActionView::Run { commands: command_views(commands@) },
            Action::Finish => ActionView::Finish,
        }
    }
}

/// One task without a title for each link.
pub open spec fn untitled_all(links: Seq<Seq<char>>) -> Seq<TaskView> {
    links.map_values(|link: Seq<char>| untitled(link))
}

/// The listing command of each playlist.
pub open spec fn listing_commands_of(playlists: Seq<Seq<char>>) -> Seq<Seq<Seq<char>>> {
    playlists.map_values(|link: Seq<char>| listing_command(link))
}

/// The title command of each task.
pub open spec fn title_commands_of(tasks: Seq<TaskView>) -> Seq<Seq<Seq<char>>> {
    tasks.map_values(|task: TaskView| title_command(task.link))
}

/// The download command of each task.
pub open spec fn download_commands_of(tasks: Seq<TaskView>) -> Seq<Seq<Seq<char>>> {
    tasks.map_values(|task: TaskView| download_command(task))
}

/// Whether every listing is well-formed UTF-8.
pub open spec fn readable(listings: Seq<Seq<u8>>) -> bool {
    forall|i: int| 0 <= i < listings.len() ==> valid_utf8(#[trigger] listings[i])
}

/// The member links of all the listings, playlist after playlist.
pub open spec fn expanded(listings: Seq<Seq<u8>>) -> Seq<Seq<char>> {
    listings.map_values(|listing: Seq<u8>| lines_of(decode_utf8(listing))).flatten()
}

/// The title for what the tool printed as a video's title.
pub open spec fn title_of(output: Seq<u8>) -> Seq<char> {
    sanitized(trimmed(utf8_lossy(output)))
}

/// The tasks, each with the title that its own output gives.
pub open spec fn resolved(tasks: Seq<TaskView>, outputs: Seq<Seq<u8>>) -> Seq<TaskView> {
    Seq::new(tasks.len(), |i: int| titled(tasks[i], title_of(outputs[i])))
}

/// A run before its first step.
pub open spec fn initial() -> PipelineView {
    PipelineView { stage: Stage::Bootstrapping, playlists: Seq::empty(), tasks: Seq::empty() }
}

/// What a run asks for first.
pub open spec fn first_action() -> ActionView {
    ActionView::Bootstrap { directory: OUTPUT_DIR@, input_file: INPUT_FILE@ }
}

/// The step that `event` causes in `state`: the state after it and what to
/// do next, or why the event is refused.
pub open spec fn next(state: PipelineView, event: EventView) -> Result<
    (PipelineView, ActionView),
    PipelineError,
> {
    match (state.stage, event) {
        (Stage::Bootstrapping, EventView::Bootstrapped) => Ok(
            (
                PipelineView { stage: Stage::Loading, ..state },
                ActionView::ReadInput { path: INPUT_FILE@ },
            ),
        ),
        (Stage::Loading, EventView::InputRead(contents)) => Ok(
            (
                PipelineView {
                    stage: Stage::Expanding,
                    playlists: playlists_of(contents),
                    tasks: untitled_all(videos_of(contents)),
                },
                ActionView::Run { commands: listing_commands_of(playlists_of(contents)) },
            ),
        ),
        (Stage::Expanding, EventView::Outputs(listings)) => {
            if listings.len() != state.playlists.len() {
                Err(PipelineError::OutputCount)
            } else if !readable(listings) {
                Err(PipelineError::UnreadableListing)
            } else {
                let tasks = state.tasks + untitled_all(expanded(listings));
                Ok(
                    (
                        PipelineView { stage: Stage::Resolving, tasks, ..state },
                        ActionView::Run { commands: title_commands_of(tasks) },
                    ),
                )
            }
        },
        (Stage::Resolving, EventView::Outputs(outputs)) => {
            if outputs.len() != state.tasks.len() {
                Err(PipelineError::OutputCount)
            } else {
                let tasks = resolved(state.tasks, outputs);
                Ok(
                    (
                        PipelineView { stage: Stage::Downloading, tasks, ..state },
                        ActionView::Run { commands: download_commands_of(tasks) },
                    ),
                )
            }
        },
        (Stage::Downloading, EventView::Outputs(outputs)) => {
            if outputs.len() != state.tasks.len() {
                Err(PipelineError::OutputCount)
            } else {
                Ok((PipelineView { stage: Stage::Finished, ..state }, ActionView::Finish))
            }
        },
        _ => Err(PipelineError::UnexpectedEvent),
    }
}

/// What holds of a run at every stage: nothing is known before the input is
/// read, no task has a title before the titles are resolved, and from then on
/// every task has one, free of separators.
pub open spec fn well_formed(state: PipelineView) -> bool {
    match state.stage {
        Stage::Bootstrapping | Stage::Loading => state.playlists.len() == 0 && state.tasks.len()
            == 0,
        Stage::Expanding | Stage::Resolving => forall|i: int|
            0 <= i < state.tasks.len() ==> (#[trigger] state.tasks[i]).title is None,
        Stage::Downloading | Stage::Finished => forall|i: int|
            0 <= i < state.tasks.len() ==> {
                &&& (#[trigger] state.tasks[i]).title is Some
                &&& is_clean(state.tasks[i].title->0)
            },
    }
}

/// A run starts well-formed.
pub proof fn lemma_initial_well_formed()
    ensures
        well_formed(initial()),
{
}

/// Every accepted step of a well-formed run leads to a well-formed run.
pub proof fn lemma_next_keeps_well_formed(state: PipelineView, event: EventView)
    requires
        well_formed(state),
        next(state, event) is Ok,
    ensures
        well_formed(next(state, event)->Ok_0.0),
{
    let after = next(state, event)->Ok_0.0;
    match (state.stage, event) {
        (Stage::Resolving, EventView::Outputs(outputs)) => {
            assert forall|i: int| 0 <= i < after.tasks.len() implies {
                &&& (#[trigger] after.tasks[i]).title is Some
                &&& is_clean(after.tasks[i].title->0)
            } by {
                lemma_sanitized_is_clean(trimmed(utf8_lossy(outputs[i])));
            }
        },
        _ => {},
    }
}

/// Steps never change the link of a task that exists, and never drop one:
/// the tasks before an accepted step are, by their links, a prefix of the
/// tasks after it, once the input has been read.
pub proof fn lemma_next_keeps_links(state: PipelineView, event: EventView, i: int)
    requires
        next(state, event) is Ok,
        state.stage != Stage::Loading,
        0 <= i < state.tasks.len(),
    ensures
        i < next(state, event)->Ok_0.0.tasks.len(),
        next(state, event)->Ok_0.0.tasks[i].link == state.tasks[i].link,
{
}

/// The title of a task depends on the output for that task alone: whatever
/// the tool printed for the others, or failed to print, a task whose own
/// output is the same gets the same title and keeps its link.
pub proof fn lemma_resolved_independent(
    tasks: Seq<TaskView>,
    first: Seq<Seq<u8>>,
    second: Seq<Seq<u8>>,
    i: int,
)
    requires
        0 <= i < tasks.len(),
        first.len() == tasks.len(),
        second.len() == tasks.len(),
        first[i] == second[i],
    ensures
        resolved(tasks, first)[i] == resolved(tasks, second)[i],
        resolved(tasks, first)[i] == titled(tasks[i], title_of(first[i])),
{
}

/// The download command of a task depends on that task alone.
pub proof fn lemma_download_independent(first: Seq<TaskView>, second: Seq<TaskView>, i: int)
    requires
        0 <= i < first.len(),
        0 <= i < second.len(),
        first[i] == second[i],
    ensures
        download_commands_of(first)[i] == download_commands_of(second)[i],
{
}

/// A run: its stage, the playlists it found and the tasks it has so far.
pub struct Pipeline {
    stage: Stage,
    playlists: Vec<String>,
    tasks: Vec<VideoTask>,
}

impl View for Pipeline {
    type V = PipelineView;

    closed spec fn view(&self) -> PipelineView {
        PipelineView {
            stage: self.stage,
            playlists: views(self.playlists@),
            tasks: task_views(self.tasks@),
        }
    }
}

/// One task without a title for each link, in order.
fn untitled_tasks(links: &Vec<String>) -> (tasks: Vec<VideoTask>)
    ensures
        task_views(tasks@) == untitled_all(views(links@)),
{
    let mut tasks: Vec<VideoTask> = Vec::new();
    for i in 0..links.len()
        invariant
            task_views(tasks@) == untitled_all(views(links@).take(i as int)),
    {
        let task = VideoTask::new(links[i].clone());
        proof {
            assert(task_views(tasks@.push(task)) =~= task_views(tasks@).push(task@));
            assert(views(links@).take(i + 1) =~= views(links@).take(i as int).push(links@[i as int]@));
            assert(untitled_all(views(links@).take(i + 1)) =~= untitled_all(
                views(links@).take(i as int),
            ).push(task@));
        }
        tasks.push(task);
    }
    proof {
        assert(views(links@).take(links.len() as int) =~= views(links@));
    }
    tasks
}

/// The listing command of each playlist, in order.
fn listing_commands(playlists: &Vec<String>) -> (commands: Vec<Vec<String>>)
    ensures
        command_views(commands@) == listing_commands_of(views(playlists@)),
{
    let mut commands: Vec<Vec<String>> = Vec::new();
    for i in 0..playlists.len()
        invariant
            command_views(commands@) == listing_commands_of(views(playlists@).take(i as int)),
    {
        let command = listing_args(playlists[i].as_str());
        proof {
            assert(command_views(commands@.push(command)) =~= command_views(commands@).push(
                views(command@),
            ));
            assert(views(playlists@).take(i + 1) =~= views(playlists@).take(i as int).push(
                playlists@[i as int]@,
            ));
            assert(listing_commands_of(views(playlists@).take(i + 1)) =~= listing_commands_of(
                views(playlists@).take(i as int),
            ).push(views(command@)));
        }
        commands.push(command);
    }
    proof {
        assert(views(playlists@).take(playlists.len() as int) =~= views(playlists@));
    }
    commands
}

/// The title command of each task, in order.
fn title_commands(tasks: &Vec<VideoTask>) -> (commands: Vec<Vec<String>>)
    ensures
        command_views(commands@) == title_commands_of(task_views(tasks@)),
{
    let mut commands: Vec<Vec<String>> = Vec::new();
    for i in 0..tasks.len()
        invariant
            command_views(commands@) == title_commands_of(task_views(tasks@).take(i as int)),
    {
        let command = title_args(tasks[i].link.as_str());
        proof {
            assert(command_views(commands@.push(command)) =~= command_views(commands@).push(
                views(command@),
            ));
            assert(task_views(tasks@).take(i + 1) =~= task_views(tasks@).take(i as int).push(
                tasks@[i as int]@,
            ));
            assert(title_commands_of(task_views(tasks@).take(i + 1)) =~= title_commands_of(
                task_views(tasks@).take(i as int),
            ).push(views(command@)));
        }
        commands.push(command);
    }
    proof {
        assert(task_views(tasks@).take(tasks.len() as int) =~= task_views(tasks@));
    }
    commands
}

/// The download command of each task, in order.
fn download_commands(tasks: &Vec<VideoTask>) -> (commands: Vec<Vec<String>>)
    ensures
        command_views(commands@) == download_commands_of(task_views(tasks@)),
{
    let mut commands: Vec<Vec<String>> = Vec::new();
    for i in 0..tasks.len()
        invariant
            command_views(commands@) == download_commands_of(task_views(tasks@).take(i as int)),
    {
        let command = download_args(&tasks[i]);
        proof {
            assert(command_views(commands@.push(command)) =~= command_views(commands@).push(
                views(command@),
            ));
            assert(task_views(tasks@).take(i + 1) =~= task_views(tasks@).take(i as int).push(
                tasks@[i as int]@,
            ));
            assert(download_commands_of(task_views(tasks@).take(i + 1))
                =~= download_commands_of(task_views(tasks@).take(i as int)).push(
                views(command@),
            ));
        }
        commands.push(command);
    }
    proof {
        assert(task_views(tasks@).take(tasks.len() as int) =~= task_views(tasks@));
    }
    commands
}

/// The member links of all the listings, playlist after playlist; `None` if
/// one of them is not well-formed UTF-8.
fn expand(listings: &Vec<Vec<u8>>) -> (members: Option<Vec<String>>)
    ensures
        members is Some <==> readable(byte_views(listings@)),
        members matches Some(m) ==> views(m@) == expanded(byte_views(listings@)),
{
    let mut all: Vec<String> = Vec::new();
    let ghost decode = |listing: Seq<u8>| lines_of(decode_utf8(listing));
    proof {
        assert(byte_views(listings@).take(0).map_values(decode) =~= Seq::empty());
        assert(views(all@) =~= Seq::empty());
    }
    for i in 0..listings.len()
        invariant
            decode == |listing: Seq<u8>| lines_of(decode_utf8(listing)),
            readable(byte_views(listings@).take(i as int)),
            views(all@) == byte_views(listings@).take(i as int).map_values(decode).flatten(),
    {
        let ghost before = all@;
        let ghost listing = byte_views(listings@)[i as int];
        match playlist_members(listings[i].as_slice()) {
            Some(mut found) => {
                let ghost lines = found@;
                all.append(&mut found);
                proof {
                    let done = byte_views(listings@).take(i as int);
                    assert(byte_views(listings@).take(i + 1) =~= done.push(listing));
                    assert(done.push(listing).map_values(decode) =~= done.map_values(decode).push(
                        decode(listing),
                    ));
                    done.map_values(decode).lemma_flatten_push(decode(listing));
                    assert(views(before + lines) =~= views(before) + views(lines));
                    assert forall|k: int|
                        0 <= k < i + 1 implies valid_utf8(
                        #[trigger] byte_views(listings@).take(i + 1)[k],
                    ) by {
                        if k < i {
                            assert(byte_views(listings@).take(i + 1)[k] == done[k]);
                        }
                    }
                }
            },
            None => {
                proof {
                    assert(!valid_utf8(byte_views(listings@)[i as int]));
                }
                return None;
            },
        }
    }
    proof {
        assert(byte_views(listings@).take(listings.len() as int) =~= byte_views(listings@));
    }
    Some(all)
}

/// The tasks, each with the title that its own output gives.
fn resolve(tasks: &Vec<VideoTask>, outputs: &Vec<Vec<u8>>) -> (done: Vec<VideoTask>)
    requires
        outputs@.len() == tasks@.len(),
    ensures
        task_views(done@) == resolved(task_views(tasks@), byte_views(outputs@)),
{
    let mut done: Vec<VideoTask> = Vec::new();
    for i in 0..tasks.len()
        invariant
            outputs@.len() == tasks@.len(),
            done@.len() == i,
            forall|k: int|
                0 <= k < i ==> (#[trigger] done@[k])@ == titled(
                    tasks@[k]@,
                    title_of(outputs@[k]@),
                ),
    {
        let raw = raw_title(outputs[i].as_slice());
        let mut task = VideoTask::new(tasks[i].link.clone());
        task.set_title(sanitize(raw.as_str()));
        done.push(task);
    }
    proof {
        assert(task_views(done@) =~= resolved(task_views(tasks@), byte_views(outputs@)));
    }
    done
}

impl Pipeline {
    /// A run at its start, and the first thing to do.
    pub fn new() -> (start: (Pipeline, Action))
        ensures
            start.0@ == initial(),
            start.1@ == first_action(),
    {
        let pipeline = Pipeline {
            stage: Stage::Bootstrapping,
            playlists: Vec::new(),
            tasks: Vec::new(),
        };
        proof {
            assert(views(pipeline.playlists@) =~= Seq::empty());
            assert(task_views(pipeline.tasks@) =~= Seq::empty());
        }
        let action = Action::Bootstrap {
            directory: OUTPUT_DIR.to_owned(),
            input_file: INPUT_FILE.to_owned(),
        };
        (pipeline, action)
    }

    /// Where the run stands.
    pub fn stage(&self) -> (stage: Stage)
        ensures
            stage == self@.stage,
    {
        self.stage
    }

    /// The playlist links found in the input.
    pub fn playlists(&self) -> (playlists: &Vec<String>)
        ensures
            views(playlists@) == self@.playlists,
    {
        &self.playlists
    }

    /// The tasks so far.
    pub fn tasks(&self) -> (tasks: &Vec<VideoTask>)
        ensures
            task_views(tasks@) == self@.tasks,
    {
        &self.tasks
    }

    /// Takes `event` and says what to do next, as [`next`] defines it. A
    /// refused event changes nothing.
    pub fn step(&mut self, event: Event) -> (result: Result<Action, PipelineError>)
        ensures
            match next(old(self)@, event@) {
                Ok((state, action)) => result is Ok && result->Ok_0@ == action && final(self)@
                    == state,
                Err(error) => result is Err && result->Err_0 == error && final(self)@ == old(
                    self,
                )@,
            },
    {
        match event {
            Event::Bootstrapped => {
                if self.stage != Stage::Bootstrapping {
                    return Err(PipelineError::UnexpectedEvent);
                }
                self.stage = Stage::Loading;
                Ok(Action::ReadInput { path: INPUT_FILE.to_owned() })
            },
            Event::InputRead(contents) => {
                if self.stage != Stage::Loading {
                    return Err(PipelineError::UnexpectedEvent);
                }
                let links = classify(contents.as_str());
                let commands = listing_commands(&links.playlists);
                self.tasks = untitled_tasks(&links.videos);
                self.playlists = links.playlists;
                self.stage = Stage::Expanding;
                Ok(Action::Run { commands })
            },
            Event::Outputs(outputs) => {
                match self.stage {
                    Stage::Expanding => {
                        if outputs.len() != self.playlists.len() {
                            return Err(PipelineError::OutputCount);
                        }
                        match expand(&outputs) {
                            None => Err(PipelineError::UnreadableListing),
                            Some(members) => {
                                let ghost before = self.tasks@;
                                let mut more = untitled_tasks(&members);
                                let ghost added = more@;
                                self.tasks.append(&mut more);
                                proof {
                                    assert(task_views(before + added) =~= task_views(before)
                                        + task_views(added));
                                }
                                let commands = title_commands(&self.tasks);
                                self.stage = Stage::Resolving;
                                Ok(Action::Run { commands })
                            },
                        }
                    },
                    Stage::Resolving => {
                        if outputs.len() != self.tasks.len() {
                            return Err(PipelineError::OutputCount);
                        }
                        let done = resolve(&self.tasks, &outputs);
                        let commands = download_commands(&done);
                        self.tasks = done;
                        self.stage = Stage::Downloading;
                        Ok(Action::Run { commands })
                    },
                    Stage::Downloading => {
                        if outputs.len() != self.tasks.len() {
                            return Err(PipelineError::OutputCount);
                        }
                        self.stage = Stage::Finished;
                        Ok(Action::Finish)
                    },
                    _ => Err(PipelineError::UnexpectedEvent),
                }
            },
        }
    }
}

} // verus!
