//! The console: one store of each kind, and the commands that act on them.

use crate::command::{parse_line, parsed, Command, CommandView};
use crate::presenter::{Event, EventView};
use crate::storage::block_storage;
use crate::storage::block_storage::{BlockOp, BlockStorage, Blocks};
use crate::storage::file_storage;
use crate::storage::file_storage::{FileOp, FileStorage, Files};
use crate::storage::object_storage;
use crate::storage::object_storage::{ObjectOp, ObjectStorage, Objects};
use crate::storage::BlockError;
use crate::text::tokens;
use vstd::prelude::*;

verus! {

/// The number of blocks of a console's block store.
pub const DEFAULT_BLOCKS: usize = 5;

/// The bytes that one block of a console's block store holds.
pub const DEFAULT_BLOCK_SIZE: usize = 16;

/// What reaches the console from its input.
#[derive(Debug)]
pub enum Input {
    /// A line as it was read.
    Line(String),
    /// A line could not be read.
    Failed,
    /// The input has ended.
    End,
}

/// What an input holds.
pub enum InputView {
    Line(Seq<char>),
    Failed,
    End,
}

impl View for Input {
    type V = InputView;

    open spec fn view(&self) -> InputView {
        match *self {
            Input::Line(line) => InputView::Line(line@),
            Input::Failed => InputView::Failed,
            Input::End => InputView::End,
        }
    }
}

/// The three stores of a session, and whether the session is still running.
/// The stores start empty and know nothing of each other.
pub struct Console {
    files: FileStorage,
    objects: ObjectStorage,
    blocks: BlockStorage,
    running: bool,
}

/// What a console holds.
pub struct ConsoleView {
    pub files: Files,
    pub objects: Objects,
    pub blocks: Blocks,
    pub block_size: usize,
    pub running: bool,
}

/// A running console with empty stores.
pub open spec fn fresh(num_blocks: usize, block_size: usize) -> ConsoleView {
    ConsoleView {
        files: Files::empty(),
        objects: Objects::empty(),
        blocks: block_storage::empty_blocks(num_blocks),
        block_size,
        running: true,
    }
}

/// The console after a command. A command acts on one store at most, and
/// one that is refused changes nothing.
pub open spec fn after(state: ConsoleView, cmd: CommandView) -> ConsoleView {
    match cmd {
        CommandView::Exit => ConsoleView { running: false, ..state },
        CommandView::FileCreate { path, data } => ConsoleView {
            files: file_storage::created(state.files, path, data),
            ..state
        },
        CommandView::FileWrite { path, data } => ConsoleView {
            files: file_storage::written(state.files, path, data),
            ..state
        },
        CommandView::FileDelete { path } => ConsoleView {
            files: file_storage::deleted(state.files, path),
            ..state
        },
        CommandView::ObjectCreate { id, data, metadata } => ConsoleView {
            objects: object_storage::created(state.objects, id, data, metadata),
            ..state
        },
        CommandView::ObjectWrite { id, data } => ConsoleView {
            objects: object_storage::written(state.objects, id, data),
            ..state
        },
        CommandView::ObjectDelete { id } => ConsoleView {
            objects: object_storage::deleted(state.objects, id),
            ..state
        },
        CommandView::BlockWrite { index, data } => ConsoleView {
            blocks: block_storage::written(state.blocks, state.block_size, index, data),
            ..state
        },
        CommandView::BlockDelete { index } => ConsoleView {
            blocks: block_storage::cleared(state.blocks, index),
            ..state
        },
        _ => state,
    }
}

/// Whether `event` is what the console in `state` reports of `cmd`. All
/// but the listings of names are fixed by the state and the command; a
/// listing of names may come in any order.
pub open spec fn reports(state: ConsoleView, cmd: CommandView, event: EventView) -> bool {
    match cmd {
        CommandView::Nothing => event == EventView::Nothing,
        CommandView::Ignored => event == EventView::Nothing,
        CommandView::Exit => event == EventView::Exit,
        CommandView::Help => event == EventView::Help,
        CommandView::Invalid { engine } => event == EventView::InvalidCommand { engine },
        CommandView::Unknown => event == EventView::UnknownCommand,
        CommandView::FileCreate { path, data } => event == EventView::FileCreated { path },
        CommandView::FileRead { path } => event == match file_storage::stored(state.files, path) {
            Some(data) => EventView::FileContent { path, data },
            None => EventView::FileNotFound { path },
        },
        CommandView::FileWrite { path, data } => event == if state.files.contains_key(path) {
            EventView::FileUpdated { path }
        } else {
            EventView::FileNotFound { path }
        },
        CommandView::FileDelete { path } => event == if state.files.contains_key(path) {
            EventView::FileDeleted { path }
        } else {
            EventView::FileNotFound { path }
        },
        CommandView::FileList => event matches EventView::FileList { paths }
            && file_storage::lists(paths, state.files),
        CommandView::ObjectCreate { id, data, metadata } => event == EventView::ObjectCreated {
            id,
        },
        CommandView::ObjectRead { id } => match object_storage::stored(state.objects, id) {
            Some(record) => {
                &&& event matches EventView::ObjectContent { object, order }
                &&& object == record
                &&& order.no_duplicates()
                &&& order.to_set() == record.metadata.dom()
            },
            None => event == EventView::ObjectNotFound { id },
        },
        CommandView::ObjectWrite { id, data } => event == if state.objects.contains_key(id) {
            EventView::ObjectUpdated { id }
        } else {
            EventView::ObjectNotFound { id }
        },
        CommandView::ObjectDelete { id } => event == if state.objects.contains_key(id) {
            EventView::ObjectDeleted { id }
        } else {
            EventView::ObjectNotFound { id }
        },
        CommandView::ObjectList => event matches EventView::ObjectList { ids }
            && object_storage::lists(ids, state.objects),
        CommandView::BlockWrite { index, data } => event == match block_storage::write_outcome(
            state.blocks,
            state.block_size,
            index,
            data,
        ) {
            Ok(_) => EventView::BlockWritten { index },
            Err(BlockError::InvalidIndex) => EventView::InvalidIndex,
            Err(BlockError::TooLarge { max }) => EventView::TooLarge { max },
        },
        CommandView::BlockRead { index } => event == match block_storage::stored(
            state.blocks,
            index,
        ) {
            Some(data) => EventView::BlockContent { index, data },
            None => EventView::BlockEmpty { index },
        },
        CommandView::BlockDelete { index } => event == match block_storage::delete_outcome(
            state.blocks,
            index,
        ) {
            Ok(_) => EventView::BlockCleared { index },
            Err(_) => EventView::InvalidIndex,
        },
        CommandView::BlockList => event == EventView::BlockList { slots: state.blocks },
    }
}

/// The console after an input. A console that has stopped stays as it is;
/// a running one follows the command of a line, and stops where the input
/// ends.
pub open spec fn stepped(state: ConsoleView, input: InputView) -> ConsoleView {
    if !state.running {
        state
    } else {
        match input {
            InputView::Line(line) => after(state, parsed(tokens(line))),
            InputView::Failed => state,
            InputView::End => ConsoleView { running: false, ..state },
        }
    }
}

/// Whether `event` is what the console in `state` reports of `input`.
pub open spec fn answers(state: ConsoleView, input: InputView, event: EventView) -> bool {
    if !state.running {
        event == EventView::Nothing
    } else {
        match input {
            InputView::Line(line) => reports(state, parsed(tokens(line)), event),
            InputView::Failed => event == EventView::ReadError,
            InputView::End => event == EventView::Exit,
        }
    }
}

/// The console after a sequence of commands, the first one first.
pub open spec fn ran(state: ConsoleView, cmds: Seq<CommandView>) -> ConsoleView
    decreases cmds.len(),
{
    if cmds.len() == 0 {
        state
    } else {
        after(ran(state, cmds.drop_last()), cmds.last())
    }
}

/// Whether `cmd` asks for a change that the console in `state` refuses.
pub open spec fn refused(state: ConsoleView, cmd: CommandView) -> bool {
    match cmd {
        CommandView::FileWrite { path, .. } => !state.files.contains_key(path),
        CommandView::FileDelete { path } => !state.files.contains_key(path),
        CommandView::ObjectWrite { id, .. } => !state.objects.contains_key(id),
        CommandView::ObjectDelete { id } => !state.objects.contains_key(id),
        CommandView::BlockWrite { index, data } => block_storage::write_outcome(
            state.blocks,
            state.block_size,
            index,
            data,
        ) is Err,
        CommandView::BlockDelete { index } => block_storage::delete_outcome(
            state.blocks,
            index,
        ) is Err,
        _ => false,
    }
}

/// The changes to the file store among a sequence of commands.
pub open spec fn file_ops(cmds: Seq<CommandView>) -> Seq<FileOp>
    decreases cmds.len(),
{
    if cmds.len() == 0 {
        Seq::empty()
    } else {
        let earlier = file_ops(cmds.drop_last());
        match cmds.last() {
            CommandView::FileCreate { path, data } => earlier.push(FileOp::Create { path, data }),
            CommandView::FileWrite { path, data } => earlier.push(FileOp::Write { path, data }),
            CommandView::FileDelete { path } => earlier.push(FileOp::Delete { path }),
            _ => earlier,
        }
    }
}

/// The changes to the object store among a sequence of commands.
pub open spec fn object_ops(cmds: Seq<CommandView>) -> Seq<ObjectOp>
    decreases cmds.len(),
{
    if cmds.len() == 0 {
        Seq::empty()
    } else {
        let earlier = object_ops(cmds.drop_last());
        match cmds.last() {
            CommandView::ObjectCreate { id, data, metadata } => earlier.push(
                ObjectOp::Create { id, data, metadata },
            ),
            CommandView::ObjectWrite { id, data } => earlier.push(ObjectOp::Write { id, data }),
            CommandView::ObjectDelete { id } => earlier.push(ObjectOp::Delete { id }),
            _ => earlier,
        }
    }
}

/// The changes to the block store among a sequence of commands.
pub open spec fn block_ops(cmds: Seq<CommandView>) -> Seq<BlockOp>
    decreases cmds.len(),
{
    if cmds.len() == 0 {
        Seq::empty()
    } else {
        let earlier = block_ops(cmds.drop_last());
        match cmds.last() {
            CommandView::BlockWrite { index, data } => earlier.push(
                BlockOp::Write { index, data },
            ),
            CommandView::BlockDelete { index } => earlier.push(BlockOp::Delete { index }),
            _ => earlier,
        }
    }
}

/// A command that is refused leaves every store as it was.
pub proof fn lemma_refused_changes_nothing(state: ConsoleView, cmd: CommandView)
    requires
        refused(state, cmd),
    ensures
        after(state, cmd) == state,
{
    match cmd {
        CommandView::FileDelete { path } => {
            file_storage::lemma_refused_changes_nothing(state.files, path, Seq::empty());
        },
        CommandView::ObjectDelete { id } => {
            object_storage::lemma_refused_changes_nothing(state.objects, id, Seq::empty());
        },
        _ => {},
    }
}

/// Each store goes its own way: after any sequence of commands it holds
/// what the commands of its own engine make of it, whatever was asked of
/// the other two. The block size never changes.
pub proof fn lemma_stores_independent(state: ConsoleView, cmds: Seq<CommandView>)
    ensures
        ran(state, cmds).files == file_storage::replayed(state.files, file_ops(cmds)),
        ran(state, cmds).objects == object_storage::replayed(state.objects, object_ops(cmds)),
        ran(state, cmds).blocks == block_storage::replayed(
            state.blocks,
            state.block_size,
            block_ops(cmds),
        ),
        ran(state, cmds).block_size == state.block_size,
    decreases cmds.len(),
{
    if cmds.len() > 0 {
        let earlier = cmds.drop_last();
        lemma_stores_independent(state, earlier);
        match cmds.last() {
            CommandView::FileCreate { path, data } => {
                assert(file_ops(cmds).drop_last() =~= file_ops(earlier));
            },
            CommandView::FileWrite { path, data } => {
                assert(file_ops(cmds).drop_last() =~= file_ops(earlier));
            },
            CommandView::FileDelete { path } => {
                assert(file_ops(cmds).drop_last() =~= file_ops(earlier));
            },
            CommandView::ObjectCreate { id, data, metadata } => {
                assert(object_ops(cmds).drop_last() =~= object_ops(earlier));
            },
            CommandView::ObjectWrite { id, data } => {
                assert(object_ops(cmds).drop_last() =~= object_ops(earlier));
            },
            CommandView::ObjectDelete { id } => {
                assert(object_ops(cmds).drop_last() =~= object_ops(earlier));
            },
            CommandView::BlockWrite { index, data } => {
                assert(block_ops(cmds).drop_last() =~= block_ops(earlier));
            },
            CommandView::BlockDelete { index } => {
                assert(block_ops(cmds).drop_last() =~= block_ops(earlier));
            },
            _ => {},
        }
    }
}

/// Whether `cmd` is an `object create` or an `object delete` of `id`.
pub open spec fn renews(cmd: CommandView, id: Seq<char>) -> bool {
    match cmd {
        CommandView::ObjectCreate { id: target, .. } => target == id,
        CommandView::ObjectDelete { id: target } => target == id,
        _ => false,
    }
}

/// The attributes of a stored object are those that a read reports, through
/// any commands among which there is no `object create` and no `object
/// delete` of its identifier.
pub proof fn lemma_attributes_last(state: ConsoleView, id: Seq<char>, cmds: Seq<CommandView>)
    requires
        state.objects.contains_key(id),
        forall|k: int| 0 <= k < cmds.len() ==> !renews(#[trigger] cmds[k], id),
    ensures
        ran(state, cmds).objects.contains_key(id),
        ran(state, cmds).objects[id].metadata == state.objects[id].metadata,
        forall|event: EventView| #[trigger]
            reports(ran(state, cmds), CommandView::ObjectRead { id }, event) ==> (
            event matches EventView::ObjectContent { object, .. } && object.metadata
                == state.objects[id].metadata),
    decreases cmds.len(),
{
    if cmds.len() > 0 {
        lemma_attributes_last(state, id, cmds.drop_last());
    }
}

/// After any sequence of commands to a fresh console, the number of files
/// is the number of `file create` commands that found their path not
/// stored, minus the number of `file delete` commands that found theirs.
pub proof fn lemma_file_count(num_blocks: usize, block_size: usize, cmds: Seq<CommandView>)
    ensures
        ran(fresh(num_blocks, block_size), cmds).files.dom().finite(),
        ran(fresh(num_blocks, block_size), cmds).files.len() == file_storage::additions(
            Files::empty(),
            file_ops(cmds),
        ) - file_storage::removals(Files::empty(), file_ops(cmds)),
{
    lemma_stores_independent(fresh(num_blocks, block_size), cmds);
    file_storage::lemma_size(Files::empty(), file_ops(cmds));
}

/// After any sequence of commands to a fresh console, the block store has
/// the slots it was made with, each empty or holding at most `block_size`
/// bytes.
pub proof fn lemma_block_bounds(num_blocks: usize, block_size: usize, cmds: Seq<CommandView>)
    ensures
        ran(fresh(num_blocks, block_size), cmds).blocks.len() == num_blocks,
        ran(fresh(num_blocks, block_size), cmds).block_size == block_size,
        block_storage::within_limit(ran(fresh(num_blocks, block_size), cmds).blocks, block_size),
{
    lemma_stores_independent(fresh(num_blocks, block_size), cmds);
    block_storage::lemma_bounds_from_new(num_blocks, block_size, block_ops(cmds));
}

/// The session goes on after an input exactly if it was going on before,
/// the input has not ended, and the line is no `exit`. A console that has
/// stopped stays as it is.
pub proof fn lemma_stops(state: ConsoleView, input: InputView)
    ensures
        stepped(state, input).running <==> state.running && (match input {
            InputView::Line(line) => !(parsed(tokens(line)) is Exit),
            InputView::Failed => true,
            InputView::End => false,
        }),
        !state.running ==> stepped(state, input) == state,
{
}

impl View for Console {
    type V = ConsoleView;

    closed spec fn view(&self) -> ConsoleView {
        ConsoleView {
            files: self.files@,
            objects: self.objects@,
            blocks: self.blocks@,
            block_size: self.blocks.block_size(),
            running: self.running,
        }
    }
}

impl Console {
    /// A running console with empty stores: five blocks of sixteen bytes.
    pub fn new() -> (console: Self)
        ensures
            console@ == fresh(DEFAULT_BLOCKS, DEFAULT_BLOCK_SIZE),
    {
        Console::with_blocks(DEFAULT_BLOCKS, DEFAULT_BLOCK_SIZE)
    }

    /// A running console with empty stores and the given block store.
    pub fn with_blocks(num_blocks: usize, block_size: usize) -> (console: Self)
        ensures
            console@ == fresh(num_blocks, block_size),
    {
        Console {
            files: FileStorage::new(),
            objects: ObjectStorage::new(),
            blocks: BlockStorage::new(num_blocks, block_size),
            running: true,
        }
    }

    /// Whether the session goes on.
    pub fn is_running(&self) -> (running: bool)
        ensures
            running == self@.running,
    {
        self.running
    }

    /// The file store.
    pub fn files(&self) -> (files: &FileStorage)
        ensures
            files@ == self@.files,
    {
        &self.files
    }

    /// The object store.
    pub fn objects(&self) -> (objects: &ObjectStorage)
        ensures
            objects@ == self@.objects,
    {
        &self.objects
    }

    /// The block store.
    pub fn blocks(&self) -> (blocks: &BlockStorage)
        ensures
            blocks@ == self@.blocks,
            blocks.block_size() == self@.block_size,
    {
        &self.blocks
    }

    /// Carries out a command on the store that it names.
    pub fn execute(&mut self, cmd: Command) -> (event: Event)
        ensures
            final(self)@ == after(old(self)@, cmd@),
            reports(old(self)@, cmd@, event@),
    {
        match cmd {
            Command::Nothing => Event::Nothing,
            Command::Ignored => Event::Nothing,
            Command::Exit => {
                self.running = false;
                Event::Exit
            },
            Command::Help => Event::Help,
            Command::Invalid { engine } => Event::InvalidCommand { engine },
            Command::Unknown => Event::UnknownCommand,
            Command::FileCreate { path, data } => {
                self.files.create(path.as_str(), data.as_str());
                Event::FileCreated { path }
            },
            Command::FileRead { path } => match self.files.read(path.as_str()) {
                Some(data) => {
                    let data = data.clone();
                    Event::FileContent { path, data }
                },
                None => Event::FileNotFound { path },
            },
            Command::FileWrite { path, data } => match self.files.write(
                path.as_str(),
                data.as_str(),
            ) {
                Ok(_) => Event::FileUpdated { path },
                Err(_) => Event::FileNotFound { path },
            },
            Command::FileDelete { path } => match self.files.delete(path.as_str()) {
                Ok(_) => Event::FileDeleted { path },
                Err(_) => Event::FileNotFound { path },
            },
            Command::FileList => Event::FileList { paths: self.files.list() },
            Command::ObjectCreate { id, data, metadata } => {
                self.objects.create(id.as_str(), data.as_str(), metadata);
                Event::ObjectCreated { id }
            },
            Command::ObjectRead { id } => match self.objects.read(id.as_str()) {
                Some(object) => Event::ObjectContent { object: object.clone() },
                None => Event::ObjectNotFound { id },
            },
            Command::ObjectWrite { id, data } => match self.objects.write(
                id.as_str(),
                data.as_str(),
            ) {
                Ok(_) => Event::ObjectUpdated { id },
                Err(_) => Event::ObjectNotFound { id },
            },
            Command::ObjectDelete { id } => match self.objects.delete(id.as_str()) {
                Ok(_) => Event::ObjectDeleted { id },
                Err(_) => Event::ObjectNotFound { id },
            },
            Command::ObjectList => Event::ObjectList { ids: self.objects.list() },
            Command::BlockWrite { index, data } => match self.blocks.write(index, data.as_str()) {
                Ok(_) => Event::BlockWritten { index },
                Err(BlockError::InvalidIndex) => Event::InvalidIndex,
                Err(BlockError::TooLarge { max }) => Event::TooLarge { max },
            },
            Command::BlockRead { index } => match self.blocks.read(index) {
                Some(data) => {
                    let data = data.clone();
                    Event::BlockContent { index, data }
                },
                None => Event::BlockEmpty { index },
            },
            Command::BlockDelete { index } => match self.blocks.delete(index) {
                Ok(_) => Event::BlockCleared { index },
                Err(_) => Event::InvalidIndex,
            },
            Command::BlockList => {
                let slots = self.blocks.list().clone();
                Event::BlockList { slots }
            },
        }
    }

    /// Reads a line as a command and carries it out.
    pub fn run_line(&mut self, line: &str) -> (event: Event)
        ensures
            final(self)@ == after(old(self)@, parsed(tokens(line@))),
            reports(old(self)@, parsed(tokens(line@)), event@),
    {
        let cmd = parse_line(line);
        self.execute(cmd)
    }

    /// Takes one input: the next state of the session, and what to report.
    pub fn step(&mut self, input: Input) -> (event: Event)
        ensures
            final(self)@ == stepped(old(self)@, input@),
            answers(old(self)@, input@, event@),
    {
        if !self.running {
            return Event::Nothing;
        }
        match input {
            Input::Line(line) => self.run_line(line.as_str()),
            Input::Failed => Event::ReadError,
            Input::End => {
                self.running = false;
                Event::Exit
            },
        }
    }
}

} // verus!
