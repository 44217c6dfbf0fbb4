//! What the console has to say, and how it is put into lines of text.

use crate::command::Engine;
use crate::storage::object_storage::{Object, ObjectView};
use crate::text::{decimal, format_decimal};
use vstd::prelude::*;
use vstd::string::StringExecFns;

verus! {

/// What happened when an input was handled.
#[derive(Debug)]
pub enum Event {
    /// Nothing to report.
    Nothing,
    /// The session is over.
    Exit,
    Help,
    /// A line could not be read.
    ReadError,
    FileCreated { path: String },
    FileContent { path: String, data: String },
    FileUpdated { path: String },
    FileDeleted { path: String },
    FileNotFound { path: String },
    FileList { paths: Vec<String> },
    ObjectCreated { id: String },
    ObjectContent { object: Object },
    ObjectUpdated { id: String },
    ObjectDeleted { id: String },
    ObjectNotFound { id: String },
    ObjectList { ids: Vec<String> },
    BlockWritten { index: usize },
    BlockContent { index: usize, data: String },
    /// The slot is empty, or there is no such slot.
    BlockEmpty { index: usize },
    BlockCleared { index: usize },
    InvalidIndex,
    TooLarge { max: usize },
    BlockList { slots: Vec<Option<String>> },
    InvalidCommand { engine: Engine },
    UnknownCommand,
}

/// What an event holds. An object comes with the order in which its
/// attributes are shown.
pub enum EventView {
    Nothing,
    Exit,
    Help,
    ReadError,
    FileCreated { path: Seq<char> },
    FileContent { path: Seq<char>, data: Seq<char> },
    FileUpdated { path: Seq<char> },
    FileDeleted { path: Seq<char> },
    FileNotFound { path: Seq<char> },
    FileList { paths: Seq<Seq<char>> },
    ObjectCreated { id: Seq<char> },
    ObjectContent { object: ObjectView, order: Seq<Seq<char>> },
    ObjectUpdated { id: Seq<char> },
    ObjectDeleted { id: Seq<char> },
    ObjectNotFound { id: Seq<char> },
    ObjectList { ids: Seq<Seq<char>> },
    BlockWritten { index: usize },
    BlockContent { index: usize, data: Seq<char> },
    BlockEmpty { index: usize },
    BlockCleared { index: usize },
    InvalidIndex,
    TooLarge { max: usize },
    BlockList { slots: Seq<Option<Seq<char>>> },
    InvalidCommand { engine: Engine },
    UnknownCommand,
}

impl View for Event {
    type V = EventView;

    open spec fn view(&self) -> EventView {
        match *self {
            Event::Nothing => EventView::Nothing,
            Event::Exit => EventView::Exit,
            Event::Help => EventView::Help,
            Event::ReadError => EventView::ReadError,
            Event::FileCreated { path } => EventView::FileCreated { path: path@ },
            Event::FileContent { path, data } => EventView::FileContent {
                path: path@,
                data: data@,
            },
            Event::FileUpdated { path } => EventView::FileUpdated { path: path@ },
            Event::FileDeleted { path } => EventView::FileDeleted { path: path@ },
            Event::FileNotFound { path } => EventView::FileNotFound { path: path@ },
            Event::FileList { paths } => EventView::FileList { paths: paths.deep_view() },
            Event::ObjectCreated { id } => EventView::ObjectCreated { id: id@ },
            Event::ObjectContent { object } => EventView::ObjectContent {
                object: object@,
                order: object.metadata.order(),
            },
            Event::ObjectUpdated { id } => EventView::ObjectUpdated { id: id@ },
            Event::ObjectDeleted { id } => EventView::ObjectDeleted { id: id@ },
            Event::ObjectNotFound { id } => EventView::ObjectNotFound { id: id@ },
            Event::ObjectList { ids } => EventView::ObjectList { ids: ids.deep_view() },
            Event::BlockWritten { index } => EventView::BlockWritten { index },
            Event::BlockContent { index, data } => EventView::BlockContent { index, data: data@ },
            Event::BlockEmpty { index } => EventView::BlockEmpty { index },
            Event::BlockCleared { index } => EventView::BlockCleared { index },
            Event::InvalidIndex => EventView::InvalidIndex,
            Event::TooLarge { max } => EventView::TooLarge { max },
            Event::BlockList { slots } => EventView::BlockList { slots: slots.deep_view() },
            Event::InvalidCommand { engine } => EventView::InvalidCommand { engine },
            Event::UnknownCommand => EventView::UnknownCommand,
        }
    }
}

/// The line that greets the user.
pub open spec fn welcome_text() -> Seq<char> {
    "Welcome to Storage CLI (file, object, block). Type 'help' for commands, 'exit' to quit."@
}

/// What stands before each input.
pub open spec fn prompt_text() -> Seq<char> {
    "> "@
}

/// The catalogue of commands.
pub open spec fn help_lines() -> Seq<Seq<char>> {
    seq![
        "Commands:"@,
        " file create <path> <data>"@,
        " file read <path>"@,
        " file write <path> <data>"@,
        " file delete <path>"@,
        " file list"@,
        " object create <id> <data> key=val ..."@,
        " object read <id>"@,
        " object write <id> <data>"@,
        " object delete <id>"@,
        " object list"@,
        " block write <index> <data>"@,
        " block read <index>"@,
        " block delete <index>"@,
        " block list"@,
    ]
}

/// One line of a listing of names.
pub open spec fn item_line(name: Seq<char>) -> Seq<char> {
    " - "@ + name
}

/// A listing of names under a title.
pub open spec fn listing(title: Seq<char>, names: Seq<Seq<char>>) -> Seq<Seq<char>> {
    seq![title] + names.map_values(|name: Seq<char>| item_line(name))
}

/// The line of a listing of blocks for the slot at `index`.
pub open spec fn block_line(index: int, slot: Option<Seq<char>>) -> Seq<char> {
    " - Block "@ + decimal(index as nat) + ": "@ + match slot {
        Some(data) => data,
        None => "empty"@,
    }
}

/// A listing of all slots in index order.
pub open spec fn block_listing(slots: Seq<Option<Seq<char>>>) -> Seq<Seq<char>> {
    seq!["Blocks:"@] + Seq::new(slots.len(), |i: int| block_line(i, slots[i]))
}

/// One attribute as it is shown: key and value in double quotes.
pub open spec fn shown_pair(key: Seq<char>, value: Seq<char>) -> Seq<char> {
    "\""@ + key + "\": \""@ + value + "\""@
}

/// The attributes with the keys of `order`, separated by commas.
pub open spec fn shown_pairs(order: Seq<Seq<char>>, metadata: Map<Seq<char>, Seq<char>>) -> Seq<
    char,
>
    decreases order.len(),
{
    if order.len() == 0 {
        Seq::empty()
    } else if order.len() == 1 {
        shown_pair(order[0], metadata[order[0]])
    } else {
        shown_pairs(order.drop_last(), metadata) + ", "@ + shown_pair(
            order.last(),
            metadata[order.last()],
        )
    }
}

/// A record as it is shown. Names and payloads are shown as they are, with
/// nothing escaped.
pub open spec fn shown_object(object: ObjectView, order: Seq<Seq<char>>) -> Seq<char> {
    "Object { id: \""@ + object.id + "\", data: \""@ + object.data + "\", metadata: {"@
        + shown_pairs(order, object.metadata) + "} }"@
}

/// The name of an engine as the user types it.
pub open spec fn engine_name(engine: Engine) -> Seq<char> {
    match engine {
        Engine::File => "file"@,
        Engine::Object => "object"@,
        Engine::Block => "block"@,
    }
}

/// The lines that an event is reported with.
pub open spec fn rendered(event: EventView) -> Seq<Seq<char>> {
    match event {
        EventView::Nothing => Seq::empty(),
        EventView::Exit => Seq::empty(),
        EventView::Help => help_lines(),
        EventView::ReadError => seq!["Error reading input."@],
        EventView::FileCreated { path } => seq!["File created: "@ + path],
        EventView::FileContent { path, data } => seq!["Reading "@ + path + ": "@ + data],
        EventView::FileUpdated { path } => seq!["File updated: "@ + path],
        EventView::FileDeleted { path } => seq!["File deleted: "@ + path],
        EventView::FileNotFound { path } => seq!["File not found: "@ + path],
        EventView::FileList { paths } => listing("Files:"@, paths),
        EventView::ObjectCreated { id } => seq!["Object created: "@ + id],
        EventView::ObjectContent { object, order } => seq![
            "Reading "@ + object.id + ": "@ + shown_object(object, order),
        ],
        EventView::ObjectUpdated { id } => seq!["Object updated: "@ + id],
        EventView::ObjectDeleted { id } => seq!["Object deleted: "@ + id],
        EventView::ObjectNotFound { id } => seq!["Object not found: "@ + id],
        EventView::ObjectList { ids } => listing("Objects:"@, ids),
        EventView::BlockWritten { index } => seq![
            "Data written to block "@ + decimal(index as nat),
        ],
        EventView::BlockContent { index, data } => seq![
            "Reading block "@ + decimal(index as nat) + ": "@ + data,
        ],
        EventView::BlockEmpty { index } => seq![
            "Block "@ + decimal(index as nat) + " is empty or invalid"@,
        ],
        EventView::BlockCleared { index } => seq!["Block "@ + decimal(index as nat) + " cleared"@],
        EventView::InvalidIndex => seq!["Invalid block index!"@],
        EventView::TooLarge { max } => seq![
            "Data too large for block (max "@ + decimal(max as nat) + " bytes)"@,
        ],
        EventView::BlockList { slots } => block_listing(slots),
        EventView::InvalidCommand { engine } => seq![
            "Invalid "@ + engine_name(engine) + " command"@,
        ],
        EventView::UnknownCommand => seq!["Unknown command, type 'help'"@],
    }
}

/// The line that greets the user.
pub fn welcome() -> (line: String)
    ensures
        line@ == welcome_text(),
{
    let line =
        "Welcome to Storage CLI (file, object, block). Type 'help' for commands, 'exit' to quit.";
    line.to_owned()
}

/// What stands before each input.
pub fn prompt() -> (text: String)
    ensures
        text@ == prompt_text(),
{
    "> ".to_owned()
}

fn join2(a: &str, b: &str) -> (text: String)
    ensures
        text@ == a@ + b@,
{
    let mut text = a.to_owned();
    text.append(b);
    text
}

fn join3(a: &str, b: &str, c: &str) -> (text: String)
    ensures
        text@ == a@ + b@ + c@,
{
    let mut text = join2(a, b);
    text.append(c);
    text
}

fn join4(a: &str, b: &str, c: &str, d: &str) -> (text: String)
    ensures
        text@ == a@ + b@ + c@ + d@,
{
    let mut text = join3(a, b, c);
    text.append(d);
    text
}

fn single(line: String) -> (lines: Vec<String>)
    ensures
        lines.deep_view() == seq![line@],
{
    let mut lines: Vec<String> = Vec::new();
    lines.push(line);
    lines
}

fn render_help() -> (lines: Vec<String>)
    ensures
        lines.deep_view() == help_lines(),
{
    let mut lines: Vec<String> = Vec::new();
    lines.push("Commands:".to_owned());
    lines.push(" file create <path> <data>".to_owned());
    lines.push(" file read <path>".to_owned());
    lines.push(" file write <path> <data>".to_owned());
    lines.push(" file delete <path>".to_owned());
    lines.push(" file list".to_owned());
    lines.push(" object create <id> <data> key=val ...".to_owned());
    lines.push(" object read <id>".to_owned());
    lines.push(" object write <id> <data>".to_owned());
    lines.push(" object delete <id>".to_owned());
    lines.push(" object list".to_owned());
    lines.push(" block write <index> <data>".to_owned());
    lines.push(" block read <index>".to_owned());
    lines.push(" block delete <index>".to_owned());
    lines.push(" block list".to_owned());
    lines
}

fn render_listing(title: &str, names: &Vec<String>) -> (lines: Vec<String>)
    ensures
        lines.deep_view() == listing(title@, names.deep_view()),
{
    let mut lines: Vec<String> = Vec::new();
    lines.push(title.to_owned());
    let mut i: usize = 0;
    while i < names.len()
        invariant
            i <= names.len(),
            lines.len() == i + 1,
            lines[0]@ == title@,
            forall|j: int| 0 <= j < i ==> lines[j + 1]@ == item_line(names[j]@),
        decreases names.len() - i,
    {
        lines.push(join2(" - ", names[i].as_str()));
        i += 1;
    }
    lines
}

fn render_blocks(slots: &Vec<Option<String>>) -> (lines: Vec<String>)
    ensures
        lines.deep_view() == block_listing(slots.deep_view()),
{
    let mut lines: Vec<String> = Vec::new();
    lines.push("Blocks:".to_owned());
    let mut i: usize = 0;
    while i < slots.len()
        invariant
            i <= slots.len(),
            lines.len() == i + 1,
            lines[0]@ == "Blocks:"@,
            forall|j: int| 0 <= j < i ==> lines[j + 1]@ == block_line(j, slots.deep_view()[j]),
        decreases slots.len() - i,
    {
        let number = format_decimal(i);
        let line = match &slots[i] {
            Some(data) => join4(" - Block ", number.as_str(), ": ", data.as_str()),
            None => join4(" - Block ", number.as_str(), ": ", "empty"),
        };
        lines.push(line);
        i += 1;
    }
    lines
}

fn show_pair(key: &str, value: &str) -> (text: String)
    ensures
        text@ == shown_pair(key@, value@),
{
    let mut text = join4("\"", key, "\": \"", value);
    text.append("\"");
    text
}

fn show_object(object: &Object) -> (text: String)
    ensures
        text@ == shown_object(object@, object.metadata.order()),
{
    let keys = object.metadata.keys();
    let ghost order = object.metadata.order();
    let ghost metadata = object.metadata@;
    let mut pairs = String::new();
    let mut i: usize = 0;
    while i < keys.len()
        invariant
            i <= keys.len(),
            keys.deep_view() == order,
            order == object.metadata.order(),
            metadata == object.metadata@,
            order.to_set() == metadata.dom(),
            pairs@ == shown_pairs(order.take(i as int), metadata),
        decreases keys.len() - i,
    {
        let key = keys[i].as_str();
        proof {
            assert(order[i as int] == key@);
            let longer = order.take(i + 1);
            assert(longer.drop_last() =~= order.take(i as int));
        }
        let value = match object.metadata.get(key) {
            Some(value) => value.as_str(),
            None => "",
        };
        if i > 0 {
            pairs.append(", ");
        }
        let pair = show_pair(key, value);
        pairs.append(pair.as_str());
        i += 1;
    }
    assert(order.take(keys.len() as int) =~= order);
    let mut text = join4(
        "Object { id: \"",
        object.id.as_str(),
        "\", data: \"",
        object.data.as_str(),
    );
    text.append("\", metadata: {");
    text.append(pairs.as_str());
    text.append("} }");
    text
}

/// Puts an event into lines of plain text.
pub fn render(event: &Event) -> (lines: Vec<String>)
    ensures
        lines.deep_view() == rendered(event@),
{
    match event {
        Event::Nothing => Vec::new(),
        Event::Exit => Vec::new(),
        Event::Help => render_help(),
        Event::ReadError => single("Error reading input.".to_owned()),
        Event::FileCreated { path } => single(join2("File created: ", path.as_str())),
        Event::FileContent { path, data } => single(
            join4("Reading ", path.as_str(), ": ", data.as_str()),
        ),
        Event::FileUpdated { path } => single(join2("File updated: ", path.as_str())),
        Event::FileDeleted { path } => single(join2("File deleted: ", path.as_str())),
        Event::FileNotFound { path } => single(join2("File not found: ", path.as_str())),
        Event::FileList { paths } => render_listing("Files:", paths),
        Event::ObjectCreated { id } => single(join2("Object created: ", id.as_str())),
        Event::ObjectContent { object } => {
            let shown = show_object(object);
            single(join4("Reading ", object.id.as_str(), ": ", shown.as_str()))
        },
        Event::ObjectUpdated { id } => single(join2("Object updated: ", id.as_str())),
        Event::ObjectDeleted { id } => single(join2("Object deleted: ", id.as_str())),
        Event::ObjectNotFound { id } => single(join2("Object not found: ", id.as_str())),
        Event::ObjectList { ids } => render_listing("Objects:", ids),
        Event::BlockWritten { index } => {
            let number = format_decimal(*index);
            single(join2("Data written to block ", number.as_str()))
        },
        Event::BlockContent { index, data } => {
            let number = format_decimal(*index);
            single(join4("Reading block ", number.as_str(), ": ", data.as_str()))
        },
        Event::BlockEmpty { index } => {
            let number = format_decimal(*index);
            single(join3("Block ", number.as_str(), " is empty or invalid"))
        },
        Event::BlockCleared { index } => {
            let number = format_decimal(*index);
            single(join3("Block ", number.as_str(), " cleared"))
        },
        Event::InvalidIndex => single("Invalid block index!".to_owned()),
        Event::TooLarge { max } => {
            let number = format_decimal(*max);
            single(join3("Data too large for block (max ", number.as_str(), " bytes)"))
        },
        Event::BlockList { slots } => render_blocks(slots),
        Event::InvalidCommand { engine } => {
            let name = match engine {
                Engine::File => "file",
                Engine::Object => "object",
                Engine::Block => "block",
            };
            single(join3("Invalid ", name, " command"))
        },
        Event::UnknownCommand => single("Unknown command, type 'help'".to_owned()),
    }
}

} // verus!
