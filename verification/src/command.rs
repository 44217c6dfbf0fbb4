//! The command language of the console: one command per line, in tokens
//! separated by whitespace.

use crate::storage::object_storage::Attributes;
use crate::text::{
    attribute_of, parse_index, parsed_index, split_attribute, split_whitespace, str_eq, tokens,
};
use vstd::prelude::*;

verus! {

/// One of the three storage engines.
#[derive(Clone, Copy, Debug, PartialEq, Eq, Structural)]
pub enum Engine {
    File,
    Object,
    Block,
}

/// What a line of input asks for.
#[derive(Debug)]
pub enum Command {
    /// A line without tokens.
    Nothing,
    Exit,
    Help,
    FileCreate { path: String, data: String },
    FileRead { path: String },
    FileWrite { path: String, data: String },
    FileDelete { path: String },
    FileList,
    ObjectCreate { id: String, data: String, metadata: Attributes },
    ObjectRead { id: String },
    ObjectWrite { id: String, data: String },
    ObjectDelete { id: String },
    ObjectList,
    BlockWrite { index: usize, data: String },
    BlockRead { index: usize },
    BlockDelete { index: usize },
    BlockList,
    /// A block command whose index token denotes no index. It is passed over
    /// in silence.
    Ignored,
    /// An engine's name followed by no command of that engine.
    Invalid { engine: Engine },
    /// A line that starts with no known word.
    Unknown,
}

/// What a command holds.
pub enum CommandView {
    Nothing,
    Exit,
    Help,
    FileCreate { path: Seq<char>, data: Seq<char> },
    FileRead { path: Seq<char> },
    FileWrite { path: Seq<char>, data: Seq<char> },
    FileDelete { path: Seq<char> },
    FileList,
    ObjectCreate { id: Seq<char>, data: Seq<char>, metadata: Map<Seq<char>, Seq<char>> },
    ObjectRead { id: Seq<char> },
    ObjectWrite { id: Seq<char>, data: Seq<char> },
    ObjectDelete { id: Seq<char> },
    ObjectList,
    BlockWrite { index: usize, data: Seq<char> },
    BlockRead { index: usize },
    BlockDelete { index: usize },
    BlockList,
    Ignored,
    Invalid { engine: Engine },
    Unknown,
}

impl View for Command {
    type V = CommandView;

    open spec fn view(&self) -> CommandView {
        match *self {
            Command::Nothing => CommandView::Nothing,
            Command::Exit => CommandView::Exit,
            Command::Help => CommandView::Help,
            Command::FileCreate { path, data } => CommandView::FileCreate {
                path: path@,
                data: data@,
            },
            Command::FileRead { path } => CommandView::FileRead { path: path@ },
            Command::FileWrite { path, data } => CommandView::FileWrite {
                path: path@,
                data: data@,
            },
            Command::FileDelete { path } => CommandView::FileDelete { path: path@ },
            Command::FileList => CommandView::FileList,
            Command::ObjectCreate { id, data, metadata } => CommandView::ObjectCreate {
                id: id@,
                data: data@,
                metadata: metadata@,
            },
            Command::ObjectRead { id } => CommandView::ObjectRead { id: id@ },
            Command::ObjectWrite { id, data } => CommandView::ObjectWrite { id: id@, data: data@ },
            Command::ObjectDelete { id } => CommandView::ObjectDelete { id: id@ },
            Command::ObjectList => CommandView::ObjectList,
            Command::BlockWrite { index, data } => CommandView::BlockWrite { index, data: data@ },
            Command::BlockRead { index } => CommandView::BlockRead { index },
            Command::BlockDelete { index } => CommandView::BlockDelete { index },
            Command::BlockList => CommandView::BlockList,
            Command::Ignored => CommandView::Ignored,
            Command::Invalid { engine } => CommandView::Invalid { engine },
            Command::Unknown => CommandView::Unknown,
        }
    }
}

/// The attributes that a run of tokens gives: each token of the form
/// `key=value` sets its key, a later one replacing an earlier one, and the
/// other tokens count for nothing.
pub open spec fn attributes_of(tokens: Seq<Seq<char>>) -> Map<Seq<char>, Seq<char>>
    decreases tokens.len(),
{
    if tokens.len() == 0 {
        Map::empty()
    } else {
        let earlier = attributes_of(tokens.drop_last());
        match attribute_of(tokens.last()) {
            Some((key, value)) => earlier.insert(key, value),
            None => earlier,
        }
    }
}

/// The file command that tokens starting with `file` and one more word ask
/// for.
pub open spec fn parsed_file(t: Seq<Seq<char>>) -> CommandView {
    if t[1] == "create"@ && t.len() >= 4 {
        CommandView::FileCreate { path: t[2], data: t[3] }
    } else if t[1] == "read"@ && t.len() >= 3 {
        CommandView::FileRead { path: t[2] }
    } else if t[1] == "write"@ && t.len() >= 4 {
        CommandView::FileWrite { path: t[2], data: t[3] }
    } else if t[1] == "delete"@ && t.len() >= 3 {
        CommandView::FileDelete { path: t[2] }
    } else if t[1] == "list"@ {
        CommandView::FileList
    } else {
        CommandView::Invalid { engine: Engine::File }
    }
}

/// The object command that tokens starting with `object` and one more word
/// ask for.
pub open spec fn parsed_object(t: Seq<Seq<char>>) -> CommandView {
    if t[1] == "create"@ && t.len() >= 4 {
        CommandView::ObjectCreate { id: t[2], data: t[3], metadata: attributes_of(t.skip(4)) }
    } else if t[1] == "read"@ && t.len() >= 3 {
        CommandView::ObjectRead { id: t[2] }
    } else if t[1] == "write"@ && t.len() >= 4 {
        CommandView::ObjectWrite { id: t[2], data: t[3] }
    } else if t[1] == "delete"@ && t.len() >= 3 {
        CommandView::ObjectDelete { id: t[2] }
    } else if t[1] == "list"@ {
        CommandView::ObjectList
    } else {
        CommandView::Invalid { engine: Engine::Object }
    }
}

/// The block command that tokens starting with `block` and one more word
/// ask for.
pub open spec fn parsed_block(t: Seq<Seq<char>>) -> CommandView {
    if t[1] == "write"@ && t.len() >= 4 {
        match parsed_index(t[2]) {
            Some(index) => CommandView::BlockWrite { index, data: t[3] },
            None => CommandView::Ignored,
        }
    } else if t[1] == "read"@ && t.len() >= 3 {
        match parsed_index(t[2]) {
            Some(index) => CommandView::BlockRead { index },
            None => CommandView::Ignored,
        }
    } else if t[1] == "delete"@ && t.len() >= 3 {
        match parsed_index(t[2]) {
            Some(index) => CommandView::BlockDelete { index },
            None => CommandView::Ignored,
        }
    } else if t[1] == "list"@ {
        CommandView::BlockList
    } else {
        CommandView::Invalid { engine: Engine::Block }
    }
}

/// The command that a line's tokens ask for. Tokens beyond those that a
/// command takes are passed over.
pub open spec fn parsed(t: Seq<Seq<char>>) -> CommandView {
    if t.len() == 0 {
        CommandView::Nothing
    } else if t[0] == "exit"@ {
        CommandView::Exit
    } else if t[0] == "help"@ {
        CommandView::Help
    } else if t[0] == "file"@ && t.len() >= 2 {
        parsed_file(t)
    } else if t[0] == "object"@ && t.len() >= 2 {
        parsed_object(t)
    } else if t[0] == "block"@ && t.len() >= 2 {
        parsed_block(t)
    } else {
        CommandView::Unknown
    }
}

/// Gathers the attributes among the words from position `from` on.
fn parse_attributes(words: &Vec<String>, from: usize) -> (attrs: Attributes)
    requires
        from <= words.len(),
    ensures
        attrs@ == attributes_of(words.deep_view().skip(from as int)),
{
    let ghost t = words.deep_view();
    let mut attrs = Attributes::new();
    let mut i: usize = from;
    while i < words.len()
        invariant
            from <= i <= words.len(),
            t == words.deep_view(),
            attrs@ == attributes_of(t.subrange(from as int, i as int)),
        decreases words.len() - i,
    {
        proof {
            let longer = t.subrange(from as int, i + 1);
            assert(longer.drop_last() =~= t.subrange(from as int, i as int));
        }
        match split_attribute(words[i].as_str()) {
            Some((key, value)) => {
                attrs.insert(key, value);
            },
            None => {},
        }
        i += 1;
    }
    attrs
}

fn parse_file(words: &Vec<String>) -> (cmd: Command)
    requires
        words.len() >= 2,
    ensures
        cmd@ == parsed_file(words.deep_view()),
{
    let n = words.len();
    let verb = words[1].as_str();
    if str_eq(verb, "create") && n >= 4 {
        Command::FileCreate { path: words[2].clone(), data: words[3].clone() }
    } else if str_eq(verb, "read") && n >= 3 {
        Command::FileRead { path: words[2].clone() }
    } else if str_eq(verb, "write") && n >= 4 {
        Command::FileWrite { path: words[2].clone(), data: words[3].clone() }
    } else if str_eq(verb, "delete") && n >= 3 {
        Command::FileDelete { path: words[2].clone() }
    } else if str_eq(verb, "list") {
        Command::FileList
    } else {
        Command::Invalid { engine: Engine::File }
    }
}

fn parse_object(words: &Vec<String>) -> (cmd: Command)
    requires
        words.len() >= 2,
    ensures
        cmd@ == parsed_object(words.deep_view()),
{
    let n = words.len();
    let verb = words[1].as_str();
    if str_eq(verb, "create") && n >= 4 {
        let metadata = parse_attributes(words, 4);
        Command::ObjectCreate { id: words[2].clone(), data: words[3].clone(), metadata }
    } else if str_eq(verb, "read") && n >= 3 {
        Command::ObjectRead { id: words[2].clone() }
    } else if str_eq(verb, "write") && n >= 4 {
        Command::ObjectWrite { id: words[2].clone(), data: words[3].clone() }
    } else if str_eq(verb, "delete") && n >= 3 {
        Command::ObjectDelete { id: words[2].clone() }
    } else if str_eq(verb, "list") {
        Command::ObjectList
    } else {
        Command::Invalid { engine: Engine::Object }
    }
}

fn parse_block(words: &Vec<String>) -> (cmd: Command)
    requires
        words.len() >= 2,
    ensures
        cmd@ == parsed_block(words.deep_view()),
{
    let n = words.len();
    let verb = words[1].as_str();
    if str_eq(verb, "write") && n >= 4 {
        match parse_index(words[2].as_str()) {
            Some(index) => Command::BlockWrite { index, data: words[3].clone() },
            None => Command::Ignored,
        }
    } else if str_eq(verb, "read") && n >= 3 {
        match parse_index(words[2].as_str()) {
            Some(index) => Command::BlockRead { index },
            None => Command::Ignored,
        }
    } else if str_eq(verb, "delete") && n >= 3 {
        match parse_index(words[2].as_str()) {
            Some(index) => Command::BlockDelete { index },
            None => Command::Ignored,
        }
    } else if str_eq(verb, "list") {
        Command::BlockList
    } else {
        Command::Invalid { engine: Engine::Block }
    }
}

/// Reads the command that a sequence of tokens asks for.
pub fn parse_words(words: &Vec<String>) -> (cmd: Command)
    ensures
        cmd@ == parsed(words.deep_view()),
{
    let n = words.len();
    if n == 0 {
        return Command::Nothing;
    }
    let head = words[0].as_str();
    if str_eq(head, "exit") {
        Command::Exit
    } else if str_eq(head, "help") {
        Command::Help
    } else if str_eq(head, "file") && n >= 2 {
        parse_file(words)
    } else if str_eq(head, "object") && n >= 2 {
        parse_object(words)
    } else if str_eq(head, "block") && n >= 2 {
        parse_block(words)
    } else {
        Command::Unknown
    }
}

/// Reads the command that a line of input asks for.
pub fn parse_line(line: &str) -> (cmd: Command)
    ensures
        cmd@ == parsed(tokens(line@)),
{
    let words = split_whitespace(line);
    parse_words(&words)
}

} // verus!
