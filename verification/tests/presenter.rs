use storage_cli::command::Engine;
use storage_cli::presenter::{prompt, render, welcome, Event};
use storage_cli::storage::object_storage::{Attributes, Object};

fn lines(list: &[&str]) -> Vec<String> {
    list.iter().map(|line| line.to_string()).collect()
}

fn s(text: &str) -> String {
    text.to_string()
}

#[test]
fn welcome_and_prompt() {
    assert_eq!(
        welcome(),
        "Welcome to Storage CLI (file, object, block). Type 'help' for commands, 'exit' to quit."
    );
    assert_eq!(prompt(), "> ");
}

#[test]
fn silent_events_give_no_line() {
    assert_eq!(render(&Event::Nothing), Vec::<String>::new());
    assert_eq!(render(&Event::Exit), Vec::<String>::new());
}

#[test]
fn help_lists_the_commands_in_order() {
    assert_eq!(
        render(&Event::Help),
        lines(&[
            "Commands:",
            " file create <path> <data>",
            " file read <path>",
            " file write <path> <data>",
            " file delete <path>",
            " file list",
            " object create <id> <data> key=val ...",
            " object read <id>",
            " object write <id> <data>",
            " object delete <id>",
            " object list",
            " block write <index> <data>",
            " block read <index>",
            " block delete <index>",
            " block list",
        ])
    );
}

#[test]
fn read_error_message() {
    assert_eq!(render(&Event::ReadError), lines(&["Error reading input."]));
}

#[test]
fn file_messages() {
    assert_eq!(render(&Event::FileCreated { path: s("/a") }), lines(&["File created: /a"]));
    assert_eq!(
        render(&Event::FileContent { path: s("/a"), data: s("hello") }),
        lines(&["Reading /a: hello"])
    );
    assert_eq!(render(&Event::FileUpdated { path: s("/a") }), lines(&["File updated: /a"]));
    assert_eq!(render(&Event::FileDeleted { path: s("/a") }), lines(&["File deleted: /a"]));
    assert_eq!(render(&Event::FileNotFound { path: s("/a") }), lines(&["File not found: /a"]));
}

#[test]
fn file_listing() {
    assert_eq!(render(&Event::FileList { paths: vec![] }), lines(&["Files:"]));
    assert_eq!(
        render(&Event::FileList { paths: vec![s("/b"), s("/a")] }),
        lines(&["Files:", " - /b", " - /a"])
    );
}

#[test]
fn object_messages() {
    assert_eq!(render(&Event::ObjectCreated { id: s("o1") }), lines(&["Object created: o1"]));
    assert_eq!(render(&Event::ObjectUpdated { id: s("o1") }), lines(&["Object updated: o1"]));
    assert_eq!(render(&Event::ObjectDeleted { id: s("o1") }), lines(&["Object deleted: o1"]));
    assert_eq!(render(&Event::ObjectNotFound { id: s("o1") }), lines(&["Object not found: o1"]));
    assert_eq!(
        render(&Event::ObjectList { ids: vec![s("o1"), s("o2")] }),
        lines(&["Objects:", " - o1", " - o2"])
    );
}

#[test]
fn object_content_shows_the_record() {
    let mut metadata = Attributes::new();
    metadata.insert(s("color"), s("red"));
    metadata.insert(s("size"), s("big"));
    let object = Object { id: s("o1"), data: s("payload"), metadata };
    assert_eq!(
        render(&Event::ObjectContent { object }),
        lines(&[
            "Reading o1: Object { id: \"o1\", data: \"payload\", metadata: {\"color\": \"red\", \"size\": \"big\"} }"
        ])
    );
}

#[test]
fn object_content_with_one_attribute_and_with_none() {
    let mut metadata = Attributes::new();
    metadata.insert(s("k"), s(""));
    let object = Object { id: s("i"), data: s("d"), metadata };
    assert_eq!(
        render(&Event::ObjectContent { object }),
        lines(&["Reading i: Object { id: \"i\", data: \"d\", metadata: {\"k\": \"\"} }"])
    );
    let object = Object { id: s("i"), data: s("d"), metadata: Attributes::new() };
    assert_eq!(
        render(&Event::ObjectContent { object }),
        lines(&["Reading i: Object { id: \"i\", data: \"d\", metadata: {} }"])
    );
}

#[test]
fn block_messages() {
    assert_eq!(render(&Event::BlockWritten { index: 2 }), lines(&["Data written to block 2"]));
    assert_eq!(
        render(&Event::BlockContent { index: 12, data: s("hello") }),
        lines(&["Reading block 12: hello"])
    );
    assert_eq!(render(&Event::BlockEmpty { index: 4 }), lines(&["Block 4 is empty or invalid"]));
    assert_eq!(render(&Event::BlockCleared { index: 0 }), lines(&["Block 0 cleared"]));
    assert_eq!(render(&Event::InvalidIndex), lines(&["Invalid block index!"]));
    assert_eq!(
        render(&Event::TooLarge { max: 16 }),
        lines(&["Data too large for block (max 16 bytes)"])
    );
}

#[test]
fn block_listing_shows_every_slot() {
    assert_eq!(render(&Event::BlockList { slots: vec![] }), lines(&["Blocks:"]));
    assert_eq!(
        render(&Event::BlockList { slots: vec![None, None, Some(s("hello")), None, None] }),
        lines(&[
            "Blocks:",
            " - Block 0: empty",
            " - Block 1: empty",
            " - Block 2: hello",
            " - Block 3: empty",
            " - Block 4: empty",
        ])
    );
}

#[test]
fn block_listing_counts_past_nine() {
    let mut slots: Vec<Option<String>> = vec![None; 12];
    slots[11] = Some(s("last"));
    let shown = render(&Event::BlockList { slots });
    assert_eq!(shown.len(), 13);
    assert_eq!(shown[10], " - Block 9: empty");
    assert_eq!(shown[11], " - Block 10: empty");
    assert_eq!(shown[12], " - Block 11: last");
}

#[test]
fn command_errors() {
    assert_eq!(
        render(&Event::InvalidCommand { engine: Engine::File }),
        lines(&["Invalid file command"])
    );
    assert_eq!(
        render(&Event::InvalidCommand { engine: Engine::Object }),
        lines(&["Invalid object command"])
    );
    assert_eq!(
        render(&Event::InvalidCommand { engine: Engine::Block }),
        lines(&["Invalid block command"])
    );
    assert_eq!(render(&Event::UnknownCommand), lines(&["Unknown command, type 'help'"]));
}
