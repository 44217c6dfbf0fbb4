use storage_cli::command::{parse_line, parse_words, Command, Engine};

fn words(list: &[&str]) -> Vec<String> {
    list.iter().map(|word| word.to_string()).collect()
}

#[test]
fn an_empty_line_asks_for_nothing() {
    assert!(matches!(parse_line(""), Command::Nothing));
    assert!(matches!(parse_line("   \t"), Command::Nothing));
    assert!(matches!(parse_line("\n"), Command::Nothing));
}

#[test]
fn exit_and_help_take_no_arguments_and_pass_over_any() {
    assert!(matches!(parse_line("exit"), Command::Exit));
    assert!(matches!(parse_line("exit now please"), Command::Exit));
    assert!(matches!(parse_line("  exit\n"), Command::Exit));
    assert!(matches!(parse_line("help"), Command::Help));
    assert!(matches!(parse_line("help file"), Command::Help));
}

#[test]
fn keywords_are_case_sensitive() {
    assert!(matches!(parse_line("EXIT"), Command::Unknown));
    assert!(matches!(parse_line("Help"), Command::Unknown));
    assert!(matches!(parse_line("File list"), Command::Unknown));
    assert!(matches!(parse_line("file LIST"), Command::Invalid { engine: Engine::File }));
}

#[test]
fn an_unknown_first_word_is_an_unknown_command() {
    assert!(matches!(parse_line("foo bar"), Command::Unknown));
    assert!(matches!(parse_line("files list"), Command::Unknown));
    assert!(matches!(parse_line("exit!"), Command::Unknown));
}

#[test]
fn an_engine_without_a_verb_is_an_unknown_command() {
    assert!(matches!(parse_line("file"), Command::Unknown));
    assert!(matches!(parse_line("object"), Command::Unknown));
    assert!(matches!(parse_line("block  "), Command::Unknown));
}

#[test]
fn file_commands() {
    assert!(matches!(
        parse_line("file create /a hello"),
        Command::FileCreate { path, data } if path == "/a" && data == "hello"
    ));
    assert!(matches!(parse_line("file read /a"), Command::FileRead { path } if path == "/a"));
    assert!(matches!(
        parse_line("file write /a bye"),
        Command::FileWrite { path, data } if path == "/a" && data == "bye"
    ));
    assert!(matches!(parse_line("file delete /a"), Command::FileDelete { path } if path == "/a"));
    assert!(matches!(parse_line("file list"), Command::FileList));
}

#[test]
fn file_commands_pass_over_further_tokens() {
    assert!(matches!(
        parse_line("file create /a hello world again"),
        Command::FileCreate { path, data } if path == "/a" && data == "hello"
    ));
    assert!(matches!(parse_line("file read /a /b"), Command::FileRead { path } if path == "/a"));
    assert!(matches!(parse_line("file list everything"), Command::FileList));
}

#[test]
fn file_commands_with_too_few_arguments_are_invalid() {
    assert!(matches!(parse_line("file create"), Command::Invalid { engine: Engine::File }));
    assert!(matches!(parse_line("file create /a"), Command::Invalid { engine: Engine::File }));
    assert!(matches!(parse_line("file read"), Command::Invalid { engine: Engine::File }));
    assert!(matches!(parse_line("file write /a"), Command::Invalid { engine: Engine::File }));
    assert!(matches!(parse_line("file delete"), Command::Invalid { engine: Engine::File }));
    assert!(matches!(parse_line("file whoops"), Command::Invalid { engine: Engine::File }));
}

#[test]
fn object_commands() {
    assert!(matches!(
        parse_line("object create o1 payload"),
        Command::ObjectCreate { id, data, metadata }
            if id == "o1" && data == "payload" && metadata.len() == 0
    ));
    assert!(matches!(parse_line("object read o1"), Command::ObjectRead { id } if id == "o1"));
    assert!(matches!(
        parse_line("object write o1 payload2"),
        Command::ObjectWrite { id, data } if id == "o1" && data == "payload2"
    ));
    assert!(matches!(parse_line("object delete o1"), Command::ObjectDelete { id } if id == "o1"));
    assert!(matches!(parse_line("object list"), Command::ObjectList));
}

#[test]
fn object_create_gathers_attributes() {
    match parse_line("object create o1 payload color=red size=big") {
        Command::ObjectCreate { id, data, metadata } => {
            assert_eq!(id, "o1");
            assert_eq!(data, "payload");
            assert_eq!(metadata.len(), 2);
            assert_eq!(metadata.get("color"), Some(&"red".to_string()));
            assert_eq!(metadata.get("size"), Some(&"big".to_string()));
        }
        other => panic!("not an object create: {:?}", other),
    }
}

#[test]
fn object_create_passes_over_tokens_that_are_no_attributes() {
    match parse_line("object create o1 payload loose k=v =nokey another empty= k2=a=b") {
        Command::ObjectCreate { metadata, .. } => {
            assert_eq!(
                metadata.keys(),
                vec!["k".to_string(), "empty".to_string(), "k2".to_string()]
            );
            assert_eq!(metadata.get("k"), Some(&"v".to_string()));
            assert_eq!(metadata.get("empty"), Some(&String::new()));
            assert_eq!(metadata.get("k2"), Some(&"a=b".to_string()));
            assert_eq!(metadata.get(""), None);
            assert_eq!(metadata.get("loose"), None);
        }
        other => panic!("not an object create: {:?}", other),
    }
}

#[test]
fn object_create_keeps_the_last_value_of_a_repeated_key() {
    match parse_line("object create o1 payload k=1 j=2 k=3") {
        Command::ObjectCreate { metadata, .. } => {
            assert_eq!(metadata.len(), 2);
            assert_eq!(metadata.get("k"), Some(&"3".to_string()));
            assert_eq!(metadata.get("j"), Some(&"2".to_string()));
        }
        other => panic!("not an object create: {:?}", other),
    }
}

#[test]
fn object_commands_with_too_few_arguments_are_invalid() {
    assert!(matches!(parse_line("object create o1"), Command::Invalid { engine: Engine::Object }));
    assert!(matches!(parse_line("object read"), Command::Invalid { engine: Engine::Object }));
    assert!(matches!(parse_line("object write o1"), Command::Invalid { engine: Engine::Object }));
    assert!(matches!(parse_line("object delete"), Command::Invalid { engine: Engine::Object }));
    assert!(matches!(
        parse_line("object update o1 x"),
        Command::Invalid { engine: Engine::Object }
    ));
}

#[test]
fn block_commands() {
    assert!(matches!(
        parse_line("block write 2 hello"),
        Command::BlockWrite { index: 2, data } if data == "hello"
    ));
    assert!(matches!(parse_line("block read 4"), Command::BlockRead { index: 4 }));
    assert!(matches!(parse_line("block delete 0"), Command::BlockDelete { index: 0 }));
    assert!(matches!(parse_line("block list"), Command::BlockList));
    assert!(matches!(parse_line("block read +3"), Command::BlockRead { index: 3 }));
    assert!(matches!(parse_line("block read 0010"), Command::BlockRead { index: 10 }));
}

#[test]
fn block_commands_with_an_index_that_is_no_number_are_ignored() {
    assert!(matches!(parse_line("block write two hello"), Command::Ignored));
    assert!(matches!(parse_line("block read -1"), Command::Ignored));
    assert!(matches!(parse_line("block delete 1.0"), Command::Ignored));
    assert!(matches!(
        parse_line("block read 99999999999999999999999999999999"),
        Command::Ignored
    ));
}

#[test]
fn block_commands_with_too_few_arguments_are_invalid() {
    assert!(matches!(parse_line("block write"), Command::Invalid { engine: Engine::Block }));
    assert!(matches!(parse_line("block write 2"), Command::Invalid { engine: Engine::Block }));
    assert!(matches!(parse_line("block write x"), Command::Invalid { engine: Engine::Block }));
    assert!(matches!(parse_line("block read"), Command::Invalid { engine: Engine::Block }));
    assert!(matches!(parse_line("block delete"), Command::Invalid { engine: Engine::Block }));
    assert!(matches!(parse_line("block create 1 x"), Command::Invalid { engine: Engine::Block }));
}

#[test]
fn parse_words_reads_tokens_as_they_are() {
    assert!(matches!(parse_words(&words(&[])), Command::Nothing));
    assert!(matches!(
        parse_words(&words(&["file", "create", "a b", ""])),
        Command::FileCreate { path, data } if path == "a b" && data.is_empty()
    ));
}
