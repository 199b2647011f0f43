use aux_svc::scanner::{locale_of, select_listed, select_resources, DirEntry, ResourceFile};
use aux_svc::store::IoError;

fn entry(name: &str, is_dir: bool) -> DirEntry {
    DirEntry { name: name.to_string(), is_dir }
}

#[test]
fn resource_names_give_their_locale() {
    assert_eq!(locale_of("messages_en.ftl"), Some("en".to_string()));
    assert_eq!(locale_of("messages_zh-CN.ftl"), Some("zh-CN".to_string()));
    assert_eq!(locale_of("messages_pt_BR.ftl"), Some("pt_BR".to_string()));
}

#[test]
fn the_locale_is_taken_as_it_stands() {
    assert_eq!(locale_of("messages_.ftl"), Some("".to_string()));
    assert_eq!(locale_of("messages_messages_en.ftl"), Some("messages_en".to_string()));
    assert_eq!(locale_of("messages_en.ftl.ftl"), Some("en.ftl".to_string()));
    assert_eq!(locale_of("messages_日本語.ftl"), Some("日本語".to_string()));
    assert_eq!(locale_of("messages_ en .ftl"), Some(" en ".to_string()));
}

#[test]
fn other_names_are_no_resources() {
    for name in [
        "",
        "messages_en",
        "messages_en.txt",
        "messages_en.FTL",
        "message_en.ftl",
        "Messages_en.ftl",
        "xmessages_en.ftl",
        "messages-en.ftl",
        "messages.ftl",
        "messages_ftl",
        "messages_en.ftl ",
        "en.ftl",
        ".ftl",
        "messages_",
    ] {
        assert_eq!(locale_of(name), None, "{:?}", name);
    }
}

#[test]
fn selection_skips_directories_and_other_files() {
    let listing = vec![
        entry("README.md", false),
        entry("messages_en.ftl", false),
        entry("messages_fr.ftl", true),
        entry("nested", true),
        entry("messages_zh-CN.ftl", false),
        entry("messages_de.txt", false),
    ];
    assert_eq!(
        select_resources(&listing),
        vec![
            ResourceFile { name: "messages_en.ftl".to_string(), locale: "en".to_string() },
            ResourceFile { name: "messages_zh-CN.ftl".to_string(), locale: "zh-CN".to_string() },
        ]
    );
}

#[test]
fn selection_of_a_directory_without_resources_is_empty() {
    assert_eq!(select_resources(&Vec::new()), Vec::new());
    let listing = vec![entry("notes.txt", false), entry("messages_en.ftl", true)];
    assert_eq!(select_resources(&listing), Vec::new());
}

#[test]
fn a_fully_listed_directory_gives_its_resources() {
    let listing = vec![
        Some(entry("messages_en.ftl", false)),
        Some(entry("nested", true)),
        Some(entry("notes.txt", false)),
        Some(entry("messages_de.ftl", false)),
    ];
    assert_eq!(
        select_listed(&listing),
        Ok(vec![
            ResourceFile { name: "messages_en.ftl".to_string(), locale: "en".to_string() },
            ResourceFile { name: "messages_de.ftl".to_string(), locale: "de".to_string() },
        ])
    );
    assert_eq!(select_listed(&Vec::new()), Ok(Vec::new()));
}

#[test]
fn an_entry_that_was_not_listed_fails_the_scan() {
    let listing = vec![Some(entry("messages_en.ftl", false)), None, Some(entry("messages_de.ftl", false))];
    assert_eq!(select_listed(&listing), Err(IoError::Directory));
    assert_eq!(select_listed(&vec![None]), Err(IoError::Directory));
    let last = vec![Some(entry("notes.txt", false)), None];
    assert_eq!(select_listed(&last), Err(IoError::Directory));
}
