use ts_endpoint_generator::matcher::{
    AnnotationMatch, MethodDeclaration, PatternError, ScanOutcome, SkipReason,
};
use ts_endpoint_generator::pass::{
    add_match, advance, generate, is_source_extension, Pass, PassError, PassEvent, PassState,
    SOURCE_EXTENSION,
};
use ts_endpoint_generator::registry::{DuplicateError, Registry};

const USER_LIST: &str =
    "@backendAPI(\"Users\")\nclass UserList {\n  @route()\n  async list() {}\n}\n";
const USER_GET: &str =
    "@backendAPI(\"Users\")\nclass UserGet {\n  @route()\n  async get(id: string) {}\n}\n";
const USER_GET_AGAIN: &str =
    "@backendAPI(\"Users\")\nclass UserFetch {\n  @route()\n  async get(key: number) {}\n}\n";
const ORDERS: &str = "@backendAPI(\"Orders\")\nclass OrderService {\n  @route()\n  async place(item: string, count: number) {}\n  @route()\n  async cancel(id: string) {}\n}\n";
const NO_GROUP: &str = "class Lonely {\n  @route()\n  async get(id: string) {}\n}\n";
const NO_CLASS: &str = "@backendAPI(\"Ghost\")\n@route()\nasync haunt() {}\n";

fn texts(items: &[&str]) -> Vec<String> {
    items.iter().map(|s| s.to_string()).collect()
}

fn pairs(pass: &Pass) -> Vec<(String, String, String, String)> {
    let mut all = Vec::new();
    for g in pass.registry().groups() {
        for m in &g.methods {
            all.push((
                g.name.clone(),
                m.name.clone(),
                m.entry.definitions.clone(),
                m.sources.join("+"),
            ));
        }
    }
    all.sort();
    all
}

fn run(items: &[&str]) -> Pass {
    let mut pass = Pass::new();
    for text in items {
        pass = pass.add_file(text).ok().unwrap();
    }
    pass
}

#[test]
fn two_files_share_one_group() {
    let out = generate(&texts(&[USER_LIST, USER_GET])).unwrap();
    let expected = "import { ipcRenderer } from \"electron\";\n\nexport const api = {\n  Users: {\n    list: async () => {\n      return await ipcRenderer.invoke(\"Users-list\", );\n    },\n    get: async (id: string) => {\n      return await ipcRenderer.invoke(\"Users-get\", id);\n    },\n  },\n};\n";
    assert_eq!(out, expected);
    assert_eq!(out.matches("  Users: {").count(), 1);
}

#[test]
fn second_declaration_fails_the_pass() {
    match generate(&texts(&[USER_GET, USER_LIST, USER_GET_AGAIN])) {
        Err(PassError::Duplicate(e)) => {
            assert_eq!(
                e,
                DuplicateError {
                    group: "Users".to_string(),
                    method: "get".to_string(),
                    sources: vec!["UserGet".to_string(), "UserFetch".to_string()],
                }
            );
            let message = e.message();
            assert!(message.contains("UserGet"));
            assert!(message.contains("UserFetch"));
            assert!(message.contains("'get'"));
            assert!(message.contains("'Users'"));
        }
        other => panic!("unexpected result: {:?}", other),
    }
}

#[test]
fn duplicate_inside_one_file_fails_the_pass() {
    let text = "@backendAPI(\"G\")\nclass Twice {\n  @route()\n  async m() {}\n  @route()\n  async m(a: number) {}\n}\n";
    match generate(&texts(&[text])) {
        Err(PassError::Duplicate(e)) => {
            assert_eq!(e.sources, vec!["Twice".to_string(), "Twice".to_string()]);
        }
        other => panic!("unexpected result: {:?}", other),
    }
}

#[test]
fn the_same_file_twice_fails_the_pass() {
    assert!(matches!(
        generate(&texts(&[ORDERS, ORDERS])),
        Err(PassError::Duplicate(_))
    ));
}

#[test]
fn no_files_give_an_empty_module() {
    assert_eq!(
        generate(&Vec::new()),
        Ok("import { ipcRenderer } from \"electron\";\n\nexport const api = {\n};\n".to_string())
    );
}

#[test]
fn file_without_group_marker_contributes_nothing() {
    assert_eq!(generate(&texts(&[NO_GROUP])), generate(&Vec::new()));
    assert_eq!(
        generate(&texts(&[USER_LIST, NO_GROUP, USER_GET])),
        generate(&texts(&[USER_LIST, USER_GET]))
    );
    let pass = run(&[NO_GROUP]);
    assert!(pass.registry().groups().is_empty());
}

#[test]
fn file_without_class_contributes_nothing() {
    assert_eq!(generate(&texts(&[NO_CLASS])), generate(&Vec::new()));
    assert_eq!(generate(&texts(&[NO_CLASS, ORDERS])), generate(&texts(&[ORDERS])));
}

#[test]
fn skipped_file_hides_a_duplicate() {
    let hidden = "class Lonely {\n  @route()\n  async list() {}\n}\n";
    assert!(generate(&texts(&[USER_LIST, hidden])).is_ok());
}

#[test]
fn unchanged_input_gives_identical_output() {
    let input = texts(&[ORDERS, NO_GROUP, USER_LIST, USER_GET]);
    let first = generate(&input);
    let second = generate(&input);
    assert!(first.is_ok());
    assert_eq!(first, second);
    let failing = texts(&[USER_GET, USER_GET_AGAIN]);
    assert_eq!(generate(&failing), generate(&failing));
}

#[test]
fn walk_order_does_not_change_what_is_held() {
    let one = run(&[ORDERS, USER_LIST, NO_GROUP, USER_GET]);
    let other = run(&[USER_GET, NO_GROUP, ORDERS, USER_LIST]);
    assert_eq!(pairs(&one), pairs(&other));
    assert_eq!(pairs(&one).len(), 4);
    assert_ne!(one.finish(), other.finish());
}

#[test]
fn walk_order_does_not_change_whether_the_pass_fails() {
    assert!(generate(&texts(&[USER_GET, ORDERS, USER_GET_AGAIN])).is_err());
    assert!(generate(&texts(&[USER_GET_AGAIN, USER_GET, ORDERS])).is_err());
    assert!(generate(&texts(&[ORDERS, USER_GET_AGAIN, USER_GET])).is_err());
}

#[test]
fn pass_renders_what_its_files_declared() {
    let pass = run(&[ORDERS]);
    let out = pass.finish();
    let expected = "import { ipcRenderer } from \"electron\";\n\nexport const api = {\n  Orders: {\n    place: async (item: string, count: number) => {\n      return await ipcRenderer.invoke(\"Orders-place\", item, count);\n    },\n    cancel: async (id: string) => {\n      return await ipcRenderer.invoke(\"Orders-cancel\", id);\n    },\n  },\n};\n";
    assert_eq!(out, expected);
    assert_eq!(generate(&texts(&[ORDERS])), Ok(expected.to_string()));
}

#[test]
fn outcomes_are_taken_in_without_scanning() {
    let found = AnnotationMatch {
        group: "G".to_string(),
        class_name: "C".to_string(),
        methods: vec![
            MethodDeclaration { name: "a".to_string(), raw_params: "x: X".to_string() },
            MethodDeclaration { name: "b".to_string(), raw_params: "".to_string() },
        ],
    };
    let pass = Pass::new().add_outcome(&ScanOutcome::Matched(found.clone())).ok().unwrap();
    let pass = pass.add_outcome(&ScanOutcome::Skipped(SkipReason::NoGroupMarker)).ok().unwrap();
    let pass = pass.add_outcome(&ScanOutcome::Skipped(SkipReason::NoClassDeclaration)).ok().unwrap();
    assert_eq!(pass.registry().get("G", "a").unwrap().entry.definitions, "x: X");
    assert_eq!(pass.registry().get("G", "b").unwrap().entry.route, "G-b");
    let refused = pass.add_outcome(&ScanOutcome::Matched(found));
    assert_eq!(
        refused.err(),
        Some(DuplicateError {
            group: "G".to_string(),
            method: "a".to_string(),
            sources: vec!["C".to_string(), "C".to_string()],
        })
    );
}

#[test]
fn methods_of_a_match_are_inserted_in_order() {
    let found = AnnotationMatch {
        group: "G".to_string(),
        class_name: "C".to_string(),
        methods: vec![
            MethodDeclaration { name: "z".to_string(), raw_params: "".to_string() },
            MethodDeclaration { name: "a".to_string(), raw_params: "".to_string() },
        ],
    };
    let registry = add_match(Registry::new(), &found).unwrap();
    let order: Vec<String> = registry.groups()[0].methods.iter().map(|m| m.name.clone()).collect();
    assert_eq!(order, vec!["z".to_string(), "a".to_string()]);
}

#[test]
fn only_the_source_extension_is_read() {
    assert_eq!(SOURCE_EXTENSION, "ts");
    assert!(is_source_extension("ts"));
    assert!(!is_source_extension("tsx"));
    assert!(!is_source_extension("TS"));
    assert!(!is_source_extension("js"));
    assert!(!is_source_extension(""));
    assert!(!is_source_extension("t"));
}

#[test]
fn pattern_errors_name_their_pattern() {
    assert_eq!(
        PassError::Pattern(PatternError::GroupMarker).message(),
        "The pattern of the group marker does not compile"
    );
    assert_eq!(
        PatternError::ClassDeclaration.message(),
        "The pattern of the class declaration does not compile"
    );
    assert_eq!(
        PatternError::MethodMarker.message(),
        "The pattern of the route marker does not compile"
    );
}

#[test]
fn a_pass_without_failure_ends_done() {
    let events = [
        PassEvent::Started,
        PassEvent::FileRead,
        PassEvent::FileAccepted,
        PassEvent::FileRead,
        PassEvent::FileAccepted,
        PassEvent::WalkEnded,
        PassEvent::OutputWritten,
    ];
    let mut state = PassState::Idle;
    for event in events {
        state = advance(state, event).unwrap();
    }
    assert_eq!(state, PassState::Done);
    assert_eq!(advance(PassState::Idle, PassEvent::Started), Some(PassState::Walking));
    assert_eq!(advance(PassState::Walking, PassEvent::WalkEnded), Some(PassState::Emitting));
}

#[test]
fn a_pass_fails_while_reading_validating_or_writing() {
    assert_eq!(advance(PassState::Walking, PassEvent::ReadFailed), Some(PassState::Failed));
    assert_eq!(advance(PassState::Validating, PassEvent::FileRefused), Some(PassState::Failed));
    assert_eq!(advance(PassState::Emitting, PassEvent::WriteFailed), Some(PassState::Failed));
    assert_eq!(advance(PassState::Idle, PassEvent::FileRefused), None);
    assert_eq!(advance(PassState::Idle, PassEvent::WriteFailed), None);
    assert_eq!(advance(PassState::Walking, PassEvent::FileRefused), None);
    assert_eq!(advance(PassState::Validating, PassEvent::WriteFailed), None);
}

#[test]
fn done_and_failed_are_final() {
    let events = [
        PassEvent::Started,
        PassEvent::FileRead,
        PassEvent::ReadFailed,
        PassEvent::FileAccepted,
        PassEvent::FileRefused,
        PassEvent::WalkEnded,
        PassEvent::OutputWritten,
        PassEvent::WriteFailed,
    ];
    for event in events {
        assert_eq!(advance(PassState::Done, event), None);
        assert_eq!(advance(PassState::Failed, event), None);
    }
}
