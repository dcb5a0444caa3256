use mxbot_common::persist::{
    load_step, save_steps, step_context, LoadStep, ReadOutcome, SaveStep,
};

#[test]
fn missing_files_stand_for_the_default() {
    assert!(matches!(
        load_step("store/state.json", ReadOutcome::NotFound),
        LoadStep::UseDefault
    ));
}

#[test]
fn loading_names_the_file_in_errors() {
    match load_step("store/state.json", ReadOutcome::Text("{}".to_owned())) {
        LoadStep::Parse { text, context } => {
            assert_eq!(text, "{}");
            assert_eq!(context, "Parsing store/state.json");
        }
        other => panic!("unexpected {other:?}"),
    }
    match load_step("store/state.json", ReadOutcome::Failed) {
        LoadStep::Fail { context } => assert_eq!(context, "Reading store/state.json"),
        other => panic!("unexpected {other:?}"),
    }
}

#[test]
fn files_are_written_beside_and_moved_over() {
    let steps = save_steps("store/state.json", Some("store"), "store/state.tmp");
    let described: Vec<String> = steps.iter().map(|step| format!("{step:?}")).collect();
    assert_eq!(
        described,
        vec![
            "CreateDir(\"store\")",
            "Write(\"store/state.tmp\")",
            "Rename(\"store/state.tmp\", \"store/state.json\")",
        ]
    );
    assert_eq!(save_steps("state.json", Some(""), "state.tmp").len(), 2);
    assert_eq!(save_steps("state.json", None, "state.tmp").len(), 2);
    let contexts: Vec<Option<String>> = steps.iter().map(step_context).collect();
    assert_eq!(
        contexts,
        vec![
            None,
            Some("Writing store/state.tmp".to_owned()),
            Some("Replacing store/state.json".to_owned()),
        ]
    );
    assert!(matches!(steps[1], SaveStep::Write(_)));
}
