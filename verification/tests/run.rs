use litho::graph::CompileError;
use litho::knowledge::{choose_config, decide_sync, ConfigSource, SyncDecision, DEFAULT_CONFIG};
use litho::receipt::{SemanticDocumentationReceipt, ValidationReceipt, ValidatorOutput};
use litho::run::{
    accept_identity, expects, receipt_path, step, RunAction, RunError, RunEvent, RunState,
    SemanticDocsOptions, Variable,
};

const DOCUMENT: &str = "{\"format_version\":3,\"index\":{\"a\":{\"docs\":\"d\"}}}";

fn options() -> SemanticDocsOptions {
    SemanticDocsOptions {
        rustdoc_json: "in.json".to_string(),
        output: "out/graph.trig".to_string(),
        receipt: None,
        repository: Some("acme/demo".to_string()),
        revision: Some("abc123".to_string()),
        open_ontologies_bin: None,
    }
}

fn start(options: &SemanticDocsOptions, raw: &str) -> (RunState, RunAction) {
    step(options, RunState::AwaitingInput, RunEvent::Input(raw.to_string()))
}

fn receipt_of(state: &RunState) -> &SemanticDocumentationReceipt {
    match state {
        RunState::AwaitingReceiptWrite { receipt } => receipt,
        RunState::Finished { receipt } => receipt,
        _ => panic!("no receipt"),
    }
}

fn error_of(action: RunAction) -> RunError {
    match action {
        RunAction::Fail(error) => error,
        other => panic!("no failure: {:?}", other),
    }
}

fn report(exit_code: Option<i32>, stdout: &[u8], stderr: &[u8], success: bool) -> ValidatorOutput {
    ValidatorOutput {
        exit_code,
        stdout: stdout.to_vec(),
        stderr: stderr.to_vec(),
        success,
    }
}

#[test]
fn validators_leave_text_whatever_they_write() {
    let receipt = ValidationReceipt::completed(
        "v".to_string(),
        &report(None, "é ok".as_bytes(), b"\xc3(", false),
    );
    assert_eq!(receipt.validator, "v");
    assert!(receipt.requested);
    assert_eq!(receipt.exit_code, None);
    assert_eq!(receipt.stdout, "é ok");
    assert_eq!(receipt.stderr, "\u{fffd}(");
    assert!(!receipt.validated);
    assert!(receipt.refused());
    assert!(!ValidationReceipt::not_requested().refused());
}

#[test]
fn a_run_without_validation_writes_graph_and_receipt() {
    let options = options();
    let (state, action) = start(&options, DOCUMENT);
    assert!(matches!(action, RunAction::WriteGraph));
    match &state {
        RunState::AwaitingGraphWrite { trig, .. } => {
            assert!(trig.contains("sdoc:revision \"abc123\""));
            assert!(trig.contains("rdf:value \"d\""));
        }
        _ => panic!("no graph"),
    }
    let (state, action) = step(&options, state, RunEvent::GraphWritten);
    match action {
        RunAction::WriteReceipt(path) => assert_eq!(path, "out/graph.trig.receipt.json"),
        other => panic!("no receipt: {:?}", other),
    }
    let receipt = receipt_of(&state);
    assert_eq!(receipt.schema_version, "litho.semantic-documentation.receipt/v1");
    assert_eq!(receipt.extractor, "rustdoc-json");
    assert_eq!(receipt.rustdoc_format_version, 3);
    assert_eq!(receipt.repository, "acme/demo");
    assert_eq!(receipt.revision, "abc123");
    assert_eq!(receipt.input, "in.json");
    assert_eq!(receipt.output, "out/graph.trig");
    assert_eq!(receipt.item_count, 1);
    assert_eq!(receipt.documented_item_count, 1);
    assert_eq!(receipt.reference_count, 0);
    assert_eq!(receipt.source_span_count, 0);
    assert_eq!(receipt.authority, "none");
    assert_eq!(receipt.standing, "PARTIAL_ALIVE");
    assert_eq!(receipt.falsifiers.len(), 6);
    assert_eq!(receipt.falsifiers[2], "semantic graph cannot be written");
    assert_eq!(receipt.validation.validator, "open-ontologies");
    assert!(!receipt.validation.requested);
    assert!(!receipt.validation.validated);
    let (state, action) = step(&options, state, RunEvent::ReceiptWritten);
    assert!(matches!(action, RunAction::Succeed));
    assert_eq!(
        receipt_of(&state).summary(),
        "semantic documentation: items=1 documented=1 references=0 spans=0 standing=PARTIAL_ALIVE authority=none"
    );
}

#[test]
fn a_refused_graph_keeps_its_receipt() {
    let mut options = options();
    options.open_ontologies_bin = Some("/bin/oo".to_string());
    options.receipt = Some("r.json".to_string());
    let (state, _) = start(&options, DOCUMENT);
    let (state, action) = step(&options, state, RunEvent::GraphWritten);
    assert!(matches!(action, RunAction::Validate));
    let output = report(Some(1), b"out\xff", b"err", false);
    let (state, action) = step(&options, state, RunEvent::Validated(output));
    assert!(matches!(action, RunAction::WriteReceipt(_)));
    assert_eq!(receipt_of(&state).validation.validator, "/bin/oo");
    assert!(receipt_of(&state).validation.requested);
    assert!(receipt_of(&state).validation.refused());
    assert_eq!(receipt_of(&state).validation.stdout, "out\u{fffd}");
    assert_eq!(receipt_of(&state).validation.stderr, "err");
    assert_eq!(receipt_of(&state).standing, "PARTIAL_ALIVE");
    let (state, action) = step(&options, state, RunEvent::ReceiptWritten);
    let error = error_of(action);
    assert!(matches!(error, RunError::ValidationRefused(Some(1))));
    assert_eq!(
        error.message(&options),
        "Open Ontologies validation refused semantic documentation graph (exit Some(1)); receipt preserved at r.json"
    );
    assert_eq!(receipt_of(&state).validation.exit_code, Some(1));
    assert!(RunError::ValidationRefused(None)
        .message(&options)
        .contains("(exit None)"));
    assert!(RunError::ValidationRefused(Some(-9))
        .message(&options)
        .contains("(exit Some(-9))"));
}

#[test]
fn a_validated_graph_keeps_its_standing() {
    let mut options = options();
    options.open_ontologies_bin = Some("oo".to_string());
    let (state, _) = start(&options, DOCUMENT);
    let (state, _) = step(&options, state, RunEvent::GraphWritten);
    let (state, _) = step(
        &options,
        state,
        RunEvent::Validated(report(Some(0), b"ok", b"", true)),
    );
    assert!(!receipt_of(&state).validation.refused());
    let (state, action) = step(&options, state, RunEvent::ReceiptWritten);
    assert!(matches!(action, RunAction::Succeed));
    assert!(receipt_of(&state).validation.validated);
    assert_eq!(receipt_of(&state).standing, "PARTIAL_ALIVE");
    assert_eq!(receipt_of(&state).authority, "none");
}

#[test]
fn identities_come_from_variables_where_options_are_missing() {
    let mut options = options();
    options.revision = None;
    options.repository = None;
    let (state, action) = start(&options, DOCUMENT);
    assert!(matches!(action, RunAction::ReadVariable(Variable::Revision)));
    assert!(expects(&state, &RunEvent::Variable(None)));
    assert!(!expects(&state, &RunEvent::GraphWritten));
    let (state, action) =
        step(&options, state, RunEvent::Variable(Some("sha".to_string())));
    assert!(matches!(action, RunAction::ReadVariable(Variable::Repository)));
    let (state, action) =
        step(&options, state, RunEvent::Variable(Some("me/it".to_string())));
    assert!(matches!(action, RunAction::WriteGraph));
    match state {
        RunState::AwaitingGraphWrite { draft, .. } => {
            assert_eq!(draft.revision, "sha");
            assert_eq!(draft.repository, "me/it");
        }
        _ => panic!("no graph"),
    }
    assert_eq!(Variable::Revision.name(), "GITHUB_SHA");
    assert_eq!(Variable::Repository.name(), "GITHUB_REPOSITORY");
}

#[test]
fn missing_identities_are_refused() {
    let mut no_revision = options();
    no_revision.revision = None;
    let (state, _) = start(&no_revision, DOCUMENT);
    let (_, action) = step(&no_revision, state, RunEvent::Variable(None));
    let error = error_of(action);
    assert!(matches!(error, RunError::MissingRevision));
    assert_eq!(
        error.message(&no_revision),
        "semantic documentation requires an exact revision via --revision or GITHUB_SHA"
    );

    let mut blank = options();
    blank.revision = Some(" \t".to_string());
    let (state, action) = start(&blank, DOCUMENT);
    assert!(matches!(error_of(action), RunError::MissingRevision));
    assert!(matches!(state, RunState::Failed));

    let mut no_repository = options();
    no_repository.repository = None;
    let (state, _) = start(&no_repository, DOCUMENT);
    let (_, action) = step(&no_repository, state, RunEvent::Variable(Some("  ".to_string())));
    let error = error_of(action);
    assert!(matches!(error, RunError::MissingRepository));
    assert_eq!(
        error.message(&no_repository),
        "semantic documentation requires a repository identity via --repository or GITHUB_REPOSITORY"
    );
    let mut blank_repository = options();
    blank_repository.repository = Some("\u{3000}".to_string());
    let (state, action) = start(&blank_repository, DOCUMENT);
    assert!(matches!(error_of(action), RunError::MissingRepository));
    assert!(matches!(state, RunState::Failed));
    assert_eq!(accept_identity(Some(" x ".to_string())), Some(" x ".to_string()));
}

#[test]
fn faulty_documents_are_refused() {
    let options = options();
    let (_, action) = start(&options, "{");
    let error = error_of(action);
    assert!(matches!(
        &error,
        RunError::InvalidJson(reason) if reason == "EOF while parsing an object at line 1 column 1"
    ));
    assert_eq!(error.message(&options), "invalid Rustdoc JSON at in.json");

    let (_, action) = start(&options, "{\"index\":{}}");
    let error = error_of(action);
    assert!(matches!(error, RunError::Compile(CompileError::MissingFormatVersion)));
    assert_eq!(error.message(&options), "Rustdoc JSON missing numeric format_version");

    let (_, action) = start(&options, "{\"format_version\":1}");
    assert!(matches!(
        error_of(action),
        RunError::Compile(CompileError::MissingIndex)
    ));
}

#[test]
fn the_receipt_goes_where_it_is_sent() {
    let mut options = options();
    assert_eq!(receipt_path(&options), "out/graph.trig.receipt.json");
    options.receipt = Some("elsewhere.json".to_string());
    assert_eq!(receipt_path(&options), "elsewhere.json");
}

#[test]
fn the_configuration_is_chosen_in_turn() {
    assert_eq!(DEFAULT_CONFIG, "litho.toml");
    assert!(matches!(choose_config(Some(1), Some(2), true), ConfigSource::Given(1)));
    assert!(matches!(choose_config(None, Some(2), true), ConfigSource::Given(2)));
    assert!(matches!(choose_config::<u8>(None, None, true), ConfigSource::DefaultFile));
    assert!(matches!(choose_config::<u8>(None, None, false), ConfigSource::BuiltIn));
}

#[test]
fn a_sync_is_forced_or_due() {
    assert_eq!(decide_sync(true, None), SyncDecision::Sync);
    assert_eq!(decide_sync(true, Some(false)), SyncDecision::Sync);
    assert_eq!(decide_sync(false, None), SyncDecision::Ask);
    assert_eq!(decide_sync(false, Some(true)), SyncDecision::Sync);
    assert_eq!(decide_sync(false, Some(false)), SyncDecision::UpToDate);
}

#[test]
fn the_graph_does_not_depend_on_where_identities_come_from() {
    let by_option = options();
    let (state, _) = start(&by_option, DOCUMENT);
    let trig_of = |state: RunState| match state {
        RunState::AwaitingGraphWrite { trig, .. } => trig,
        _ => panic!("no graph"),
    };
    let expected = trig_of(state);
    let mut by_variable = options();
    by_variable.revision = None;
    by_variable.repository = None;
    by_variable.output = "elsewhere.trig".to_string();
    let (state, _) = start(&by_variable, DOCUMENT);
    let (state, _) = step(
        &by_variable,
        state,
        RunEvent::Variable(Some("abc123".to_string())),
    );
    let (state, _) = step(
        &by_variable,
        state,
        RunEvent::Variable(Some("acme/demo".to_string())),
    );
    assert_eq!(trig_of(state), expected);
}
