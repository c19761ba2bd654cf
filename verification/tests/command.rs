use triggercd::command::{plan_startup, CommandSpec, Startup};

fn words(list: &[&str]) -> Vec<String> {
    list.iter().map(|word| String::from(*word)).collect()
}

#[test]
fn empty_command_is_not_a_specification() {
    assert!(CommandSpec::new(Vec::new()).is_none());
}

#[test]
fn first_word_is_the_program() {
    let spec = CommandSpec::new(words(&["echo", "hello"])).unwrap();
    assert_eq!(spec.program(), "echo");
    assert_eq!(spec.arguments(), &[String::from("hello")][..]);
}

#[test]
fn program_alone_has_no_arguments() {
    let spec = CommandSpec::new(words(&["false"])).unwrap();
    assert_eq!(spec.program(), "false");
    assert!(spec.arguments().is_empty());
}

#[test]
fn arguments_keep_their_order() {
    let spec = CommandSpec::new(words(&["sh", "-c", "echo out; echo err >&2", ""])).unwrap();
    assert_eq!(spec.program(), "sh");
    assert_eq!(spec.arguments(), &words(&["-c", "echo out; echo err >&2", ""])[..]);
}

#[test]
fn startup_rejects_an_empty_command() {
    assert!(matches!(plan_startup(Vec::new(), false), Startup::Reject));
    assert!(matches!(plan_startup(Vec::new(), true), Startup::Reject));
}

#[test]
fn startup_serves_by_default() {
    match plan_startup(words(&["/nonexistent/binary"]), false) {
        Startup::Serve(spec) => {
            assert_eq!(spec.program(), "/nonexistent/binary");
            assert!(spec.arguments().is_empty());
        }
        other => panic!("expected to serve, got {:?}", other),
    }
}

#[test]
fn startup_tries_locally_on_request() {
    match plan_startup(words(&["echo", "hello"]), true) {
        Startup::Try(spec) => {
            assert_eq!(spec.program(), "echo");
            assert_eq!(spec.arguments(), &words(&["hello"])[..]);
        }
        other => panic!("expected a trial run, got {:?}", other),
    }
}
