use actions_rs::command::{escape_data, escape_property, WorkflowCommand};

#[test]
fn data_escape_table() {
    assert_eq!(escape_data("%"), "%25");
    assert_eq!(escape_data("\r"), "%0D");
    assert_eq!(escape_data("\n"), "%0A");
    assert_eq!(escape_data(":,"), ":,");
    assert_eq!(escape_data("100%\r\ndone"), "100%25%0D%0Adone");
    assert_eq!(escape_data(""), "");
}

#[test]
fn property_escape_table() {
    assert_eq!(escape_property("%"), "%25");
    assert_eq!(escape_property("\r"), "%0D");
    assert_eq!(escape_property("\n"), "%0A");
    assert_eq!(escape_property(":"), "%3A");
    assert_eq!(escape_property(","), "%2C");
    assert_eq!(escape_property("a:b,c%d"), "a%3Ab%2Cc%25d");
}

#[test]
fn escape_keeps_unicode() {
    assert_eq!(escape_data("héllo ✓"), "héllo ✓");
    assert_eq!(escape_property("ß:ü"), "ß%3Aü");
}

#[test]
fn command_with_properties() {
    let c = WorkflowCommand::new("set-output")
        .property("name", "a,b")
        .message("x\ny");
    assert_eq!(c.to_string(), "::set-output name=a%2Cb::x%0Ay");
}

#[test]
fn command_without_message() {
    assert_eq!(WorkflowCommand::new("endgroup").to_string(), "::endgroup::");
}

#[test]
fn property_opt_skips_none() {
    let c = WorkflowCommand::new("error")
        .property_opt("title", None)
        .property_opt("file", Some("f".to_string()))
        .message("m");
    assert_eq!(c.to_string(), "::error file=f::m");
}

#[test]
fn message_replaces_earlier_message() {
    let c = WorkflowCommand::new("debug").message("first").message("second");
    assert_eq!(c.to_string(), "::debug::second");
}
