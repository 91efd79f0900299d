use actions_rs::{Annotation, AnnotationKind};

#[test]
fn empty_annotation_is_plain() {
    let c = Annotation::new().command(AnnotationKind::Error, "boom");
    assert_eq!(c.to_string(), "::error::boom");
}

#[test]
fn full_property_order() {
    let c = Annotation::new()
        .title("t")
        .file("f.rs")
        .line(1)
        .end_line(2)
        .col(3)
        .end_column(4)
        .command(AnnotationKind::Notice, "msg");
    assert_eq!(
        c.to_string(),
        "::notice title=t,file=f.rs,line=1,endLine=2,col=3,endColumn=4::msg"
    );
}

#[test]
fn partial_skips_unset() {
    let c = Annotation::new()
        .file("x")
        .line(7)
        .command(AnnotationKind::Warning, "w");
    assert_eq!(c.to_string(), "::warning file=x,line=7::w");
}

#[test]
fn doc_example_renders() {
    let cmd = Annotation::new()
        .file("src/lib.rs")
        .line(10)
        .end_line(12)
        .title("clippy")
        .command(AnnotationKind::Warning, "unused variable");
    assert_eq!(
        cmd.to_string(),
        "::warning title=clippy,file=src/lib.rs,line=10,endLine=12::unused variable"
    );
}

#[test]
fn title_properties_are_escaped() {
    let cmd = Annotation::new()
        .file("src/parser.rs")
        .line(42)
        .col(5)
        .end_column(7)
        .title("clippy::needless_clone")
        .warning("redundant clone of `cfg`");
    assert_eq!(
        cmd.to_string(),
        "::warning title=clippy%3A%3Aneedless_clone,file=src/parser.rs,line=42,col=5,endColumn=7::redundant clone of `cfg`"
    );
}

#[test]
fn kind_helpers_pick_the_channel() {
    let a = Annotation::new().line(3);
    assert_eq!(a.notice("n").to_string(), "::notice line=3::n");
    assert_eq!(a.warning("w").to_string(), "::warning line=3::w");
    assert_eq!(a.error("e").to_string(), "::error line=3::e");
    assert_eq!(AnnotationKind::Notice.command_name(), "notice");
    assert_eq!(AnnotationKind::Warning.command_name(), "warning");
    assert_eq!(AnnotationKind::Error.command_name(), "error");
}

#[test]
fn later_setter_replaces_earlier_value() {
    let c = Annotation::new()
        .line(1)
        .line(4294967295)
        .command(AnnotationKind::Error, "m");
    assert_eq!(c.to_string(), "::error line=4294967295::m");
}

#[test]
fn message_newlines_are_escaped() {
    let c = Annotation::new().command(AnnotationKind::Error, "a\r\nb%c");
    assert_eq!(c.to_string(), "::error::a%0D%0Ab%25c");
}

#[test]
fn annotation_stays_on_one_line() {
    let line = Annotation::new()
        .title("two\nlines")
        .file("a,b:c\r.rs")
        .line(1)
        .command(AnnotationKind::Warning, "x\ny")
        .to_string();
    assert!(!line.contains('\n') && !line.contains('\r'));
    assert_eq!(
        line,
        "::warning title=two%0Alines,file=a%2Cb%3Ac%0D.rs,line=1::x%0Ay"
    );
}
