use swayctl::{Workspace, WorkspaceRecord};

fn dummy_ws(num: i32, name: &str) -> WorkspaceRecord {
    WorkspaceRecord {
        num,
        name: name.to_string(),
        visible: true,
        focused: true,
        urgent: false,
        output: "".to_string(),
    }
}

#[test]
fn new_workspaces() {
    assert_eq!(
        Workspace::from_record(&dummy_ws(1, "1")),
        Workspace {
            num: Some(1),
            name: None,
            visible: true,
            focused: true,
            output: Some("".to_string()),
        }
    );
    assert_eq!(
        Workspace::from_record(&dummy_ws(1, "1: mail")),
        Workspace {
            num: Some(1),
            name: Some("mail".to_string()),
            visible: true,
            focused: true,
            output: Some("".to_string()),
        }
    );
    assert_eq!(
        Workspace::from_record(&dummy_ws(1, "mail")),
        Workspace {
            num: None,
            name: Some("mail".to_string()),
            visible: true,
            focused: true,
            output: Some("".to_string()),
        }
    );
    assert_eq!(
        Workspace::from_record(&dummy_ws(-1, "-1: mail")),
        Workspace {
            num: None,
            name: Some("mail".to_string()),
            visible: true,
            focused: true,
            output: Some("".to_string()),
        }
    )
}

#[test]
fn main_new_workspaces() {
    let w = Workspace::from_record(&dummy_ws(1, "1"));
    assert_eq!(w.num, Some(1));
    assert_eq!(w.name, None);
    let w = Workspace::from_record(&dummy_ws(1, "1: mail"));
    assert_eq!(w.num, Some(1));
    assert_eq!(w.name, Some("mail".to_string()));
    let w = Workspace::from_record(&dummy_ws(1, "mail"));
    assert_eq!(w.num, None);
    assert_eq!(w.name, Some("mail".to_string()));
    let w = Workspace::from_record(&dummy_ws(-1, "-1: mail"));
    assert_eq!(w.num, None);
    assert_eq!(w.name, Some("mail".to_string()));
}

#[test]
fn decode_sentinel_label() {
    // The manager's "no number" sentinel is never surfaced as a real number,
    // even when the label repeats it.
    let w = Workspace::from_record(&dummy_ws(-1, "-1"));
    assert_eq!(w.num, None);
    assert_eq!(w.name, Some("-1".to_string()));
}

#[test]
fn decode_splits_on_first_separator_only() {
    // Everything after the first ": " belongs to the name.
    let w = Workspace::from_record(&dummy_ws(5, "a: b: c"));
    assert_eq!(w.num, Some(5));
    assert_eq!(w.name, Some("b: c".to_string()));
}

#[test]
fn encode_joins_number_and_name() {
    assert_eq!(Workspace::new(Some(5), Some("mail".to_string())).id(), "5: mail");
    assert_eq!(Workspace::new(Some(5), None).id(), "5");
    assert_eq!(Workspace::new(None, Some("mail".to_string())).id(), "mail");
    assert_eq!(Workspace::new(None, None).id(), "");
}

#[test]
fn encode_negative_number() {
    assert_eq!(Workspace::new(Some(-12), None).id(), "-12");
    assert_eq!(Workspace::new(Some(i32::MIN), None).id(), "-2147483648");
    assert_eq!(Workspace::new(Some(i32::MAX), None).id(), "2147483647");
}

#[test]
fn decode_then_encode_restores_label() {
    // A label carrying both parts decodes to the identity whose encoding is
    // the label itself.
    let w = Workspace::from_record(&dummy_ws(7, "7: irc"));
    assert_eq!(w.id(), "7: irc");
    let w = Workspace::from_record(&dummy_ws(7, "7"));
    assert_eq!(w.id(), "7");
    let w = Workspace::from_record(&dummy_ws(-1, "irc"));
    assert_eq!(w.id(), "irc");
}
