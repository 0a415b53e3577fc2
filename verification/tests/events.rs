use stitch_pty::terminal::events::TermEvent;

#[test]
fn test_tags_are_stable() {
    assert_eq!(TermEvent::Bell.tag(), "bell");
    assert_eq!(TermEvent::TitleChanged("t".into()).tag(), "title");
    assert_eq!(TermEvent::IconChanged("i".into()).tag(), "icon");
    assert_eq!(TermEvent::CwdChanged("/x".into()).tag(), "cwd");
    assert_eq!(TermEvent::AltScreen { entered: true }.tag(), "altscreen");
    assert_eq!(TermEvent::ScrollbackGrew(3).tag(), "scrollback_grew");
}
