use fin::cli::Cli;
use fin::item::SourceId;
use fin::period::Period;

#[test]
fn period_reflects_the_named_flag() {
    let cli = Cli { month: true, ..Default::default() };
    assert_eq!(cli.period(), Some(Period::Month));
    let cli = Cli { day: true, prev: true, ..Default::default() };
    assert_eq!(cli.period(), Some(Period::Day));
    assert_eq!(Cli::default().period(), None);
}

#[test]
fn selected_sources_put_github_first() {
    let both = Cli { jira: true, github: true, ..Default::default() };
    assert_eq!(both.selected_sources(), vec![SourceId::new("github"), SourceId::new("jira")]);
    let jira = Cli { jira: true, ..Default::default() };
    assert_eq!(jira.selected_sources(), vec![SourceId::new("jira")]);
    assert!(Cli::default().selected_sources().is_empty());
}
