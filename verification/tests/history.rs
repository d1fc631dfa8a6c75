use theseus::history::{History, Index};

#[test]
fn test_history() {
    let mut history = History::new();

    assert_eq!(history.index(), Index::Current);
    assert_eq!(history.previous().as_deref(), None);
    assert_eq!(history.index(), Index::Last);
    assert_eq!(history.previous().as_deref(), None);
    assert_eq!(history.index(), Index::Last);
    assert_eq!(history.next().as_deref(), None);

    history.push("you".to_owned());
    assert_eq!(history.index(), Index::Current);

    assert_eq!(history.previous().as_deref(), Some("you"));
    assert_eq!(history.index(), Index::Last);

    assert_eq!(history.next().as_deref(), None);
    assert_eq!(history.index(), Index::Current);

    history.push("walk".to_owned());
    assert_eq!(history.index(), Index::Current);

    history.push("around".to_owned());
    assert_eq!(history.index(), Index::Current);

    assert_eq!(history.previous().as_deref(), Some("around"));
    assert_eq!(history.index(), Index::Past(0));

    assert_eq!(history.previous().as_deref(), Some("walk"));
    assert_eq!(history.index(), Index::Past(1));

    assert_eq!(history.next().as_deref(), Some("around"));
    assert_eq!(history.index(), Index::Past(0));

    assert_eq!(history.next().as_deref(), None);
    assert_eq!(history.index(), Index::Current);

    assert_eq!(history.previous().as_deref(), Some("around"));
    assert_eq!(history.index(), Index::Past(0));

    assert_eq!(history.previous().as_deref(), Some("walk"));
    assert_eq!(history.index(), Index::Past(1));

    assert_eq!(history.previous().as_deref(), Some("you"));
    assert_eq!(history.index(), Index::Last);

    assert_eq!(history.previous().as_deref(), None);
    assert_eq!(history.index(), Index::Last);

    assert_eq!(history.next().as_deref(), Some("walk"));
    assert_eq!(history.index(), Index::Past(1));

    assert_eq!(history.previous().as_deref(), Some("you"));
    assert_eq!(history.index(), Index::Last);
}

#[test]
fn previous_after_push_gives_the_pushed_command() {
    let mut history = History::new();
    history.push("ls".to_owned());
    history.push("cd /".to_owned());
    assert_eq!(history.previous().as_deref(), Some("cd /"));
}

#[test]
fn next_after_previous_returns_to_where_it_was() {
    let mut history = History::new();
    for c in ["a", "b", "c", "d"] {
        history.push(c.to_owned());
    }
    assert_eq!(history.previous().as_deref(), Some("d"));
    assert_eq!(history.previous().as_deref(), Some("c"));
    let at = history.index();
    assert_eq!(history.previous().as_deref(), Some("b"));
    assert_eq!(history.next().as_deref(), Some("c"));
    assert_eq!(history.index(), at);
}

#[test]
fn push_drops_repeated_neighbours() {
    let mut history = History::new();
    for c in ["x", "x", "y", "y", "x"] {
        history.push(c.to_owned());
    }
    history.reset();
    assert_eq!(history.len(), 3);
    assert_eq!(history.previous().as_deref(), Some("x"));
    assert_eq!(history.previous().as_deref(), Some("y"));
    assert_eq!(history.previous().as_deref(), Some("x"));
    assert_eq!(history.index(), Index::Last);
}

#[test]
fn reset_returns_to_current() {
    let mut history = History::new();
    history.push("one".to_owned());
    history.push("two".to_owned());
    assert_eq!(history.previous().as_deref(), Some("two"));
    history.reset();
    assert_eq!(history.index(), Index::Current);
    assert_eq!(history.next().as_deref(), None);
}

#[test]
fn default_history_is_empty() {
    let history = History::default();
    assert_eq!(history.len(), 0);
    assert_eq!(history.index(), Index::Current);
    assert_eq!(Index::default(), Index::Current);
}
