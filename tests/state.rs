use cortev::SessionState;

#[test]
fn test_transition() {
    let state = SessionState::Unchanged;
    assert_eq!(state.transition(SessionState::Changed), SessionState::Changed);
    assert_eq!(state.transition(SessionState::Regenerated), SessionState::Regenerated);
    let state = SessionState::Changed;

    assert_eq!(state.transition(SessionState::Unchanged), SessionState::Changed);
    assert_eq!(state.transition(SessionState::Regenerated), SessionState::Regenerated);

    let state = SessionState::Regenerated;
    assert_eq!(state.transition(SessionState::Unchanged), SessionState::Regenerated);

    assert_eq!(state.transition(SessionState::Changed), SessionState::Regenerated);

    let state = SessionState::Invalidated;
    assert_eq!(state.transition(SessionState::Unchanged), SessionState::Invalidated);

    assert_eq!(state.transition(SessionState::Changed), SessionState::Invalidated);

    assert_eq!(state.transition(SessionState::Regenerated), SessionState::Regenerated);
}

const ALL: [SessionState; 4] = [
    SessionState::Unchanged,
    SessionState::Changed,
    SessionState::Regenerated,
    SessionState::Invalidated,
];

fn expected(current: SessionState, requested: SessionState) -> SessionState {
    match (current, requested) {
        (_, SessionState::Invalidated) => SessionState::Invalidated,
        (_, SessionState::Regenerated) => SessionState::Regenerated,
        (SessionState::Unchanged, SessionState::Changed) => SessionState::Changed,
        (current, _) => current,
    }
}

#[test]
fn two_transitions_follow_the_merge_table() {
    for s in ALL {
        for t1 in ALL {
            for t2 in ALL {
                let got = s.transition(t1).transition(t2);
                assert_eq!(got, expected(expected(s, t1), t2));
            }
        }
    }
    assert_eq!(SessionState::Invalidated.transition(SessionState::Changed), SessionState::Invalidated);
    assert_eq!(SessionState::Changed.transition(SessionState::Unchanged), SessionState::Changed);
    assert_eq!(SessionState::Invalidated.transition(SessionState::Regenerated), SessionState::Regenerated);
    assert_eq!(SessionState::Regenerated.transition(SessionState::Invalidated), SessionState::Invalidated);
}

#[test]
fn state_names() {
    assert_eq!(SessionState::Unchanged.as_str(), "unchanged");
    assert_eq!(SessionState::Changed.as_str(), "changed");
    assert_eq!(SessionState::Regenerated.as_str(), "regenerated");
    assert_eq!(SessionState::Invalidated.as_str(), "invalidated");
    assert_eq!(SessionState::default(), SessionState::Unchanged);
}
