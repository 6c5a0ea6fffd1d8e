use vote_app::VoteApp;

fn s(x: &str) -> String {
    x.to_string()
}

#[test]
fn end_to_end_round() {
    let mut app = VoteApp::default();
    assert_eq!(app.get_round(), 0);
    app.add_candidate(s("alice"));
    app.add_candidate(s("bob"));
    assert!(app.vote(s("alice"), s("voter1")));
    assert!(!app.vote(s("bob"), s("voter1")));
    assert!(app.vote(s("bob"), s("voter2")));
    assert_eq!(app.get_score(s("alice")), 1);
    assert_eq!(app.get_score(s("bob")), 1);
    assert_eq!(app.winner(), (s("alice"), 1));
    assert_eq!(app.next_round(), (s("alice"), 1));
    assert_eq!(app.get_round(), 1);
    assert!(app.get_candidates().is_empty());
    assert_eq!(app.last_winner(), (s("alice"), 1));
}

#[test]
fn candidates_keep_insertion_order_and_duplicates() {
    let mut app = VoteApp::default();
    assert!(app.get_candidates().is_empty());
    for c in ["carol", "alice", "bob", "alice"] {
        app.add_candidate(s(c));
    }
    assert_eq!(app.get_candidates(), vec![s("carol"), s("alice"), s("bob"), s("alice")]);
}

#[test]
fn candidates_are_independent_copies() {
    let mut app = VoteApp::default();
    app.add_candidate(s("alice"));
    let mut copy = app.get_candidates();
    copy.push(s("mallory"));
    copy[0] = s("eve");
    assert_eq!(app.get_candidates(), vec![s("alice")]);
}

#[test]
fn second_vote_in_round_rejected_without_change() {
    let mut app = VoteApp::default();
    app.add_candidate(s("alice"));
    app.add_candidate(s("bob"));
    assert!(app.vote(s("alice"), s("v")));
    assert_eq!(app.get_score(s("alice")), 1);
    assert!(!app.vote(s("bob"), s("v")));
    assert!(!app.vote(s("alice"), s("v")));
    app.add_candidate(s("carol"));
    assert!(!app.vote(s("carol"), s("v")));
    assert_eq!(app.get_score(s("alice")), 1);
    assert_eq!(app.get_score(s("bob")), 0);
    assert_eq!(app.get_score(s("carol")), 0);
}

#[test]
fn no_winner_when_empty() {
    let mut app = VoteApp::default();
    assert_eq!(app.winner(), (s("none"), 0));
    app.add_candidate(s("alice"));
    assert!(app.vote(s("alice"), s("v")));
    app.next_round();
    assert_eq!(app.winner(), (s("none"), 0));
}

#[test]
fn tie_goes_to_first_inserted() {
    let mut app = VoteApp::default();
    app.add_candidate(s("a"));
    app.add_candidate(s("b"));
    assert_eq!(app.winner(), (s("a"), 0));
    assert!(app.vote(s("b"), s("1")));
    assert!(app.vote(s("a"), s("2")));
    assert_eq!(app.winner(), (s("a"), 1));
}

#[test]
fn later_candidate_with_more_votes_wins() {
    let mut app = VoteApp::default();
    app.add_candidate(s("a"));
    app.add_candidate(s("b"));
    app.add_candidate(s("c"));
    assert!(app.vote(s("b"), s("1")));
    assert!(app.vote(s("c"), s("2")));
    assert!(app.vote(s("c"), s("3")));
    assert!(app.vote(s("b"), s("4")));
    assert!(app.vote(s("c"), s("5")));
    assert_eq!(app.winner(), (s("c"), 3));
}

#[test]
fn candidate_without_votes_counts_zero() {
    let mut app = VoteApp::default();
    app.add_candidate(s("quiet"));
    app.add_candidate(s("loud"));
    assert_eq!(app.get_score(s("quiet")), 0);
    assert!(app.vote(s("loud"), s("v")));
    assert_eq!(app.winner(), (s("loud"), 1));
}

#[test]
fn unregistered_name_gets_a_count() {
    let mut app = VoteApp::default();
    app.add_candidate(s("alice"));
    assert!(app.vote(s("stray"), s("v1")));
    assert!(app.vote(s("stray"), s("v2")));
    assert_eq!(app.get_score(s("stray")), 2);
    assert_eq!(app.get_candidates(), vec![s("alice")]);
    assert_eq!(app.winner(), (s("alice"), 0));
}

#[test]
fn advance_twice_reports_none() {
    let mut app = VoteApp::default();
    app.add_candidate(s("alice"));
    assert!(app.vote(s("alice"), s("v")));
    assert_eq!(app.next_round(), (s("alice"), 1));
    assert_eq!(app.get_round(), 1);
    assert_eq!(app.next_round(), (s("none"), 0));
    assert_eq!(app.get_round(), 2);
    assert_eq!(app.last_winner(), (s("none"), 0));
}

#[test]
fn voter_may_vote_again_next_round() {
    let mut app = VoteApp::default();
    app.add_candidate(s("alice"));
    assert!(app.vote(s("alice"), s("v")));
    app.next_round();
    assert_eq!(app.get_score(s("alice")), 0);
    app.add_candidate(s("bob"));
    assert!(app.vote(s("bob"), s("v")));
    assert_eq!(app.get_score(s("bob")), 1);
    assert!(!app.vote(s("bob"), s("v")));
}

#[test]
fn fresh_ledger_state() {
    let app = VoteApp::default();
    assert_eq!(app.get_round(), 0);
    assert_eq!(app.last_winner(), (s(""), 0));
    assert!(app.get_candidates().is_empty());
    assert_eq!(app.get_score(s("anyone")), 0);
}

#[test]
fn parts_round_trip() {
    let mut app = VoteApp::default();
    app.add_candidate(s("alice"));
    app.add_candidate(s("bob"));
    assert!(app.vote(s("bob"), s("v1")));
    let (h, v, c, r, w, sc) = app.into_parts();
    let mut back = VoteApp::from_parts(h, v, c, r, w, sc).unwrap();
    assert_eq!(back.get_candidates(), vec![s("alice"), s("bob")]);
    assert_eq!(back.get_score(s("bob")), 1);
    assert!(!back.vote(s("alice"), s("v1")));
    assert!(back.vote(s("alice"), s("v2")));
    assert_eq!(back.winner(), (s("alice"), 1));
}

#[test]
fn parts_rejected_when_unsound() {
    let dup = vec![(s("a"), 1), (s("a"), 0)];
    assert!(VoteApp::from_parts(vec![s("v")], dup, vec![], 0, s(""), 0).is_none());
    let too_many = vec![(s("a"), 2)];
    assert!(VoteApp::from_parts(vec![s("v")], too_many, vec![], 0, s(""), 0).is_none());
    let fine = vec![(s("a"), 1), (s("b"), 1)];
    let app = VoteApp::from_parts(vec![s("v"), s("w")], fine, vec![s("a")], 3, s("x"), 4).unwrap();
    assert_eq!(app.get_round(), 3);
    assert_eq!(app.last_winner(), (s("x"), 4));
    assert_eq!(app.get_score(s("b")), 1);
}
