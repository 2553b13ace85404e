use std::collections::HashSet;

use amcheck::action::Effect;
use amcheck::bodies::FetchedBody;
use amcheck::configuration::{
    Action, BodyCheck, BodyCheckRegex, CheckerTree, CountCheck, DateCheck, DateEmpty, Filter,
    MatchCheck, MatchEmpty, MatcherPart,
};
use amcheck::error::CheckError;
use amcheck::evaluator::{CountBranch, Evaluator, Step};
use amcheck::mail::{Mail, MailDate};
use amcheck::my_imap_wrapper::Uid;
use amcheck::pattern::Pattern;

const DAY: i128 = 86_400_000_000_000;
const T: i128 = 1_700_000_000_000_000_000;

fn mail(uid: u32, subject: &str, from: &str, unix_nanos: i128) -> Mail {
    Mail {
        uid: Uid(uid),
        subject: subject.to_string(),
        from_addr: from.to_string(),
        date: MailDate { unix_nanos, offset_seconds: 0 },
    }
}

fn action(a: Action) -> Box<CheckerTree> {
    Box::new(CheckerTree::Action(a))
}

fn uids(mails: &[&Mail]) -> Vec<u32> {
    mails.iter().map(|m| m.uid.0).collect()
}

/// Drives a walk that needs no store and collects what each step reported.
fn walk<'a>(ev: &mut Evaluator<'a>, now: Option<MailDate>) -> Vec<Step<'a>> {
    let mut steps = Vec::new();
    loop {
        let step = ev.step_at(now);
        if matches!(step, Step::Finished) {
            return steps;
        }
        steps.push(step);
    }
}

#[test]
fn scenario_match_splits_by_subject() {
    let tree = CheckerTree::MatchCheck(MatchCheck {
        matchers: vec![Filter::Match(MatcherPart::Subject(Pattern::new("^Cron ").unwrap()))],
        empty_ok: MatchEmpty::Neither,
        matched: action(Action::Success),
        not_matched: action(Action::Alert),
    });
    let a = mail(1, "Cron daily", "root@example.org", T);
    let b = mail(2, "Hello", "root@example.org", T);
    let c = mail(3, "Cron weekly", "root@example.org", T);
    let mut ev = Evaluator::new(false, &tree, vec![&a, &b, &c]);
    let steps = walk(&mut ev, None);
    assert_eq!(steps.len(), 3);
    assert!(matches!(steps[0], Step::Split { first: 2, second: 1 }));
    assert!(matches!(steps[1], Step::Act(Effect::Passed { count: 2 })));
    match &steps[2] {
        Step::Act(Effect::Alert { count, details }) => {
            assert_eq!(*count, 1);
            assert_eq!(uids(details), vec![2]);
        }
        other => panic!("unexpected step {:?}", other),
    }
    assert!(ev.is_finished());
}

#[test]
fn scenario_count_of_nothing_alerts() {
    let tree = CheckerTree::CountCheck(CountCheck {
        count: 1,
        greater_than: action(Action::Success),
        less_than: action(Action::Alert),
        equal: action(Action::Nothing),
    });
    let mut ev = Evaluator::new(false, &tree, vec![]);
    let steps = walk(&mut ev, None);
    assert_eq!(steps.len(), 2);
    assert!(matches!(steps[0], Step::Counted { branch: CountBranch::Less, size: 0 }));
    match &steps[1] {
        Step::Act(Effect::Alert { count, details }) => {
            assert_eq!(*count, 0);
            assert!(details.is_empty());
        }
        other => panic!("unexpected step {:?}", other),
    }
}

#[test]
fn scenario_date_routes_old_mail_to_delete() {
    let tree = CheckerTree::DateCheck(DateCheck {
        days: 2,
        empty_ok: DateEmpty::Neither,
        older_than: action(Action::Delete),
        younger_than: action(Action::Nothing),
    });
    let old = mail(7, "old", "a@example.org", T - 3 * DAY);
    let young = mail(8, "young", "a@example.org", T - DAY);
    let now = MailDate { unix_nanos: T, offset_seconds: 0 };
    let mut ev = Evaluator::new(false, &tree, vec![&old, &young]);
    let steps = walk(&mut ev, Some(now));
    assert_eq!(steps.len(), 3);
    assert!(matches!(steps[0], Step::Split { first: 1, second: 1 }));
    match &steps[1] {
        Step::Act(Effect::Delete { uids }) => assert_eq!(uids, "7"),
        other => panic!("unexpected step {:?}", other),
    }
    assert!(matches!(steps[2], Step::Act(Effect::Nothing)));
}

#[test]
fn scenario_body_any_follows_the_search() {
    let tree = CheckerTree::BodyCheckAny(BodyCheck {
        strings: vec!["foo".to_string(), "bar".to_string()],
        empty_ok: MatchEmpty::Neither,
        matched: action(Action::Success),
        not_matched: action(Action::Alert),
    });
    let a = mail(1, "a", "x@example.org", T);
    let b = mail(2, "b", "x@example.org", T);
    let c = mail(3, "c", "x@example.org", T);
    let mut ev = Evaluator::new(false, &tree, vec![&a, &b, &c]);
    let search = match ev.step_at(None) {
        Step::Search(search) => search,
        other => panic!("unexpected step {:?}", other),
    };
    assert_eq!(search.query, "UID 1,2,3 OR (BODY \"bar\") (BODY \"foo\")");
    let hits: HashSet<u32> = [1].into_iter().collect();
    let split = ev.resume_search(search, &hits);
    assert!(matches!(split, Step::Split { first: 1, second: 2 }));
    let steps = walk(&mut ev, None);
    assert_eq!(steps.len(), 2);
    assert!(matches!(steps[0], Step::Act(Effect::Passed { count: 1 })));
    match &steps[1] {
        Step::Act(Effect::Alert { count, details }) => {
            assert_eq!(*count, 2);
            assert_eq!(uids(details), vec![2, 3]);
        }
        other => panic!("unexpected step {:?}", other),
    }
}

#[test]
fn body_all_query_puts_later_strings_in_front() {
    let tree = CheckerTree::BodyCheckAll(BodyCheck {
        strings: vec!["one".to_string(), "two".to_string(), "three".to_string()],
        empty_ok: MatchEmpty::Neither,
        matched: action(Action::Nothing),
        not_matched: action(Action::Nothing),
    });
    let a = mail(10, "a", "x@example.org", T);
    let mut ev = Evaluator::new(false, &tree, vec![&a]);
    match ev.step_at(None) {
        Step::Search(search) => {
            assert_eq!(search.query, "UID 10 BODY \"three\" BODY \"two\" BODY \"one\"")
        }
        other => panic!("unexpected step {:?}", other),
    }
}

#[test]
fn body_check_without_strings_drops_the_subtree() {
    let tree = CheckerTree::BodyCheckAny(BodyCheck {
        strings: vec![],
        empty_ok: MatchEmpty::Matched,
        matched: action(Action::Alert),
        not_matched: action(Action::Alert),
    });
    let a = mail(1, "a", "x@example.org", T);
    let mut ev = Evaluator::new(false, &tree, vec![&a]);
    assert!(matches!(ev.step_at(None), Step::NoStrings));
    assert!(ev.is_finished());
    assert!(matches!(ev.step_at(None), Step::Finished));
}

#[test]
fn action_fires_on_an_empty_set() {
    let tree = CheckerTree::Action(Action::Success);
    let mut ev = Evaluator::new(false, &tree, vec![]);
    assert!(matches!(ev.step_at(None), Step::Act(Effect::Passed { count: 0 })));
    assert!(ev.is_finished());
}

#[test]
fn empty_side_is_not_visited_by_default() {
    let tree = CheckerTree::MatchCheck(MatchCheck {
        matchers: vec![Filter::Match(MatcherPart::From(Pattern::new("nobody").unwrap()))],
        empty_ok: MatchEmpty::Neither,
        matched: action(Action::Alert),
        not_matched: action(Action::Success),
    });
    let a = mail(1, "a", "x@example.org", T);
    let mut ev = Evaluator::new(false, &tree, vec![&a]);
    let steps = walk(&mut ev, None);
    assert_eq!(steps.len(), 2);
    assert!(matches!(steps[0], Step::Split { first: 0, second: 1 }));
    assert!(matches!(steps[1], Step::Act(Effect::Passed { count: 1 })));
}

#[test]
fn forced_empty_side_fires_with_count_zero() {
    let tree = CheckerTree::MatchCheck(MatchCheck {
        matchers: vec![Filter::Match(MatcherPart::From(Pattern::new("nobody").unwrap()))],
        empty_ok: MatchEmpty::Matched,
        matched: action(Action::Alert),
        not_matched: action(Action::Success),
    });
    let a = mail(1, "a", "x@example.org", T);
    let mut ev = Evaluator::new(false, &tree, vec![&a]);
    let steps = walk(&mut ev, None);
    assert_eq!(steps.len(), 3);
    match &steps[1] {
        Step::Act(Effect::Alert { count, details }) => {
            assert_eq!(*count, 0);
            assert!(details.is_empty());
        }
        other => panic!("unexpected step {:?}", other),
    }
    assert!(matches!(steps[2], Step::Act(Effect::Passed { count: 1 })));
}

#[test]
fn forced_side_of_an_empty_set_is_visited() {
    let tree = CheckerTree::DateCheck(DateCheck {
        days: 1,
        empty_ok: DateEmpty::YoungerThan,
        older_than: action(Action::Delete),
        younger_than: action(Action::Alert),
    });
    let mut ev = Evaluator::new(true, &tree, vec![]);
    let steps = walk(&mut ev, None);
    assert_eq!(steps.len(), 2);
    assert!(matches!(steps[0], Step::Split { first: 0, second: 0 }));
    assert!(matches!(steps[1], Step::Act(Effect::AlertWithheld { count: 0 })));
}

#[test]
fn date_check_without_a_clock_fails() {
    let tree = CheckerTree::DateCheck(DateCheck {
        days: 1,
        empty_ok: DateEmpty::Neither,
        older_than: action(Action::Delete),
        younger_than: action(Action::Alert),
    });
    let a = mail(1, "a", "x@example.org", T);
    let mut ev = Evaluator::new(false, &tree, vec![&a]);
    assert!(matches!(ev.step_at(None), Step::Failed(CheckError::DateFormatting)));
    assert!(ev.is_finished());
}

#[test]
fn date_check_before_the_first_year_fails() {
    let tree = CheckerTree::DateCheck(DateCheck {
        days: 200,
        empty_ok: DateEmpty::Neither,
        older_than: action(Action::Delete),
        younger_than: action(Action::Alert),
    });
    let a = mail(1, "a", "x@example.org", T);
    // 100 days into the year -9999, the earliest that can be held.
    let now = MailDate { unix_nanos: (-377_705_116_800 + 100 * 86_400) * 1_000_000_000, offset_seconds: 0 };
    let mut ev = Evaluator::new(false, &tree, vec![&a]);
    assert!(matches!(ev.step_at(Some(now)), Step::Failed(CheckError::DateSubtraction(200))));
}

#[test]
fn mail_dated_at_the_cutoff_is_younger() {
    let tree = CheckerTree::DateCheck(DateCheck {
        days: 2,
        empty_ok: DateEmpty::Neither,
        older_than: action(Action::Alert),
        younger_than: action(Action::Success),
    });
    let at = mail(1, "at", "x@example.org", T - 2 * DAY);
    let before = mail(2, "before", "x@example.org", T - 2 * DAY - 1);
    let now = MailDate { unix_nanos: T, offset_seconds: 3600 };
    let mut ev = Evaluator::new(true, &tree, vec![&at, &before]);
    let steps = walk(&mut ev, Some(now));
    assert!(matches!(steps[0], Step::Split { first: 1, second: 1 }));
    assert!(matches!(steps[1], Step::Act(Effect::AlertWithheld { count: 1 })));
    assert!(matches!(steps[2], Step::Act(Effect::Passed { count: 1 })));
}

#[test]
fn count_check_hands_the_whole_set_on() {
    let tree = CheckerTree::CountCheck(CountCheck {
        count: 2,
        greater_than: action(Action::Alert),
        less_than: action(Action::Nothing),
        equal: action(Action::Delete),
    });
    let a = mail(4, "a", "x@example.org", T);
    let b = mail(5, "b", "x@example.org", T);
    let c = mail(6, "c", "x@example.org", T);
    let mut ev = Evaluator::new(false, &tree, vec![&a, &b]);
    let steps = walk(&mut ev, None);
    assert!(matches!(steps[0], Step::Counted { branch: CountBranch::Equal, size: 2 }));
    match &steps[1] {
        Step::Act(Effect::Delete { uids }) => assert_eq!(uids, "4,5"),
        other => panic!("unexpected step {:?}", other),
    }
    let mut ev = Evaluator::new(false, &tree, vec![&a, &b, &c]);
    let steps = walk(&mut ev, None);
    assert!(matches!(steps[0], Step::Counted { branch: CountBranch::Greater, size: 3 }));
    match &steps[1] {
        Step::Act(Effect::Alert { count, details }) => {
            assert_eq!(*count, 3);
            assert_eq!(uids(details), vec![4, 5, 6]);
        }
        other => panic!("unexpected step {:?}", other),
    }
}

#[test]
fn body_regex_splits_by_fetched_text() {
    let tree = CheckerTree::BodyCheckRegex(BodyCheckRegex {
        regex: Pattern::new("catalog in [0-9.]+ seconds").unwrap(),
        empty_ok: MatchEmpty::Neither,
        matched: action(Action::Delete),
        not_matched: action(Action::Alert),
    });
    let a = mail(11, "a", "x@example.org", T);
    let b = mail(12, "b", "x@example.org", T);
    let mut ev = Evaluator::new(false, &tree, vec![&a, &b]);
    let fetch = match ev.step_at(None) {
        Step::Fetch(fetch) => fetch,
        other => panic!("unexpected step {:?}", other),
    };
    assert_eq!(fetch.uids, "11,12");
    let bodies = vec![
        FetchedBody { uid: Some(Uid(12)), text: Some(b"Applied catalog in 3.2 seconds".to_vec()) },
        FetchedBody { uid: Some(Uid(11)), text: Some(b"failed".to_vec()) },
    ];
    assert!(matches!(ev.resume_fetch(fetch, &bodies), Step::Split { first: 1, second: 1 }));
    let steps = walk(&mut ev, None);
    match &steps[0] {
        Step::Act(Effect::Delete { uids }) => assert_eq!(uids, "12"),
        other => panic!("unexpected step {:?}", other),
    }
    match &steps[1] {
        Step::Act(Effect::Alert { count, details }) => {
            assert_eq!(*count, 1);
            assert_eq!(uids(details), vec![11]);
        }
        other => panic!("unexpected step {:?}", other),
    }
}

#[test]
fn body_regex_fails_on_a_short_fetch() {
    let tree = CheckerTree::BodyCheckRegex(BodyCheckRegex {
        regex: Pattern::new("x").unwrap(),
        empty_ok: MatchEmpty::Neither,
        matched: action(Action::Delete),
        not_matched: action(Action::Alert),
    });
    let a = mail(11, "a", "x@example.org", T);
    let b = mail(12, "b", "x@example.org", T);
    let mut ev = Evaluator::new(false, &tree, vec![&a, &b]);
    let fetch = match ev.step_at(None) {
        Step::Fetch(fetch) => fetch,
        other => panic!("unexpected step {:?}", other),
    };
    let bodies = vec![FetchedBody { uid: Some(Uid(11)), text: Some(b"x".to_vec()) }];
    assert!(matches!(
        ev.resume_fetch(fetch, &bodies),
        Step::Failed(CheckError::BodyCount { retrieved: 1, requested: 2 })
    ));
    assert!(ev.is_finished());
}

#[test]
fn body_regex_fails_on_unreadable_bodies() {
    let tree = CheckerTree::BodyCheckRegex(BodyCheckRegex {
        regex: Pattern::new("x").unwrap(),
        empty_ok: MatchEmpty::Neither,
        matched: action(Action::Delete),
        not_matched: action(Action::Alert),
    });
    let a = mail(11, "a", "x@example.org", T);
    let cases: Vec<(FetchedBody, CheckError)> = vec![
        (FetchedBody { uid: Some(Uid(99)), text: Some(b"x".to_vec()) }, CheckError::BodyMissing(Uid(11))),
        (FetchedBody { uid: None, text: Some(b"x".to_vec()) }, CheckError::BodyMissing(Uid(11))),
        (FetchedBody { uid: Some(Uid(11)), text: None }, CheckError::BodyAbsent(Uid(11))),
        (FetchedBody { uid: Some(Uid(11)), text: Some(vec![0xff, 0xfe]) }, CheckError::BodyNotText(Uid(11))),
    ];
    for (body, expected) in cases {
        let mut ev = Evaluator::new(false, &tree, vec![&a]);
        let fetch = match ev.step_at(None) {
            Step::Fetch(fetch) => fetch,
            other => panic!("unexpected step {:?}", other),
        };
        match ev.resume_fetch(fetch, &vec![body]) {
            Step::Failed(e) => assert_eq!(e, expected),
            other => panic!("unexpected step {:?}", other),
        }
    }
}

#[test]
fn dry_run_never_asks_for_a_deletion() {
    let tree = CheckerTree::Action(Action::Delete);
    let a = mail(1, "a", "x@example.org", T);
    let b = mail(2, "b", "x@example.org", T);
    let mut ev = Evaluator::new(true, &tree, vec![&a, &b]);
    match ev.step_at(None) {
        Step::Act(Effect::DeleteWithheld { uids }) => assert_eq!(uids, "1,2"),
        other => panic!("unexpected step {:?}", other),
    }
    let mut ev = Evaluator::new(false, &tree, vec![]);
    assert!(matches!(ev.step_at(None), Step::Act(Effect::Nothing)));
}

#[test]
fn alert_names_at_most_nine_mails() {
    let tree = CheckerTree::Action(Action::Alert);
    let mails: Vec<Mail> = (1..=12).map(|i| mail(i, "s", "x@example.org", T)).collect();
    let refs: Vec<&Mail> = mails.iter().collect();
    let mut ev = Evaluator::new(false, &tree, refs);
    match ev.step_at(None) {
        Step::Act(Effect::Alert { count, details }) => {
            assert_eq!(count, 12);
            assert_eq!(uids(&details), vec![1, 2, 3, 4, 5, 6, 7, 8, 9]);
        }
        other => panic!("unexpected step {:?}", other),
    }
}

#[test]
fn two_walks_report_the_same_steps() {
    let tree = CheckerTree::MatchCheck(MatchCheck {
        matchers: vec![Filter::UnMatch(MatcherPart::Subject(Pattern::new("fail").unwrap()))],
        empty_ok: MatchEmpty::NotMatched,
        matched: Box::new(CheckerTree::CountCheck(CountCheck {
            count: 1,
            greater_than: action(Action::Success),
            less_than: action(Action::Alert),
            equal: Box::new(CheckerTree::Empty),
        })),
        not_matched: action(Action::Alert),
    });
    let a = mail(1, "ok", "x@example.org", T);
    let b = mail(2, "failed", "x@example.org", T);
    let c = mail(3, "ok too", "x@example.org", T);
    let mut first = Evaluator::new(true, &tree, vec![&a, &b, &c]);
    let mut second = Evaluator::new(true, &tree, vec![&a, &b, &c]);
    let one = walk(&mut first, None);
    let two = walk(&mut second, None);
    assert_eq!(format!("{:?}", one), format!("{:?}", two));
    assert_eq!(one.len(), 4);
    assert!(matches!(one[0], Step::Split { first: 2, second: 1 }));
    assert!(matches!(one[1], Step::Counted { branch: CountBranch::Greater, size: 2 }));
    assert!(matches!(one[2], Step::Act(Effect::Passed { count: 2 })));
    assert!(matches!(one[3], Step::Act(Effect::AlertWithheld { count: 1 })));
}

#[test]
fn step_reads_the_clock_for_a_date_check() {
    let tree = CheckerTree::DateCheck(DateCheck {
        days: 1,
        empty_ok: DateEmpty::Neither,
        older_than: action(Action::Success),
        younger_than: action(Action::Alert),
    });
    // A mail from the year 2001 is older than a day, whatever the clock says.
    let a = mail(1, "a", "x@example.org", 1_000_000_000_000_000_000);
    let mut ev = Evaluator::new(true, &tree, vec![&a]);
    match ev.step() {
        Step::Split { first, second } => {
            assert_eq!((first, second), (1, 0));
            assert!(matches!(ev.step(), Step::Act(Effect::Passed { count: 1 })));
            assert!(matches!(ev.step(), Step::Finished));
        }
        Step::Failed(e) => {
            // The machine could not tell its local time.
            assert_eq!(e, CheckError::DateFormatting);
            assert!(ev.is_finished());
        }
        other => panic!("unexpected step {:?}", other),
    }
}
