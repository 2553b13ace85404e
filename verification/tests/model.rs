use amcheck::configuration::{
    print_head_of, Action, BodyCheck, BodyCheckRegex, CheckerTree, CountCheck, DateCheck,
    DateEmpty, Environment, Filter, Handler, MatchCheck, MatchEmpty, MatcherPart,
};
use amcheck::envelope::{
    address_to_string, addresses_to_string, get_mails, get_match_data, MailProblem, RawAddress,
    RawEnvelope,
};
use amcheck::mail::{Mail, MailDate};
use amcheck::matching::{check_matcher_part, match_mail};
use amcheck::my_imap_wrapper::{SeqNum, Uid};
use amcheck::pattern::Pattern;
use amcheck::text::{decimal_string, decode_text, same_text};

fn mail(uid: u32, subject: &str, from: &str) -> Mail {
    Mail {
        uid: Uid(uid),
        subject: subject.to_string(),
        from_addr: from.to_string(),
        date: MailDate { unix_nanos: 0, offset_seconds: 0 },
    }
}

fn bytes(s: &str) -> Option<Vec<u8>> {
    Some(s.as_bytes().to_vec())
}

fn address(name: Option<&str>, mailbox: Option<&str>, host: Option<&str>) -> RawAddress {
    RawAddress {
        name: name.map(|s| s.as_bytes().to_vec()),
        mailbox: mailbox.map(|s| s.as_bytes().to_vec()),
        host: host.map(|s| s.as_bytes().to_vec()),
    }
}

#[test]
fn decimal_numerals() {
    assert_eq!(decimal_string(0), "0");
    assert_eq!(decimal_string(7), "7");
    assert_eq!(decimal_string(10), "10");
    assert_eq!(decimal_string(1203), "1203");
    assert_eq!(decimal_string(u32::MAX), "4294967295");
}

#[test]
fn same_text_compares_contents() {
    assert!(same_text("prod", "prod"));
    assert!(same_text("", ""));
    assert!(!same_text("prod", "pro"));
    assert!(!same_text("prod", "prob"));
    assert!(same_text("zürich", "zürich"));
}

#[test]
fn decode_text_accepts_only_utf8() {
    assert_eq!(decode_text("héllo".as_bytes()), Some("héllo"));
    assert_eq!(decode_text(&[0xff, 0x00]), None);
    assert_eq!(decode_text(&[]), Some(""));
}

#[test]
fn identifiers_convert_and_print() {
    let uid = Uid::from(42u32);
    assert_eq!(uid, Uid(42));
    assert_eq!(u32::from(uid), 42);
    assert_eq!(uid.to_string(), "42");
    let seq: SeqNum = 7u32.into();
    assert_eq!(seq, SeqNum(7));
    assert_eq!(u32::from(seq), 7);
    assert_eq!(seq.to_string(), "7");
    assert!(Uid(1) < Uid(2));
}

#[test]
fn environment_names() {
    assert_eq!(Environment::Test.as_str(), "test");
    assert_eq!(Environment::Prod.as_str(), "prod");
    assert_eq!(Environment::try_from("test".to_string()), Ok(Environment::Test));
    assert_eq!(Environment::try_from("TEST".to_string()), Ok(Environment::Test));
    assert_eq!(Environment::try_from("prod".to_string()), Ok(Environment::Prod));
    assert_eq!(Environment::try_from("Production".to_string()), Ok(Environment::Prod));
    assert_eq!(
        Environment::try_from("Staging".to_string()),
        Err("staging is not a supported environment. Use either `test` or `prod`.".to_string())
    );
    assert_eq!(Environment::from_lowercase("prod"), Ok(Environment::Prod));
    assert_eq!(
        Environment::from_lowercase("PROD"),
        Err("PROD is not a supported environment. Use either `test` or `prod`.".to_string())
    );
}

#[test]
fn pattern_compiles_and_matches() {
    assert!(Pattern::new("foo(bar").is_none());
    let p = Pattern::new("^Cron ").unwrap();
    assert_eq!(p.as_str(), "^Cron ");
    assert!(p.is_match("Cron daily"));
    assert!(!p.is_match("The Cron daily"));
    let q = p.clone();
    assert_eq!(q.as_str(), "^Cron ");
    assert!(q.is_match("Cron weekly"));
}

#[test]
fn matcher_part_reads_its_own_header() {
    let m = mail(1, "Cron daily", "root@example.org");
    let by_subject = MatcherPart::Subject(Pattern::new("^Cron").unwrap());
    let by_sender = MatcherPart::From(Pattern::new("^Cron").unwrap());
    assert!(check_matcher_part(&by_subject, &m));
    assert!(!check_matcher_part(&by_sender, &m));
    let by_sender = MatcherPart::From(Pattern::new("root@").unwrap());
    assert!(check_matcher_part(&by_sender, &m));
}

#[test]
fn filters_are_combined_with_and() {
    let m = mail(1, "Cron daily", "root@example.org");
    let cron = || MatcherPart::Subject(Pattern::new("^Cron").unwrap());
    let fail = || MatcherPart::Subject(Pattern::new("fail").unwrap());
    let root = || MatcherPart::From(Pattern::new("^root@").unwrap());
    assert!(match_mail(&vec![], &m));
    assert!(match_mail(&vec![Filter::Match(cron())], &m));
    assert!(match_mail(&vec![Filter::Match(cron()), Filter::UnMatch(fail())], &m));
    assert!(match_mail(&vec![Filter::Match(cron()), Filter::Match(root())], &m));
    assert!(!match_mail(&vec![Filter::Match(cron()), Filter::UnMatch(root())], &m));
    assert!(!match_mail(&vec![Filter::Match(fail()), Filter::Match(cron())], &m));
    assert!(!match_mail(&vec![Filter::UnMatch(cron())], &m));
}

#[test]
fn address_display_form() {
    assert_eq!(
        address_to_string(&address(Some("Root"), Some("root"), Some("example.org"))),
        Ok("\"Root\" <root@example.org>".to_string())
    );
    assert_eq!(
        address_to_string(&address(None, Some("root"), Some("example.org"))),
        Ok("\"\" <root@example.org>".to_string())
    );
    assert_eq!(
        address_to_string(&address(Some("Root"), None, Some("example.org"))),
        Err(MailProblem::LocalPartMissing)
    );
    assert_eq!(
        address_to_string(&address(Some("Root"), Some("root"), None)),
        Err(MailProblem::HostMissing)
    );
    let bad = Some(vec![0xff, 0xfe]);
    assert_eq!(
        address_to_string(&RawAddress { name: bad.clone(), mailbox: None, host: None }),
        Err(MailProblem::NameNotText)
    );
    assert_eq!(
        address_to_string(&RawAddress { name: None, mailbox: bad.clone(), host: None }),
        Err(MailProblem::LocalPartNotText)
    );
    assert_eq!(
        address_to_string(&RawAddress { name: None, mailbox: bytes("root"), host: bad }),
        Err(MailProblem::HostNotText)
    );
}

#[test]
fn address_list_display_form() {
    let a = address(Some("A"), Some("a"), Some("x.org"));
    let b = address(None, Some("b"), Some("y.org"));
    let broken = address(None, None, Some("y.org"));
    assert_eq!(addresses_to_string(&None), Err(MailProblem::NoAddresses));
    assert_eq!(addresses_to_string(&Some(vec![])), Err(MailProblem::NoAddresses));
    assert_eq!(
        addresses_to_string(&Some(vec![a.clone()])),
        Ok("\"A\" <a@x.org>".to_string())
    );
    assert_eq!(
        addresses_to_string(&Some(vec![a.clone(), b.clone()])),
        Ok("\"A\" <a@x.org>, \"\" <b@y.org>".to_string())
    );
    assert_eq!(
        addresses_to_string(&Some(vec![a, broken, b])),
        Err(MailProblem::LocalPartMissing)
    );
}

#[test]
fn problems_have_messages() {
    assert_eq!(MailProblem::NoAddresses.message(), "No addresses found");
    assert_eq!(MailProblem::NoSubject.message(), "No Subject found");
    assert_eq!(MailProblem::SubjectNotText.message(), "Mail Subject was not valid utf-8");
    assert_eq!(MailProblem::NoDate.message(), "No Date found");
    assert_eq!(MailProblem::DateNotText.message(), "Mail Date was not valid utf-8");
    assert_eq!(MailProblem::DateFormatting.message(), "Date formatting error");
    assert_eq!(MailProblem::LocalPartMissing.message(), "Address Local Part Missing");
    assert_eq!(MailProblem::HostMissing.message(), "Address Host Missing");
}

fn envelope(uid: u32, subject: Option<&str>, date: Option<&str>) -> RawEnvelope {
    RawEnvelope {
        uid: Uid(uid),
        from: Some(vec![address(Some("Root"), Some("root"), Some("example.org"))]),
        subject: subject.map(|s| s.as_bytes().to_vec()),
        date: date.map(|s| s.as_bytes().to_vec()),
    }
}

#[test]
fn envelope_becomes_a_mail() {
    let raw = envelope(5, Some("Cron daily"), Some("Tue, 14 Nov 2023 23:13:20 +0100"));
    let m = get_match_data(&raw).unwrap();
    assert_eq!(m.uid, Uid(5));
    assert_eq!(m.subject, "Cron daily");
    assert_eq!(m.from_addr, "\"Root\" <root@example.org>");
    assert_eq!(
        m.date,
        MailDate { unix_nanos: 1_700_000_000_000_000_000, offset_seconds: 3600 }
    );
}

#[test]
fn unusable_envelope_reports_every_part() {
    let raw = envelope(6, None, Some("yesterday"));
    let bad = get_match_data(&raw).unwrap_err();
    assert_eq!(bad.uid, Uid(6));
    assert_eq!(bad.from_addr, Ok("\"Root\" <root@example.org>".to_string()));
    assert_eq!(bad.subject, Err(MailProblem::NoSubject));
    assert_eq!(bad.date, Err(MailProblem::DateFormatting));

    let mut raw = envelope(7, Some("s"), None);
    raw.from = None;
    raw.subject = Some(vec![0xc3, 0x28]);
    let bad = get_match_data(&raw).unwrap_err();
    assert_eq!(bad.from_addr, Err(MailProblem::NoAddresses));
    assert_eq!(bad.subject, Err(MailProblem::SubjectNotText));
    assert_eq!(bad.date, Err(MailProblem::NoDate));

    let mut raw = envelope(8, Some("s"), None);
    raw.date = Some(vec![0xff]);
    let bad = get_match_data(&raw).unwrap_err();
    assert_eq!(bad.subject, Ok("s".to_string()));
    assert_eq!(bad.date, Err(MailProblem::DateNotText));
}

#[test]
fn fetched_envelopes_are_sorted_into_mails_and_drops() {
    let date = Some("Tue, 14 Nov 2023 22:13:20 +0000");
    let raws = vec![
        envelope(1, Some("one"), date),
        envelope(2, None, date),
        envelope(3, Some("three"), date),
        envelope(4, Some("four"), Some("no date")),
    ];
    let (mails, dropped) = get_mails(&raws);
    assert_eq!(mails.iter().map(|m| m.uid.0).collect::<Vec<_>>(), vec![1, 3]);
    assert_eq!(mails[1].subject, "three");
    assert_eq!(mails[0].date.unix_nanos, 1_700_000_000_000_000_000);
    assert_eq!(dropped.iter().map(|m| m.uid.0).collect::<Vec<_>>(), vec![2, 4]);
    let (mails, dropped) = get_mails(&vec![]);
    assert!(mails.is_empty() && dropped.is_empty());
}

#[test]
fn tree_heads() {
    let leaf = || Box::new(CheckerTree::Empty);
    assert_eq!(print_head_of(&CheckerTree::Empty), "Empty");
    assert_eq!(print_head_of(&CheckerTree::Action(Action::Alert)), "Action Alert");
    assert_eq!(print_head_of(&CheckerTree::Action(Action::Delete)), "Action Delete");
    assert_eq!(print_head_of(&CheckerTree::Action(Action::Success)), "Action Success");
    assert_eq!(print_head_of(&CheckerTree::Action(Action::Nothing)), "Action Nothing");
    let tree = CheckerTree::MatchCheck(MatchCheck {
        matchers: vec![],
        empty_ok: MatchEmpty::Neither,
        matched: leaf(),
        not_matched: leaf(),
    });
    assert_eq!(print_head_of(&tree), "MatchCheck");
    let tree = CheckerTree::DateCheck(DateCheck {
        days: 255,
        empty_ok: DateEmpty::Neither,
        older_than: leaf(),
        younger_than: leaf(),
    });
    assert_eq!(print_head_of(&tree), "DateCheck 255");
    let tree = CheckerTree::CountCheck(CountCheck {
        count: 0,
        greater_than: leaf(),
        less_than: leaf(),
        equal: leaf(),
    });
    assert_eq!(print_head_of(&tree), "CountCheck 0");
    let body = |strings: Vec<String>| BodyCheck {
        strings,
        empty_ok: MatchEmpty::Neither,
        matched: leaf(),
        not_matched: leaf(),
    };
    assert_eq!(print_head_of(&CheckerTree::BodyCheckAny(body(vec![]))), "BodyCheckAny");
    assert_eq!(print_head_of(&CheckerTree::BodyCheckAll(body(vec![]))), "BodyCheckAll");
    let tree = CheckerTree::BodyCheckRegex(BodyCheckRegex {
        regex: Pattern::new("a+b").unwrap(),
        empty_ok: MatchEmpty::Neither,
        matched: leaf(),
        not_matched: leaf(),
    });
    assert_eq!(print_head_of(&tree), "BodyCheckRegex a+b");
}

#[test]
fn handler_holds_filters_and_tree() {
    let handler = Handler {
        name: "foo".to_owned(),
        filters: vec![Filter::Match(MatcherPart::From(
            Pattern::new("root@digitalkingdom.org").unwrap(),
        ))],
        checker_tree: CheckerTree::MatchCheck(MatchCheck {
            matchers: vec![],
            empty_ok: MatchEmpty::Neither,
            matched: Box::new(CheckerTree::BodyCheckAny(BodyCheck {
                strings: vec!["Notice: Applied catalog in".to_string()],
                empty_ok: MatchEmpty::Neither,
                matched: Box::new(CheckerTree::DateCheck(DateCheck {
                    days: 1,
                    empty_ok: DateEmpty::Neither,
                    older_than: Box::new(CheckerTree::Action(Action::Delete)),
                    younger_than: Box::new(CheckerTree::CountCheck(CountCheck {
                        count: 1,
                        equal: Box::new(CheckerTree::Action(Action::Success)),
                        less_than: Box::new(CheckerTree::Action(Action::Success)),
                        greater_than: Box::new(CheckerTree::Action(Action::Alert)),
                    })),
                })),
                not_matched: Box::new(CheckerTree::Action(Action::Alert)),
            })),
            not_matched: Box::new(CheckerTree::Action(Action::Alert)),
        }),
    };
    let shown = format!("{:?}", handler);
    assert!(shown.contains("Notice: Applied catalog in"));
    let copy = handler.clone();
    assert_eq!(format!("{:?}", copy), shown);
    assert_eq!(format!("{:?}", copy.checker_tree.clone()), format!("{:?}", handler.checker_tree));
    assert_eq!(print_head_of(&handler.checker_tree), "MatchCheck");
    assert!(match_mail(&handler.filters, &mail(1, "s", "root@digitalkingdom.org")));
    assert!(!match_mail(&handler.filters, &mail(1, "s", "someone@example.org")));
}
