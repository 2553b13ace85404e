use amcheck::configuration::{
    Action, BodyCheck, BodyCheckRegex, CheckerTree, CountCheck, DateCheck, DateEmpty, Filter,
    Handler, MatchCheck, MatchEmpty, MatcherPart,
};
use amcheck::pattern::Pattern;
use serde_json::Value;

fn tagged(tag: &str, value: Value) -> Value {
    let mut map = serde_json::Map::new();
    map.insert(tag.to_string(), value);
    Value::Object(map)
}

fn object(fields: Vec<(&str, Value)>) -> Value {
    let mut map = serde_json::Map::new();
    for (key, value) in fields {
        map.insert(key.to_string(), value);
    }
    Value::Object(map)
}

fn text(s: &str) -> Value {
    Value::String(s.to_string())
}

fn filter_to_json(filter: &Filter) -> Value {
    let part = |p: &MatcherPart| match p {
        MatcherPart::Subject(re) => tagged("Subject", text(re.as_str())),
        MatcherPart::From(re) => tagged("From", text(re.as_str())),
    };
    match filter {
        Filter::Match(p) => tagged("Match", part(p)),
        Filter::UnMatch(p) => tagged("UnMatch", part(p)),
    }
}

fn match_empty_to_json(e: MatchEmpty) -> Value {
    text(match e {
        MatchEmpty::Neither => "Neither",
        MatchEmpty::Matched => "Matched",
        MatchEmpty::NotMatched => "NotMatched",
    })
}

fn body_to_json(c: &BodyCheck) -> Value {
    object(vec![
        ("strings", Value::Array(c.strings.iter().map(|s| text(s)).collect())),
        ("empty_ok", match_empty_to_json(c.empty_ok)),
        ("matched", tree_to_json(&c.matched)),
        ("not_matched", tree_to_json(&c.not_matched)),
    ])
}

fn tree_to_json(tree: &CheckerTree) -> Value {
    match tree {
        CheckerTree::Empty => text("Empty"),
        CheckerTree::Action(a) => tagged("Action", text(a.name())),
        CheckerTree::MatchCheck(c) => tagged(
            "MatchCheck",
            object(vec![
                ("matchers", Value::Array(c.matchers.iter().map(filter_to_json).collect())),
                ("empty_ok", match_empty_to_json(c.empty_ok)),
                ("matched", tree_to_json(&c.matched)),
                ("not_matched", tree_to_json(&c.not_matched)),
            ]),
        ),
        CheckerTree::DateCheck(c) => tagged(
            "DateCheck",
            object(vec![
                ("days", Value::from(c.days)),
                (
                    "empty_ok",
                    text(match c.empty_ok {
                        DateEmpty::Neither => "Neither",
                        DateEmpty::OlderThan => "OlderThan",
                        DateEmpty::YoungerThan => "YoungerThan",
                    }),
                ),
                ("older_than", tree_to_json(&c.older_than)),
                ("younger_than", tree_to_json(&c.younger_than)),
            ]),
        ),
        CheckerTree::CountCheck(c) => tagged(
            "CountCheck",
            object(vec![
                ("count", Value::from(c.count)),
                ("greater_than", tree_to_json(&c.greater_than)),
                ("less_than", tree_to_json(&c.less_than)),
                ("equal", tree_to_json(&c.equal)),
            ]),
        ),
        CheckerTree::BodyCheckAny(c) => tagged("BodyCheckAny", body_to_json(c)),
        CheckerTree::BodyCheckAll(c) => tagged("BodyCheckAll", body_to_json(c)),
        CheckerTree::BodyCheckRegex(c) => tagged(
            "BodyCheckRegex",
            object(vec![
                ("regex", text(c.regex.as_str())),
                ("empty_ok", match_empty_to_json(c.empty_ok)),
                ("matched", tree_to_json(&c.matched)),
                ("not_matched", tree_to_json(&c.not_matched)),
            ]),
        ),
    }
}

fn handler_to_json(handler: &Handler) -> Value {
    object(vec![
        ("name", text(&handler.name)),
        ("filters", Value::Array(handler.filters.iter().map(filter_to_json).collect())),
        ("checker_tree", tree_to_json(&handler.checker_tree)),
    ])
}

fn only_entry(value: &Value) -> Result<(&String, &Value), String> {
    match value.as_object() {
        Some(map) if map.len() == 1 => Ok(map.iter().next().unwrap()),
        _ => Err(format!("expected one tagged value, found {value}")),
    }
}

fn field<'a>(value: &'a Value, key: &str) -> Result<&'a Value, String> {
    value.get(key).ok_or(format!("missing field `{key}`"))
}

fn pattern_from_json(value: &Value) -> Result<Pattern, String> {
    let source = value.as_str().ok_or("a regular expression must be a string")?;
    Pattern::new(source).ok_or(format!("`{source}` is no regular expression"))
}

fn filter_from_json(value: &Value) -> Result<Filter, String> {
    let (polarity, part) = only_entry(value)?;
    let (field, re) = only_entry(part)?;
    let part = match field.as_str() {
        "Subject" => MatcherPart::Subject(pattern_from_json(re)?),
        "From" => MatcherPart::From(pattern_from_json(re)?),
        other => return Err(format!("unknown variant `{other}`, expected `Subject` or `From`")),
    };
    match polarity.as_str() {
        "Match" => Ok(Filter::Match(part)),
        "UnMatch" => Ok(Filter::UnMatch(part)),
        other => Err(format!("unknown variant `{other}`, expected `Match` or `UnMatch`")),
    }
}

fn filters_from_json(value: &Value) -> Result<Vec<Filter>, String> {
    value
        .as_array()
        .ok_or("filters must be a list")?
        .iter()
        .map(filter_from_json)
        .collect()
}

fn action_from_json(value: &Value) -> Result<Action, String> {
    match value.as_str() {
        Some("Alert") => Ok(Action::Alert),
        Some("Delete") => Ok(Action::Delete),
        Some("Success") => Ok(Action::Success),
        Some("Nothing") => Ok(Action::Nothing),
        _ => Err(format!("unknown action {value}")),
    }
}

fn match_empty_from_json(value: &Value) -> Result<MatchEmpty, String> {
    match value.get("empty_ok").and_then(Value::as_str) {
        None | Some("Neither") => Ok(MatchEmpty::Neither),
        Some("Matched") => Ok(MatchEmpty::Matched),
        Some("NotMatched") => Ok(MatchEmpty::NotMatched),
        Some(other) => Err(format!("unknown variant `{other}`")),
    }
}

fn date_empty_from_json(value: &Value) -> Result<DateEmpty, String> {
    match value.get("empty_ok").and_then(Value::as_str) {
        None | Some("Neither") => Ok(DateEmpty::Neither),
        Some("OlderThan") => Ok(DateEmpty::OlderThan),
        Some("YoungerThan") => Ok(DateEmpty::YoungerThan),
        Some(other) => Err(format!("unknown variant `{other}`")),
    }
}

fn child(value: &Value, key: &str) -> Result<Box<CheckerTree>, String> {
    Ok(Box::new(tree_from_json(field(value, key)?)?))
}

fn number(value: &Value, key: &str) -> Result<u8, String> {
    field(value, key)?
        .as_u64()
        .and_then(|n| u8::try_from(n).ok())
        .ok_or(format!("`{key}` must be a number below 256"))
}

fn body_from_json(value: &Value) -> Result<BodyCheck, String> {
    let strings = field(value, "strings")?
        .as_array()
        .ok_or("strings must be a list")?
        .iter()
        .map(|s| s.as_str().map(str::to_string).ok_or("a string was expected".to_string()))
        .collect::<Result<Vec<_>, _>>()?;
    Ok(BodyCheck {
        strings,
        empty_ok: match_empty_from_json(value)?,
        matched: child(value, "matched")?,
        not_matched: child(value, "not_matched")?,
    })
}

fn tree_from_json(value: &Value) -> Result<CheckerTree, String> {
    if value.as_str() == Some("Empty") {
        return Ok(CheckerTree::Empty);
    }
    let (kind, body) = only_entry(value)?;
    match kind.as_str() {
        "Action" => Ok(CheckerTree::Action(action_from_json(body)?)),
        "MatchCheck" => Ok(CheckerTree::MatchCheck(MatchCheck {
            matchers: filters_from_json(field(body, "matchers")?)?,
            empty_ok: match_empty_from_json(body)?,
            matched: child(body, "matched")?,
            not_matched: child(body, "not_matched")?,
        })),
        "DateCheck" => Ok(CheckerTree::DateCheck(DateCheck {
            days: number(body, "days")?,
            empty_ok: date_empty_from_json(body)?,
            older_than: child(body, "older_than")?,
            younger_than: child(body, "younger_than")?,
        })),
        "CountCheck" => Ok(CheckerTree::CountCheck(CountCheck {
            count: number(body, "count")?,
            greater_than: child(body, "greater_than")?,
            less_than: child(body, "less_than")?,
            equal: child(body, "equal")?,
        })),
        "BodyCheckAny" => Ok(CheckerTree::BodyCheckAny(body_from_json(body)?)),
        "BodyCheckAll" => Ok(CheckerTree::BodyCheckAll(body_from_json(body)?)),
        "BodyCheckRegex" => Ok(CheckerTree::BodyCheckRegex(BodyCheckRegex {
            regex: pattern_from_json(field(body, "regex")?)?,
            empty_ok: match_empty_from_json(body)?,
            matched: child(body, "matched")?,
            not_matched: child(body, "not_matched")?,
        })),
        other => Err(format!("unknown variant `{other}`")),
    }
}

fn handler_from_json(value: &Value) -> Result<Handler, String> {
    Ok(Handler {
        name: field(value, "name")?.as_str().ok_or("name must be a string")?.to_string(),
        filters: filters_from_json(field(value, "filters")?)?,
        checker_tree: tree_from_json(field(value, "checker_tree")?)?,
    })
}

// This isn't *really* a test, it's an exploration tool for the JSON form of the rules:
// make the handler you want and output it here, so you can see what it looks like in
// JSON.
//
// Must be run with `cargo test -- --nocapture` to be of any use
#[test]
fn test_json_output() {
    let test = Handler {
        name: "foo".to_owned(),
        filters: vec![Filter::Match(MatcherPart::From(
            Pattern::new("root@digitalkingdom.org").unwrap(),
        ))],
        checker_tree: CheckerTree::MatchCheck(MatchCheck {
            matchers: vec![],
            empty_ok: MatchEmpty::Neither,
            matched: Box::new(CheckerTree::BodyCheckAny(BodyCheck {
                strings: vec!["Notice: Applied catalog in".to_string()],
                empty_ok: MatchEmpty::Neither,
                matched: Box::new(CheckerTree::DateCheck(DateCheck {
                    days: 1,
                    empty_ok: DateEmpty::Neither,
                    older_than: Box::new(CheckerTree::Action(Action::Delete)),
                    younger_than: Box::new(CheckerTree::CountCheck(CountCheck {
                        count: 1,
                        equal: Box::new(CheckerTree::Action(Action::Success)),
                        less_than: Box::new(CheckerTree::Action(Action::Success)),
                        greater_than: Box::new(CheckerTree::Action(Action::Alert)),
                    })),
                })),
                not_matched: Box::new(CheckerTree::Action(Action::Alert)),
            })),
            not_matched: Box::new(CheckerTree::Action(Action::Alert)),
        }),
    };
    println!("json test original:\n{:#?}", test);
    let json = serde_json::to_string_pretty(&tagged("ms", handler_to_json(&test)));
    match json {
        Ok(val) => {
            println!("json test output:\n{}", val);
            let back: Value = serde_json::from_str(&val).unwrap();
            let again = handler_from_json(field(&back, "ms").unwrap()).unwrap();
            assert_eq!(format!("{:?}", again), format!("{:?}", test));
        }
        Err(e) => println!("err: {:?}", e),
    }
}

#[test]
fn test_json_input() {
    let json = r#"
{
  "ms": {
    "name": "foo",
    "filters": [
      {
        "Match": {
          "From": "root@digitalkingdom.org"
        }
      }
    ],
    "checker_tree": {
      "MatchCheck": {
        "matchers": [
          {
            "Match": {
              "Body": "Notice: Applied catalog in"
            }
          }
        ],
        "matched": {
          "DateCheck": {
            "days": 1,
            "older_than": {
              "Action": "Delete"
            },
            "younger_than": {
              "CountCheck": {
                "count": 1,
                "greater_than": {
                  "Action": "Alert"
                },
                "less_than": {
                  "Action": "Success"
                },
                "equal": {
                  "Action": "Success"
                }
              }
            }
          }
        },
        "not_matched": {
          "Action": "Alert"
        }
      }
    }
  }
}
        "#;
    let parsed: Value = serde_json::from_str(json).unwrap();
    // The matchers of these rules read the subject and the sender only: a matcher on
    // the body is refused, and everything else of the text is read.
    let output = handler_from_json(field(&parsed, "ms").unwrap());
    println!("rust output: #{output:#?}");
    assert_eq!(
        output.unwrap_err(),
        "unknown variant `Body`, expected `Subject` or `From`"
    );
    let supported = json.replace("\"Body\"", "\"Subject\"");
    let parsed: Value = serde_json::from_str(&supported).unwrap();
    let output = handler_from_json(field(&parsed, "ms").unwrap()).unwrap();
    println!("rust output: #{output:#?}");
    assert_eq!(output.name, "foo");
    assert_eq!(amcheck::configuration::print_head_of(&output.checker_tree), "MatchCheck");
}
