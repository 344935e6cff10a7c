use onevcs::label::{parse, parse_all, validate, LabelMap};

#[test]
fn a_value_may_hold_an_equals_sign_and_a_key_may_not() {
    assert_eq!(
        parse("run=a=b").expect("the first `=` splits"),
        ("run".to_owned(), "a=b".to_owned())
    );
    assert!(parse("no separator").is_err());
    assert!(parse("=value").is_err());
    assert!(parse("bad key=value").is_err());
    assert!(parse("run=two\nlines").is_err());
}

#[test]
fn a_repeated_key_is_refused_and_an_empty_value_is_not() {
    assert!(parse_all(&["run=1".to_owned(), "run=2".to_owned()]).is_err());
    let labels = parse_all(&["run=".to_owned(), "node=x".to_owned()]).expect("two labels");
    assert_eq!(labels.get("run").map(String::as_str), Some(""));
    assert!(onevcs::label::matches(
        &labels,
        &LabelMap::from_pairs(vec![("node".to_owned(), "x".to_owned())])
    ));
    assert!(!onevcs::label::matches(
        &labels,
        &LabelMap::from_pairs(vec![("node".to_owned(), "y".to_owned())])
    ));
    assert!(onevcs::label::matches(&labels, &LabelMap::new()));
}

#[test]
fn a_label_spelled_back_reads_as_itself() {
    let (key, value) = ("node-7_a".to_owned(), "x=y z".to_owned());
    let spelled = format!("{key}={value}");
    assert_eq!(parse(&spelled).expect("a label"), (key, value));
}

#[test]
fn a_supplied_map_is_held_to_the_grammar() {
    assert!(validate(&LabelMap::from_pairs(vec![("ok".to_owned(), "v".to_owned())])).is_ok());
    assert!(validate(&LabelMap::from_pairs(vec![("no good".to_owned(), "v".to_owned())])).is_err());
    assert!(validate(&LabelMap::from_pairs(vec![("ok".to_owned(), "a\nb".to_owned())])).is_err());
}

#[test]
fn the_later_value_of_a_literal_wins() {
    let labels = LabelMap::from_pairs(vec![
        ("run".to_owned(), "1".to_owned()),
        ("run".to_owned(), "2".to_owned()),
    ]);
    assert_eq!(labels.len(), 1);
    assert_eq!(labels.get("run").map(String::as_str), Some("2"));
}

#[test]
fn labels_are_carried_in_key_order_whatever_order_they_were_given() {
    let labels = parse_all(&["run=1".to_owned(), "node=x".to_owned(), "b-2=y".to_owned()]).expect("three labels");
    let keys: Vec<String> = (0..labels.len()).map(|i| labels.entry(i).0.clone()).collect();
    assert_eq!(keys, vec!["b-2", "node", "run"]);
    let literal = LabelMap::from_pairs(vec![("z".to_owned(), "1".to_owned()), ("a".to_owned(), "2".to_owned())]);
    assert_eq!(literal.entry(0).0, "a");
    assert_eq!(literal.entry(1).0, "z");
}
