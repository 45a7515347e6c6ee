use epine::normalize::normalize;
use epine::{Directive, Error, MakefileThing, RawValue, VarFlavor};

fn s(v: &str) -> RawValue {
    RawValue::Str(v.to_string())
}

fn list(v: &[&str]) -> RawValue {
    RawValue::Table { items: v.iter().map(|x| s(x)).collect(), fields: vec![] }
}

fn seq(items: Vec<RawValue>) -> RawValue {
    RawValue::Table { items, fields: vec![] }
}

fn record(fields: Vec<(&str, RawValue)>) -> RawValue {
    RawValue::Table {
        items: vec![],
        fields: fields.into_iter().map(|(k, v)| (k.to_string(), v)).collect(),
    }
}

fn tagged(tag: &str, c: RawValue) -> RawValue {
    record(vec![("t", s(tag)), ("c", c)])
}

fn comment(text: &str) -> RawValue {
    tagged("Comment", s(text))
}

fn empty() -> RawValue {
    seq(vec![])
}

fn rendered(v: &RawValue) -> String {
    normalize(v).unwrap().render()
}

#[test]
fn tagged_comment_renders() {
    assert_eq!(rendered(&comment("hi")), "#hi\n");
}

#[test]
fn nested_sequences_flatten_in_authorial_order() {
    let v = seq(vec![
        comment("1"),
        seq(vec![comment("2"), seq(vec![comment("3"), empty()]), comment("4")]),
        empty(),
        seq(vec![seq(vec![comment("5")])]),
        comment("6"),
    ]);
    assert_eq!(rendered(&v), "#1\n#2\n#3\n#4\n#5\n#6\n");
    let flat = seq(vec![
        comment("1"),
        comment("2"),
        comment("3"),
        comment("4"),
        comment("5"),
        comment("6"),
    ]);
    assert_eq!(normalize(&v).unwrap(), normalize(&flat).unwrap());
}

#[test]
fn placeholders_produce_nothing() {
    assert_eq!(rendered(&empty()), "");
    assert_eq!(rendered(&seq(vec![empty(), empty()])), "");
    assert_eq!(normalize(&seq(vec![empty(), empty()])).unwrap().things().len(), 0);
}

#[test]
fn a_single_statement_stands_alone() {
    let m = normalize(&tagged("Break", RawValue::Nil)).unwrap();
    assert_eq!(m.things(), &vec![MakefileThing::Break]);
}

#[test]
fn variable_definition_decodes() {
    let v = tagged(
        "Vardef",
        record(vec![("name", s("CC")), ("value", s("gcc")), ("flavor", s("Simple"))]),
    );
    let m = normalize(&v).unwrap();
    assert_eq!(
        m.things()[0],
        MakefileThing::Vardef {
            name: "CC".to_string(),
            value: "gcc".to_string(),
            flavor: VarFlavor::Simple,
            targets: None,
        }
    );
    assert_eq!(m.render(), "CC := gcc\n");
}

#[test]
fn variable_with_empty_value_keeps_it() {
    let v = tagged(
        "Vardef",
        record(vec![
            ("name", s("CC")),
            ("value", s("")),
            ("flavor", s("Recursive")),
            ("targets", list(&["t"])),
        ]),
    );
    assert_eq!(rendered(&v), "t: CC =\n");
}

#[test]
fn variable_without_value_is_malformed() {
    let v = tagged("Vardef", record(vec![("name", s("CC")), ("flavor", s("Simple"))]));
    assert_eq!(normalize(&v), Err(Error::Schema("Vardef".to_string())));
}

#[test]
fn unknown_flavor_is_malformed() {
    let v = tagged(
        "Vardef",
        record(vec![("name", s("CC")), ("value", s("x")), ("flavor", s("Lazy"))]),
    );
    assert_eq!(normalize(&v), Err(Error::Schema("Vardef".to_string())));
}

#[test]
fn rules_decode_with_absent_and_empty_lists() {
    let rule = tagged(
        "ExplicitRule",
        record(vec![
            ("targets", list(&["all"])),
            ("prerequisites", list(&["main.o"])),
            ("recipe", list(&["gcc -o all main.o"])),
        ]),
    );
    assert_eq!(rendered(&rule), "all: main.o\n\tgcc -o all main.o\n");
    let stat = tagged(
        "StaticPatternRule",
        record(vec![
            ("targets", list(&["a.o"])),
            ("target_pattern", s("%.o")),
            ("prereq_patterns", list(&[])),
        ]),
    );
    assert_eq!(rendered(&stat), "a.o: %.o:\n");
    let stat_absent = tagged(
        "StaticPatternRule",
        record(vec![("targets", list(&["a.o"])), ("target_pattern", s("%.o"))]),
    );
    assert_eq!(rendered(&stat_absent), "a.o: %.o\n");
    let pat = tagged(
        "PatternRule",
        record(vec![("patterns", list(&["%.o"])), ("prerequisites", list(&["%.c"]))]),
    );
    assert_eq!(rendered(&pat), "%.o: %.c\n");
}

#[test]
fn directives_decode() {
    let inc = tagged("Directive", record(vec![("t", s("Include")), ("c", list(&["a.mk"]))]));
    assert_eq!(
        normalize(&inc).unwrap().things()[0],
        MakefileThing::Directive(Directive::Include(Some(vec!["a.mk".to_string()])))
    );
    let sinc = tagged("Directive", record(vec![("t", s("SInclude"))]));
    assert_eq!(rendered(&sinc), "-include\n");
}

#[test]
fn rule_without_targets_is_malformed() {
    let none = tagged("ExplicitRule", record(vec![("recipe", list(&["x"]))]));
    assert_eq!(normalize(&none), Err(Error::Schema("ExplicitRule".to_string())));
    let empty_targets = tagged("ExplicitRule", record(vec![("targets", list(&[]))]));
    assert_eq!(normalize(&empty_targets), Err(Error::Schema("ExplicitRule".to_string())));
}

#[test]
fn list_with_a_non_string_is_malformed() {
    let v = tagged(
        "PatternRule",
        record(vec![("patterns", seq(vec![s("%.o"), RawValue::Integer(3)]))]),
    );
    assert_eq!(normalize(&v), Err(Error::Schema("PatternRule".to_string())));
}

#[test]
fn unknown_tag_is_reported() {
    let v = seq(vec![comment("ok"), tagged("Rule", empty())]);
    assert_eq!(normalize(&v), Err(Error::Schema("Rule".to_string())));
}

#[test]
fn first_malformed_statement_is_reported() {
    let v = seq(vec![seq(vec![tagged("Bad", empty())]), tagged("Worse", empty())]);
    assert_eq!(normalize(&v), Err(Error::Schema("Bad".to_string())));
}

#[test]
fn untagged_values_are_malformed() {
    assert_eq!(normalize(&s("text")), Err(Error::Schema(String::new())));
    assert_eq!(normalize(&RawValue::Nil), Err(Error::Schema(String::new())));
    assert_eq!(
        normalize(&record(vec![("c", s("hi"))])),
        Err(Error::Schema(String::new()))
    );
    assert_eq!(normalize(&seq(vec![RawValue::Boolean(true)])), Err(Error::Schema(String::new())));
}
