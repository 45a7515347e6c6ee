use epine::{Directive, Makefile, MakefileThing, VarFlavor};

fn strs(v: &[&str]) -> Vec<String> {
    v.iter().map(|s| s.to_string()).collect()
}

fn vardef(name: &str, value: &str, flavor: VarFlavor, targets: Option<Vec<String>>) -> MakefileThing {
    MakefileThing::Vardef {
        name: name.to_string(),
        value: value.to_string(),
        flavor,
        targets,
    }
}

#[test]
fn comment_renders_after_hash() {
    assert_eq!(MakefileThing::Comment("hi".to_string()).render(), "#hi\n");
}

#[test]
fn immediate_variable_renders() {
    assert_eq!(vardef("CC", "gcc", VarFlavor::Simple, None).render(), "CC := gcc\n");
}

#[test]
fn empty_value_leaves_bare_operator() {
    assert_eq!(vardef("CC", "", VarFlavor::Simple, None).render(), "CC :=\n");
    assert_ne!(
        vardef("CC", "", VarFlavor::Simple, None).render(),
        vardef("CC", " ", VarFlavor::Simple, None).render()
    );
}

#[test]
fn every_flavor_has_its_operator() {
    assert_eq!(vardef("A", "1", VarFlavor::Recursive, None).render(), "A = 1\n");
    assert_eq!(vardef("A", "1", VarFlavor::Simple, None).render(), "A := 1\n");
    assert_eq!(vardef("A", "1", VarFlavor::Conditional, None).render(), "A ?= 1\n");
    assert_eq!(vardef("A", "ls", VarFlavor::Shell, None).render(), "A != ls\n");
    assert_eq!(vardef("A", "1", VarFlavor::Append, None).render(), "A += 1\n");
}

#[test]
fn target_specific_variable_renders_its_targets() {
    let t = vardef("CFLAGS", "-g", VarFlavor::Append, Some(strs(&["debug", "test"])));
    assert_eq!(t.render(), "debug test: CFLAGS += -g\n");
}

#[test]
fn explicit_rule_renders_with_tab_recipe() {
    let rule = MakefileThing::ExplicitRule {
        targets: strs(&["all"]),
        prerequisites: Some(strs(&["main.o"])),
        recipe: Some(strs(&["gcc -o all main.o"])),
    };
    assert_eq!(rule.render(), "all: main.o\n\tgcc -o all main.o\n");
}

#[test]
fn rule_prerequisites_and_recipe_lines() {
    let absent = MakefileThing::ExplicitRule {
        targets: strs(&["a", "b"]),
        prerequisites: None,
        recipe: None,
    };
    let empty = MakefileThing::ExplicitRule {
        targets: strs(&["a", "b"]),
        prerequisites: Some(vec![]),
        recipe: Some(vec![]),
    };
    assert_eq!(absent.render(), "a b:\n");
    assert_eq!(empty.render(), "a b:\n");
    let two = MakefileThing::ExplicitRule {
        targets: strs(&["a"]),
        prerequisites: Some(strs(&["x", "y"])),
        recipe: Some(strs(&["one", "two"])),
    };
    assert_eq!(two.render(), "a: x y\n\tone\n\ttwo\n");
}

#[test]
fn pattern_rule_renders() {
    let rule = MakefileThing::PatternRule {
        patterns: strs(&["%.o"]),
        prerequisites: Some(strs(&["%.c"])),
        recipe: Some(strs(&["$(CC) -c $< -o $@"])),
    };
    assert_eq!(rule.render(), "%.o: %.c\n\t$(CC) -c $< -o $@\n");
}

#[test]
fn static_pattern_rule_separates_prerequisite_patterns() {
    let with = MakefileThing::StaticPatternRule {
        targets: strs(&["a.o", "b.o"]),
        target_pattern: "%.o".to_string(),
        prereq_patterns: Some(strs(&["%.c"])),
        recipe: Some(strs(&["cc -c $<"])),
    };
    assert_eq!(with.render(), "a.o b.o: %.o: %.c\n\tcc -c $<\n");
    let empty = MakefileThing::StaticPatternRule {
        targets: strs(&["a.o"]),
        target_pattern: "%.o".to_string(),
        prereq_patterns: Some(vec![]),
        recipe: None,
    };
    assert_eq!(empty.render(), "a.o: %.o:\n");
    let absent = MakefileThing::StaticPatternRule {
        targets: strs(&["a.o"]),
        target_pattern: "%.o".to_string(),
        prereq_patterns: None,
        recipe: None,
    };
    assert_eq!(absent.render(), "a.o: %.o\n");
}

#[test]
fn include_directives_render() {
    let inc = MakefileThing::Directive(Directive::Include(Some(strs(&["a.mk", "b.mk"]))));
    assert_eq!(inc.render(), "include a.mk b.mk\n");
    let bare = MakefileThing::Directive(Directive::Include(None));
    assert_eq!(bare.render(), "include\n");
    let silent = MakefileThing::Directive(Directive::SInclude(Some(strs(&["deps.d"]))));
    assert_eq!(silent.render(), "-include deps.d\n");
    let silent_empty = MakefileThing::Directive(Directive::SInclude(Some(vec![])));
    assert_eq!(silent_empty.render(), "-include\n");
}

#[test]
fn break_is_one_empty_line() {
    assert_eq!(MakefileThing::Break.render(), "\n");
}

#[test]
fn makefile_renders_statements_in_order() {
    let m = Makefile::new(vec![
        MakefileThing::Comment(" generated".to_string()),
        vardef("CC", "gcc", VarFlavor::Simple, None),
        MakefileThing::Break,
        MakefileThing::ExplicitRule {
            targets: strs(&["all"]),
            prerequisites: Some(strs(&["main.o"])),
            recipe: Some(strs(&["gcc -o all main.o"])),
        },
    ]);
    let expected = "# generated\nCC := gcc\n\nall: main.o\n\tgcc -o all main.o\n";
    assert_eq!(m.render(), expected);
    assert_eq!(m.generate().unwrap(), expected);
    assert_eq!(m.things().len(), 4);
}

#[test]
fn empty_makefile_renders_nothing() {
    assert_eq!(Makefile::new(vec![]).render(), "");
}

#[test]
fn flavor_operator_strings() {
    assert_eq!(VarFlavor::Shell.operator(), "!=");
    assert_eq!(VarFlavor::Conditional.operator(), "?=");
}
