//! Decoding the schema-less value a script returns into ordered statements.
use vstd::prelude::*;
use crate::error::Error;
use crate::makefile::{Directive, Makefile, MakefileThing, ThingView, VarFlavor, views};

verus! {

/// A value handed back by the script interpreter.
///
/// A table holds its sequence part (`items`, keys 1..n in order) and its
/// string-keyed part (`fields`); every other value is a scalar.
#[derive(Debug, PartialEq)]
pub enum RawValue {
    Nil,
    Boolean(bool),
    Integer(i64),
    Str(String),
    Table { items: Vec<RawValue>, fields: Vec<(String, RawValue)> },
    /// A value of any other kind (number with a fraction, function, ...).
    Opaque,
}

/// The value stored under `key`: the first field of that name.
pub open spec fn lookup(fields: Seq<(String, RawValue)>, key: Seq<char>) -> Option<RawValue>
    decreases fields.len(),
{
    if fields.len() == 0 {
        None
    } else if fields[0].0@ == key {
        Some(fields[0].1)
    } else {
        lookup(fields.drop_first(), key)
    }
}

pub open spec fn fields_of(v: RawValue) -> Seq<(String, RawValue)> {
    match v {
        RawValue::Table { fields, .. } => fields@,
        _ => Seq::empty(),
    }
}

pub open spec fn is_str(v: RawValue) -> bool {
    v is Str
}

pub open spec fn all_strs(items: Seq<RawValue>) -> bool {
    forall|i: int| 0 <= i < items.len() ==> is_str(#[trigger] items[i])
}

pub open spec fn str_of(v: RawValue) -> Seq<char> {
    match v {
        RawValue::Str(s) => s@,
        _ => Seq::empty(),
    }
}

/// A list of strings: a table of strings only, without named fields.
pub open spec fn list_of(v: RawValue) -> Option<Seq<Seq<char>>> {
    match v {
        RawValue::Table { items, fields } => if fields@.len() == 0 && all_strs(items@) {
            Some(items@.map_values(|x: RawValue| str_of(x)))
        } else {
            None
        },
        _ => None,
    }
}

/// An optional list: absent or nil is `Some(None)`; a malformed one is `None`.
pub open spec fn opt_list_of(o: Option<RawValue>) -> Option<Option<Seq<Seq<char>>>> {
    match o {
        None => Some(None),
        Some(RawValue::Nil) => Some(None),
        Some(v) => match list_of(v) {
            Some(l) => Some(Some(l)),
            None => None,
        },
    }
}

/// A required list that must hold at least one entry.
pub open spec fn nonempty_list_of(o: Option<RawValue>) -> Option<Seq<Seq<char>>> {
    match o {
        Some(v) => match list_of(v) {
            Some(l) => if l.len() > 0 {
                Some(l)
            } else {
                None
            },
            None => None,
        },
        None => None,
    }
}

pub open spec fn text_of(o: Option<RawValue>) -> Option<Seq<char>> {
    match o {
        Some(RawValue::Str(s)) => Some(s@),
        _ => None,
    }
}

pub open spec fn flavor_of(o: Option<RawValue>) -> Option<VarFlavor> {
    match text_of(o) {
        Some(s) => if s == "Recursive"@ {
            Some(VarFlavor::Recursive)
        } else if s == "Simple"@ {
            Some(VarFlavor::Simple)
        } else if s == "Conditional"@ {
            Some(VarFlavor::Conditional)
        } else if s == "Shell"@ {
            Some(VarFlavor::Shell)
        } else if s == "Append"@ {
            Some(VarFlavor::Append)
        } else {
            None
        },
        None => None,
    }
}

fn field_index(fields: &Vec<(String, RawValue)>, key: &str) -> (r: Option<usize>)
    ensures
        match r {
            Some(i) => i < fields@.len() && lookup(fields@, key@) == Some(fields@[i as int].1),
            None => lookup(fields@, key@) is None,
        },
{
    let k = key.to_owned();
    let mut i: usize = 0;
    assert(fields@.subrange(0, fields@.len() as int) =~= fields@);
    while i < fields.len()
        invariant
            i <= fields@.len(),
            k@ == key@,
            lookup(fields@, key@) == lookup(fields@.subrange(i as int, fields@.len() as int), key@),
        decreases fields.len() - i,
    {
        let ghost rest = fields@.subrange(i as int, fields@.len() as int);
        assert(rest.drop_first() =~= fields@.subrange(i + 1, fields@.len() as int));
        if fields[i].0 == k {
            return Some(i);
        }
        i += 1;
    }
    None
}

fn field<'a>(fields: &'a Vec<(String, RawValue)>, key: &str) -> (r: Option<&'a RawValue>)
    ensures
        match r {
            Some(x) => lookup(fields@, key@) == Some(*x),
            None => lookup(fields@, key@) is None,
        },
{
    match field_index(fields, key) {
        Some(i) => Some(&fields[i].1),
        None => None,
    }
}

fn decode_list(v: &RawValue) -> (r: Option<Vec<String>>)
    ensures
        match r {
            Some(l) => list_of(*v) == Some(views(l@)),
            None => list_of(*v) is None,
        },
{
    match v {
        RawValue::Table { items, fields } => {
            if fields.len() != 0 {
                return None;
            }
            let mut out: Vec<String> = Vec::new();
            let mut i: usize = 0;
            while i < items.len()
                invariant
                    i <= items@.len(),
                    fields@.len() == 0,
                    list_of(*v) == (if all_strs(items@) {
                        Some(items@.map_values(|x: RawValue| str_of(x)))
                    } else {
                        None
                    }),
                    out@.len() == i,
                    forall|j: int| 0 <= j < i ==> is_str(#[trigger] items@[j]),
                    forall|j: int| 0 <= j < i ==> (#[trigger] out@[j])@ == str_of(items@[j]),
                decreases items.len() - i,
            {
                match &items[i] {
                    RawValue::Str(s) => out.push(s.clone()),
                    _ => {
                        assert(!is_str(items@[i as int]));
                        return None;
                    },
                }
                i += 1;
            }
            assert(views(out@) =~= items@.map_values(|x: RawValue| str_of(x)));
            Some(out)
        },
        _ => None,
    }
}

pub open spec fn owned(o: Option<&RawValue>) -> Option<RawValue> {
    match o {
        Some(x) => Some(*x),
        None => None,
    }
}

fn decode_opt_list(o: Option<&RawValue>) -> (r: Option<Option<Vec<String>>>)
    ensures
        match r {
            Some(Some(l)) => opt_list_of(owned(o)) == Some(Some(views(l@))),
            Some(None) => opt_list_of(owned(o)) == Some(None::<Seq<Seq<char>>>),
            None => opt_list_of(owned(o)) is None,
        },
{
    match o {
        None => Some(None),
        Some(RawValue::Nil) => Some(None),
        Some(v) => match decode_list(v) {
            Some(l) => Some(Some(l)),
            None => None,
        },
    }
}

pub open spec fn content_fields(c: Option<RawValue>) -> Seq<(String, RawValue)> {
    match c {
        Some(v) => fields_of(v),
        None => Seq::empty(),
    }
}

pub open spec fn vardef_of(f: Seq<(String, RawValue)>) -> Option<ThingView> {
    let name = text_of(lookup(f, "name"@));
    let value = text_of(lookup(f, "value"@));
    let flavor = flavor_of(lookup(f, "flavor"@));
    let targets = opt_list_of(lookup(f, "targets"@));
    if name is Some && value is Some && flavor is Some && targets is Some {
        Some(
            ThingView::Vardef {
                name: name->0,
                value: value->0,
                flavor: flavor->0,
                targets: targets->0,
            },
        )
    } else {
        None
    }
}

pub open spec fn directive_of(f: Seq<(String, RawValue)>) -> Option<ThingView> {
    let kind = text_of(lookup(f, "t"@));
    let names = opt_list_of(lookup(f, "c"@));
    if kind == Some("Include"@) && names is Some {
        Some(ThingView::Include(names->0))
    } else if kind == Some("SInclude"@) && names is Some {
        Some(ThingView::SInclude(names->0))
    } else {
        None
    }
}

pub open spec fn rule_of(pattern: bool, f: Seq<(String, RawValue)>) -> Option<ThingView> {
    let heads = if pattern {
        nonempty_list_of(lookup(f, "patterns"@))
    } else {
        nonempty_list_of(lookup(f, "targets"@))
    };
    let prerequisites = opt_list_of(lookup(f, "prerequisites"@));
    let recipe = opt_list_of(lookup(f, "recipe"@));
    if heads is Some && prerequisites is Some && recipe is Some {
        if pattern {
            Some(
                ThingView::PatternRule {
                    patterns: heads->0,
                    prerequisites: prerequisites->0,
                    recipe: recipe->0,
                },
            )
        } else {
            Some(
                ThingView::ExplicitRule {
                    targets: heads->0,
                    prerequisites: prerequisites->0,
                    recipe: recipe->0,
                },
            )
        }
    } else {
        None
    }
}

pub open spec fn static_rule_of(f: Seq<(String, RawValue)>) -> Option<ThingView> {
    let targets = nonempty_list_of(lookup(f, "targets"@));
    let target_pattern = text_of(lookup(f, "target_pattern"@));
    let prereq_patterns = opt_list_of(lookup(f, "prereq_patterns"@));
    let recipe = opt_list_of(lookup(f, "recipe"@));
    if targets is Some && target_pattern is Some && prereq_patterns is Some && recipe is Some {
        Some(
            ThingView::StaticPatternRule {
                targets: targets->0,
                target_pattern: target_pattern->0,
                prereq_patterns: prereq_patterns->0,
                recipe: recipe->0,
            },
        )
    } else {
        None
    }
}

/// The statement that a tag and its content stand for, if they are well formed.
pub open spec fn decode(tag: Seq<char>, c: Option<RawValue>) -> Option<ThingView> {
    if tag == "Comment"@ {
        match text_of(c) {
            Some(s) => Some(ThingView::Comment(s)),
            None => None,
        }
    } else if tag == "Vardef"@ {
        vardef_of(content_fields(c))
    } else if tag == "Directive"@ {
        directive_of(content_fields(c))
    } else if tag == "Break"@ {
        Some(ThingView::Break)
    } else if tag == "ExplicitRule"@ || tag == "PatternRule"@ {
        rule_of(tag == "PatternRule"@, content_fields(c))
    } else if tag == "StaticPatternRule"@ {
        static_rule_of(content_fields(c))
    } else {
        None
    }
}

fn is_text(s: &String, lit: &str) -> (r: bool)
    ensures
        r == (s@ == lit@),
{
    let t = lit.to_owned();
    *s == t
}

fn decode_text(o: Option<&RawValue>) -> (r: Option<String>)
    ensures
        match r {
            Some(s) => text_of(owned(o)) == Some(s@),
            None => text_of(owned(o)) is None,
        },
{
    match o {
        Some(RawValue::Str(s)) => Some(s.clone()),
        _ => None,
    }
}

fn decode_flavor(o: Option<&RawValue>) -> (r: Option<VarFlavor>)
    ensures
        r == flavor_of(owned(o)),
{
    match o {
        Some(RawValue::Str(s)) => {
            if is_text(s, "Recursive") {
                Some(VarFlavor::Recursive)
            } else if is_text(s, "Simple") {
                Some(VarFlavor::Simple)
            } else if is_text(s, "Conditional") {
                Some(VarFlavor::Conditional)
            } else if is_text(s, "Shell") {
                Some(VarFlavor::Shell)
            } else if is_text(s, "Append") {
                Some(VarFlavor::Append)
            } else {
                None
            }
        },
        _ => None,
    }
}

fn decode_nonempty_list(o: Option<&RawValue>) -> (r: Option<Vec<String>>)
    ensures
        match r {
            Some(l) => nonempty_list_of(owned(o)) == Some(views(l@)),
            None => nonempty_list_of(owned(o)) is None,
        },
{
    match o {
        Some(v) => match decode_list(v) {
            Some(l) => if l.len() > 0 {
                Some(l)
            } else {
                None
            },
            None => None,
        },
        None => None,
    }
}

fn content_fields_exec(c: Option<&RawValue>) -> (r: Option<&Vec<(String, RawValue)>>)
    ensures
        match r {
            Some(f) => content_fields(owned(c)) == f@,
            None => content_fields(owned(c)) == Seq::<(String, RawValue)>::empty(),
        },
{
    match c {
        Some(RawValue::Table { fields, .. }) => Some(fields),
        _ => None,
    }
}

pub open spec fn fseq(f: Option<&Vec<(String, RawValue)>>) -> Seq<(String, RawValue)> {
    match f {
        Some(v) => v@,
        None => Seq::empty(),
    }
}

fn lookup_in<'a>(f: Option<&'a Vec<(String, RawValue)>>, key: &str) -> (r: Option<&'a RawValue>)
    ensures
        owned(r) == lookup(fseq(f), key@),
{
    match f {
        Some(v) => field(v, key),
        None => None,
    }
}

fn decode_vardef(f: Option<&Vec<(String, RawValue)>>) -> (r: Option<MakefileThing>)
    ensures
        match r {
            Some(t) => vardef_of(fseq(f)) == Some(t@),
            None => vardef_of(fseq(f)) is None,
        },
{
    let name = decode_text(lookup_in(f, "name"));
    let value = decode_text(lookup_in(f, "value"));
    let flavor = decode_flavor(lookup_in(f, "flavor"));
    let targets = decode_opt_list(lookup_in(f, "targets"));
    match (name, value, flavor, targets) {
        (Some(name), Some(value), Some(flavor), Some(targets)) => {
            let t = MakefileThing::Vardef { name, value, flavor, targets };
            Some(t)
        },
        _ => None,
    }
}

fn decode_directive(f: Option<&Vec<(String, RawValue)>>) -> (r: Option<MakefileThing>)
    ensures
        match r {
            Some(t) => directive_of(fseq(f)) == Some(t@),
            None => directive_of(fseq(f)) is None,
        },
{
    let kind = decode_text(lookup_in(f, "t"));
    let names = decode_opt_list(lookup_in(f, "c"));
    match (kind, names) {
        (Some(kind), Some(names)) => {
            if is_text(&kind, "Include") {
                Some(MakefileThing::Directive(Directive::Include(names)))
            } else if is_text(&kind, "SInclude") {
                Some(MakefileThing::Directive(Directive::SInclude(names)))
            } else {
                None
            }
        },
        _ => None,
    }
}

fn decode_rule(pattern: bool, f: Option<&Vec<(String, RawValue)>>) -> (r: Option<MakefileThing>)
    ensures
        match r {
            Some(t) => rule_of(pattern, fseq(f)) == Some(t@),
            None => rule_of(pattern, fseq(f)) is None,
        },
{
    let heads = if pattern {
        decode_nonempty_list(lookup_in(f, "patterns"))
    } else {
        decode_nonempty_list(lookup_in(f, "targets"))
    };
    let prerequisites = decode_opt_list(lookup_in(f, "prerequisites"));
    let recipe = decode_opt_list(lookup_in(f, "recipe"));
    match (heads, prerequisites, recipe) {
        (Some(heads), Some(prerequisites), Some(recipe)) => {
            if pattern {
                Some(MakefileThing::PatternRule { patterns: heads, prerequisites, recipe })
            } else {
                Some(MakefileThing::ExplicitRule { targets: heads, prerequisites, recipe })
            }
        },
        _ => None,
    }
}

fn decode_static_rule(f: Option<&Vec<(String, RawValue)>>) -> (r: Option<MakefileThing>)
    ensures
        match r {
            Some(t) => static_rule_of(fseq(f)) == Some(t@),
            None => static_rule_of(fseq(f)) is None,
        },
{
    let targets = decode_nonempty_list(lookup_in(f, "targets"));
    let target_pattern = decode_text(lookup_in(f, "target_pattern"));
    let prereq_patterns = decode_opt_list(lookup_in(f, "prereq_patterns"));
    let recipe = decode_opt_list(lookup_in(f, "recipe"));
    match (targets, target_pattern, prereq_patterns, recipe) {
        (Some(targets), Some(target_pattern), Some(prereq_patterns), Some(recipe)) => {
            Some(MakefileThing::StaticPatternRule { targets, target_pattern, prereq_patterns, recipe })
        },
        _ => None,
    }
}

/// Decodes one statement from its tag and content.
pub fn decode_statement(tag: &String, c: Option<&RawValue>) -> (r: Option<MakefileThing>)
    ensures
        match r {
            Some(t) => decode(tag@, owned(c)) == Some(t@),
            None => decode(tag@, owned(c)) is None,
        },
{
    if is_text(tag, "Comment") {
        match decode_text(c) {
            Some(s) => Some(MakefileThing::Comment(s)),
            None => None,
        }
    } else if is_text(tag, "Vardef") {
        decode_vardef(content_fields_exec(c))
    } else if is_text(tag, "Directive") {
        decode_directive(content_fields_exec(c))
    } else if is_text(tag, "Break") {
        Some(MakefileThing::Break)
    } else if is_text(tag, "ExplicitRule") {
        proof {
            reveal_strlit("ExplicitRule");
            reveal_strlit("PatternRule");
            assert(tag@[0] != "PatternRule"@[0]);
        }
        decode_rule(false, content_fields_exec(c))
    } else if is_text(tag, "PatternRule") {
        decode_rule(true, content_fields_exec(c))
    } else if is_text(tag, "StaticPatternRule") {
        decode_static_rule(content_fields_exec(c))
    } else {
        None
    }
}

/// The tag of a statement table, or the empty sequence where there is none.
pub open spec fn tag_of(v: RawValue) -> Seq<char> {
    match text_of(lookup(fields_of(v), "t"@)) {
        Some(t) => t,
        None => Seq::empty(),
    }
}

/// One statement decoded from a tagged table.
pub open spec fn statement_of(v: RawValue) -> Result<Seq<ThingView>, Seq<char>> {
    match text_of(lookup(fields_of(v), "t"@)) {
        Some(t) => match decode(t, lookup(fields_of(v), "c"@)) {
            Some(thing) => Ok(seq![thing]),
            None => Err(t),
        },
        None => Err(Seq::empty()),
    }
}

/// The statements of two consecutive parts: the first failure wins.
pub open spec fn splice(
    a: Result<Seq<ThingView>, Seq<char>>,
    b: Result<Seq<ThingView>, Seq<char>>,
) -> Result<Seq<ThingView>, Seq<char>> {
    match a {
        Err(t) => Err(t),
        Ok(x) => match b {
            Err(t) => Err(t),
            Ok(y) => Ok(x + y),
        },
    }
}

/// A table with no entries and no named fields: the script's "nothing here".
pub open spec fn is_placeholder(v: RawValue) -> bool {
    match v {
        RawValue::Table { items, fields } => items@.len() == 0 && fields@.len() == 0,
        _ => false,
    }
}

/// A non-empty sequence: a table with entries and no named fields.
pub open spec fn is_sequence(v: RawValue) -> bool {
    match v {
        RawValue::Table { items, fields } => items@.len() > 0 && fields@.len() == 0,
        _ => false,
    }
}

/// The statements a value stands for, depth first and left to right, or the
/// tag of the first malformed statement.
pub open spec fn flatten(v: RawValue) -> Result<Seq<ThingView>, Seq<char>>
    decreases v,
{
    match v {
        RawValue::Table { items, fields } => if items@.len() > 0 && fields@.len() == 0 {
            flatten_items(items@)
        } else if items@.len() == 0 && fields@.len() == 0 {
            Ok(Seq::empty())
        } else {
            statement_of(v)
        },
        _ => statement_of(v),
    }
}

pub open spec fn flatten_items(s: Seq<RawValue>) -> Result<Seq<ThingView>, Seq<char>>
    decreases s,
{
    if s.len() == 0 {
        Ok(Seq::empty())
    } else {
        splice(flatten_items(s.subrange(0, s.len() - 1)), flatten(s[s.len() - 1]))
    }
}

pub open spec fn things_view(s: Seq<MakefileThing>) -> Seq<ThingView> {
    s.map_values(|t: MakefileThing| t@)
}

proof fn lemma_splice_assoc(
    a: Result<Seq<ThingView>, Seq<char>>,
    b: Result<Seq<ThingView>, Seq<char>>,
    c: Result<Seq<ThingView>, Seq<char>>,
)
    ensures
        splice(splice(a, b), c) == splice(a, splice(b, c)),
{
    if a is Ok && b is Ok && c is Ok {
        assert(a->Ok_0 + b->Ok_0 + c->Ok_0 =~= a->Ok_0 + (b->Ok_0 + c->Ok_0));
    }
}

/// Splicing: the statements of two consecutive runs of values are those of
/// the first followed by those of the second.
pub proof fn lemma_flatten_concat(a: Seq<RawValue>, b: Seq<RawValue>)
    ensures
        flatten_items(a + b) == splice(flatten_items(a), flatten_items(b)),
    decreases b.len(),
{
    if b.len() == 0 {
        assert(a + b =~= a);
        if flatten_items(a) is Ok {
            assert(flatten_items(a)->Ok_0 + Seq::<ThingView>::empty() =~= flatten_items(a)->Ok_0);
        }
    } else {
        let ab = a + b;
        let b1 = b.subrange(0, b.len() - 1);
        assert(ab.subrange(0, ab.len() - 1) =~= a + b1);
        assert(ab[ab.len() - 1] == b[b.len() - 1]);
        lemma_flatten_concat(a, b1);
        lemma_splice_assoc(flatten_items(a), flatten_items(b1), flatten(b[b.len() - 1]));
    }
}

/// A nested non-empty sequence is spliced in place: nesting does not change
/// the statements or their order.
pub proof fn lemma_nested_sequence_spliced(a: Seq<RawValue>, inner: RawValue, b: Seq<RawValue>)
    requires
        is_sequence(inner),
    ensures
        flatten_items(a + seq![inner] + b) == flatten_items(a + inner->items@ + b),
{
    let s = seq![inner];
    assert(s.subrange(0, 0) =~= Seq::<RawValue>::empty());
    assert(flatten_items(Seq::<RawValue>::empty()) == Ok::<Seq<ThingView>, Seq<char>>(
        Seq::<ThingView>::empty(),
    ));
    assert(flatten_items(s) == splice(Ok(Seq::<ThingView>::empty()), flatten(inner)));
    if flatten(inner) is Ok {
        assert(Seq::<ThingView>::empty() + flatten(inner)->Ok_0 =~= flatten(inner)->Ok_0);
    }
    lemma_flatten_concat(a + s, b);
    lemma_flatten_concat(a, s);
    lemma_flatten_concat(a + inner->items@, b);
    lemma_flatten_concat(a, inner->items@);
}

/// An empty placeholder contributes nothing.
pub proof fn lemma_placeholder_dropped(a: Seq<RawValue>, e: RawValue, b: Seq<RawValue>)
    requires
        is_placeholder(e),
    ensures
        flatten_items(a + seq![e] + b) == flatten_items(a + b),
{
    let s = seq![e];
    assert(s.subrange(0, 0) =~= Seq::<RawValue>::empty());
    assert(flatten_items(Seq::<RawValue>::empty()) == Ok::<Seq<ThingView>, Seq<char>>(
        Seq::<ThingView>::empty(),
    ));
    assert(flatten(e) == Ok::<Seq<ThingView>, Seq<char>>(Seq::<ThingView>::empty()));
    assert(Seq::<ThingView>::empty() + Seq::<ThingView>::empty() =~= Seq::<ThingView>::empty());
    assert(flatten_items(s) == Ok::<Seq<ThingView>, Seq<char>>(Seq::<ThingView>::empty()));
    lemma_flatten_concat(a + s, b);
    lemma_flatten_concat(a, s);
    lemma_flatten_concat(a, b);
    if flatten_items(a) is Ok {
        assert(flatten_items(a)->Ok_0 + Seq::<ThingView>::empty() =~= flatten_items(a)->Ok_0);
    }
}

fn statement_exec(v: &RawValue) -> (r: Result<MakefileThing, Error>)
    ensures
        match r {
            Ok(t) => statement_of(*v) == Ok::<Seq<ThingView>, Seq<char>>(seq![t@]),
            Err(e) => match e {
                Error::Schema(t) => statement_of(*v) == Err::<Seq<ThingView>, Seq<char>>(t@),
                _ => false,
            },
        },
{
    let fields = match v {
        RawValue::Table { fields, .. } => Some(fields),
        _ => None,
    };
    assert(fseq(fields) == fields_of(*v));
    match decode_text(lookup_in(fields, "t")) {
        Some(tag) => match decode_statement(&tag, lookup_in(fields, "c")) {
            Some(t) => Ok(t),
            None => Err(Error::Schema(tag)),
        },
        None => Err(Error::Schema(String::new())),
    }
}

fn flatten_into(v: &RawValue, out: &mut Vec<MakefileThing>) -> (r: Result<(), Error>)
    ensures
        match r {
            Ok(_) => flatten(*v) is Ok && things_view(final(out)@) == things_view(old(out)@)
                + flatten(*v)->Ok_0,
            Err(e) => match e {
                Error::Schema(t) => flatten(*v) == Err::<Seq<ThingView>, Seq<char>>(t@),
                _ => false,
            },
        },
    decreases v,
{
    let ghost start = out@;
    let is_seq = match v {
        RawValue::Table { items, fields } => items.len() > 0 && fields.len() == 0,
        _ => false,
    };
    let is_empty = match v {
        RawValue::Table { items, fields } => items.len() == 0 && fields.len() == 0,
        _ => false,
    };
    if is_seq {
        let items = match v {
            RawValue::Table { items, .. } => items,
            _ => {
                return Ok(());
            },
        };
        assert(items@.subrange(0, 0) =~= Seq::<RawValue>::empty());
        assert(things_view(out@) =~= things_view(start) + Seq::<ThingView>::empty());
        let mut i: usize = 0;
        while i < items.len()
            invariant
                i <= items@.len(),
                flatten(*v) == flatten_items(items@),
                *v is Table && v->items == *items,
                flatten_items(items@.subrange(0, i as int)) is Ok,
                things_view(out@) == things_view(start) + flatten_items(
                    items@.subrange(0, i as int),
                )->Ok_0,
            decreases items.len() - i,
        {
            let ghost before = out@;
            let ghost p = items@.subrange(0, i + 1);
            assert(p.subrange(0, i as int) =~= items@.subrange(0, i as int));
            assert(p[i as int] == items@[i as int]);
            let res = flatten_into(&items[i], out);
            match res {
                Ok(_) => {
                    proof {
                        let a = flatten_items(items@.subrange(0, i as int))->Ok_0;
                        let b = flatten(items@[i as int])->Ok_0;
                        assert(things_view(out@) =~= things_view(start) + (a + b));
                    }
                },
                Err(e) => {
                    proof {
                        lemma_flatten_concat(p, items@.subrange(i + 1, items@.len() as int));
                        assert(p + items@.subrange(i + 1, items@.len() as int) =~= items@);
                    }
                    return Err(e);
                },
            }
            i += 1;
        }
        assert(items@.subrange(0, items@.len() as int) =~= items@);
        Ok(())
    } else if is_empty {
        assert(things_view(out@) =~= things_view(start) + Seq::<ThingView>::empty());
        Ok(())
    } else {
        match statement_exec(v) {
            Ok(t) => {
                out.push(t);
                assert(things_view(out@) =~= things_view(start) + seq![t@]);
                Ok(())
            },
            Err(e) => Err(e),
        }
    }
}

/// Decodes what a script returned into a build file, keeping the authorial
/// order, splicing nested sequences in place and dropping empty placeholders.
pub fn normalize(v: &RawValue) -> (r: Result<Makefile, Error>)
    ensures
        match r {
            Ok(m) => flatten(*v) == Ok::<Seq<ThingView>, Seq<char>>(m@),
            Err(e) => match e {
                Error::Schema(t) => flatten(*v) == Err::<Seq<ThingView>, Seq<char>>(t@),
                _ => false,
            },
        },
{
    let mut things: Vec<MakefileThing> = Vec::new();
    match flatten_into(v, &mut things) {
        Ok(_) => {
            assert(things_view(things@) =~= Seq::<ThingView>::empty() + flatten(*v)->Ok_0);
            Ok(Makefile::new(things))
        },
        Err(e) => Err(e),
    }
}

/// A variable definition needs its value field: without one it is
/// malformed, while an empty string is a value like any other.
pub proof fn lemma_vardef_value_required(f: Seq<(String, RawValue)>)
    ensures
        lookup(f, "value"@) is None ==> vardef_of(f) is None,
        text_of(lookup(f, "value"@)) == Some(Seq::<char>::empty()) && vardef_of(f) is Some
            ==> vardef_of(f)->0->Vardef_value == Seq::<char>::empty(),
{
}

} // verus!
