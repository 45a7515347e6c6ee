//! The build-file model and its rendering to make syntax.
use vstd::prelude::*;
use crate::error::Error;

verus! {

/// The assignment semantics of a variable definition.
#[derive(Debug, Clone, Copy, PartialEq, Eq, Structural)]
pub enum VarFlavor {
    Recursive,
    Simple,
    Conditional,
    Shell,
    Append,
}

/// An `include` or `-include` line, with or without its file names.
#[derive(Debug, Clone, PartialEq, Eq)]
pub enum Directive {
    Include(Option<Vec<String>>),
    SInclude(Option<Vec<String>>),
}

/// One renderable statement of a build file.
#[derive(Debug, Clone, PartialEq, Eq)]
pub enum MakefileThing {
    Comment(String),
    Vardef { name: String, value: String, flavor: VarFlavor, targets: Option<Vec<String>> },
    Directive(Directive),
    Break,
    ExplicitRule {
        targets: Vec<String>,
        prerequisites: Option<Vec<String>>,
        recipe: Option<Vec<String>>,
    },
    PatternRule {
        patterns: Vec<String>,
        prerequisites: Option<Vec<String>>,
        recipe: Option<Vec<String>>,
    },
    StaticPatternRule {
        targets: Vec<String>,
        target_pattern: String,
        prereq_patterns: Option<Vec<String>>,
        recipe: Option<Vec<String>>,
    },
}

/// An ordered sequence of statements; the order is kept as given.
#[derive(Debug, Clone, PartialEq, Eq)]
pub struct Makefile {
    things: Vec<MakefileThing>,
}

/// The mathematical content of a statement: its strings as character sequences.
pub enum ThingView {
    Comment(Seq<char>),
    Vardef {
        name: Seq<char>,
        value: Seq<char>,
        flavor: VarFlavor,
        targets: Option<Seq<Seq<char>>>,
    },
    Include(Option<Seq<Seq<char>>>),
    SInclude(Option<Seq<Seq<char>>>),
    Break,
    ExplicitRule {
        targets: Seq<Seq<char>>,
        prerequisites: Option<Seq<Seq<char>>>,
        recipe: Option<Seq<Seq<char>>>,
    },
    PatternRule {
        patterns: Seq<Seq<char>>,
        prerequisites: Option<Seq<Seq<char>>>,
        recipe: Option<Seq<Seq<char>>>,
    },
    StaticPatternRule {
        targets: Seq<Seq<char>>,
        target_pattern: Seq<char>,
        prereq_patterns: Option<Seq<Seq<char>>>,
        recipe: Option<Seq<Seq<char>>>,
    },
}

pub open spec fn views(v: Seq<String>) -> Seq<Seq<char>> {
    v.map_values(|s: String| s@)
}

pub open spec fn opt_views(o: Option<Vec<String>>) -> Option<Seq<Seq<char>>> {
    match o {
        Some(v) => Some(views(v@)),
        None => None,
    }
}

impl View for MakefileThing {
    type V = ThingView;

    open spec fn view(&self) -> ThingView {
        match self {
            MakefileThing::Comment(c) => ThingView::Comment(c@),
            MakefileThing::Vardef { name, value, flavor, targets } => ThingView::Vardef {
                name: name@,
                value: value@,
                flavor: *flavor,
                targets: opt_views(*targets),
            },
            MakefileThing::Directive(Directive::Include(f)) => ThingView::Include(opt_views(*f)),
            MakefileThing::Directive(Directive::SInclude(f)) => ThingView::SInclude(opt_views(*f)),
            MakefileThing::Break => ThingView::Break,
            MakefileThing::ExplicitRule { targets, prerequisites, recipe } => ThingView::ExplicitRule {
                targets: views(targets@),
                prerequisites: opt_views(*prerequisites),
                recipe: opt_views(*recipe),
            },
            MakefileThing::PatternRule { patterns, prerequisites, recipe } => ThingView::PatternRule {
                patterns: views(patterns@),
                prerequisites: opt_views(*prerequisites),
                recipe: opt_views(*recipe),
            },
            MakefileThing::StaticPatternRule { targets, target_pattern, prereq_patterns, recipe } =>
                ThingView::StaticPatternRule {
                targets: views(targets@),
                target_pattern: target_pattern@,
                prereq_patterns: opt_views(*prereq_patterns),
                recipe: opt_views(*recipe),
            },
        }
    }
}

impl View for Makefile {
    type V = Seq<ThingView>;

    closed spec fn view(&self) -> Seq<ThingView> {
        self.things@.map_values(|t: MakefileThing| t@)
    }
}

/// The items separated by single spaces.
pub open spec fn joined(items: Seq<Seq<char>>) -> Seq<char>
    decreases items.len(),
{
    if items.len() == 0 {
        Seq::empty()
    } else if items.len() == 1 {
        items[0]
    } else {
        joined(items.drop_last()) + " "@ + items.last()
    }
}

/// Each item preceded by one space.
pub open spec fn spaced(items: Seq<Seq<char>>) -> Seq<char>
    decreases items.len(),
{
    if items.len() == 0 {
        Seq::empty()
    } else {
        spaced(items.drop_last()) + " "@ + items.last()
    }
}

/// Each item on a line of its own, indented by one tab.
pub open spec fn recipe_lines(items: Seq<Seq<char>>) -> Seq<char>
    decreases items.len(),
{
    if items.len() == 0 {
        Seq::empty()
    } else {
        recipe_lines(items.drop_last()) + "\t"@ + items.last() + "\n"@
    }
}

pub open spec fn opt_spaced(o: Option<Seq<Seq<char>>>) -> Seq<char> {
    match o {
        Some(items) => spaced(items),
        None => Seq::empty(),
    }
}

pub open spec fn opt_recipe(o: Option<Seq<Seq<char>>>) -> Seq<char> {
    match o {
        Some(items) => recipe_lines(items),
        None => Seq::empty(),
    }
}

/// The assignment operator of each flavor.
pub open spec fn operator(f: VarFlavor) -> Seq<char> {
    match f {
        VarFlavor::Recursive => "="@,
        VarFlavor::Simple => ":="@,
        VarFlavor::Conditional => "?="@,
        VarFlavor::Shell => "!="@,
        VarFlavor::Append => "+="@,
    }
}

/// The text of one statement.
pub open spec fn thing_text(t: ThingView) -> Seq<char> {
    match t {
        ThingView::Comment(c) => "#"@ + c + "\n"@,
        ThingView::Vardef { name, value, flavor, targets } => {
            let scope = match targets {
                Some(ts) => joined(ts) + ": "@,
                None => Seq::empty(),
            };
            let rhs = if value.len() == 0 {
                Seq::empty()
            } else {
                " "@ + value
            };
            scope + name + " "@ + operator(flavor) + rhs + "\n"@
        },
        ThingView::Include(f) => "include"@ + opt_spaced(f) + "\n"@,
        ThingView::SInclude(f) => "-include"@ + opt_spaced(f) + "\n"@,
        ThingView::Break => "\n"@,
        ThingView::ExplicitRule { targets, prerequisites, recipe } => joined(targets) + ":"@
            + opt_spaced(prerequisites) + "\n"@ + opt_recipe(recipe),
        ThingView::PatternRule { patterns, prerequisites, recipe } => joined(patterns) + ":"@
            + opt_spaced(prerequisites) + "\n"@ + opt_recipe(recipe),
        ThingView::StaticPatternRule { targets, target_pattern, prereq_patterns, recipe } => {
            let prereqs = match prereq_patterns {
                Some(pp) => ":"@ + spaced(pp),
                None => Seq::empty(),
            };
            joined(targets) + ": "@ + target_pattern + prereqs + "\n"@ + opt_recipe(recipe)
        },
    }
}

/// The text of a whole build file: its statements' texts in order.
pub open spec fn makefile_text(things: Seq<ThingView>) -> Seq<char>
    decreases things.len(),
{
    if things.len() == 0 {
        Seq::empty()
    } else {
        makefile_text(things.drop_last()) + thing_text(things.last())
    }
}

/// A variable with an empty value renders its operator followed directly by
/// the end of the line; a non-empty value follows the operator after one space.
pub proof fn lemma_vardef_value_rendering(
    name: Seq<char>,
    value: Seq<char>,
    flavor: VarFlavor,
    targets: Option<Seq<Seq<char>>>,
)
    ensures
        ({
            let scope = match targets {
                Some(ts) => joined(ts) + ": "@,
                None => Seq::empty(),
            };
            let text = thing_text(ThingView::Vardef { name, value, flavor, targets });
            &&& value.len() == 0 ==> text == scope + name + " "@ + operator(flavor) + "\n"@
            &&& value.len() > 0 ==> text == scope + name + " "@ + operator(flavor) + " "@ + value
                + "\n"@
        }),
{
    let scope = match targets {
        Some(ts) => joined(ts) + ": "@,
        None => Seq::<char>::empty(),
    };
    if value.len() == 0 {
        assert(scope + name + " "@ + operator(flavor) + Seq::<char>::empty() + "\n"@ =~= scope + name
            + " "@ + operator(flavor) + "\n"@);
    } else {
        assert(scope + name + " "@ + operator(flavor) + (" "@ + value) + "\n"@ =~= scope + name
            + " "@ + operator(flavor) + " "@ + value + "\n"@);
    }
}

proof fn lemma_views_prefix(v: Seq<String>, i: int)
    requires
        0 <= i < v.len(),
    ensures
        views(v.subrange(0, i + 1)).drop_last() == views(v.subrange(0, i)),
        views(v.subrange(0, i + 1)).last() == v[i]@,
        views(v.subrange(0, i + 1)).len() == i + 1,
{
    assert(views(v.subrange(0, i + 1)).drop_last() =~= views(v.subrange(0, i)));
}

fn push_joined(out: &mut String, items: &Vec<String>)
    ensures
        final(out)@ == old(out)@ + joined(views(items@)),
{
    let ghost start = out@;
    let mut i: usize = 0;
    while i < items.len()
        invariant
            i <= items.len(),
            out@ == start + joined(views(items@.subrange(0, i as int))),
        decreases items.len() - i,
    {
        proof {
            lemma_views_prefix(items@, i as int);
        }
        if i > 0 {
            out.append(" ");
        }
        out.append(items[i].as_str());
        proof {
            let w = views(items@.subrange(0, i + 1));
            if i == 0 {
                assert(views(items@.subrange(0, 0)) =~= Seq::<Seq<char>>::empty());
                assert(w.len() == 1);
                assert(out@ =~= start + joined(w));
            } else {
                assert(out@ =~= start + joined(w));
            }
        }
        i += 1;
    }
    assert(items@.subrange(0, items.len() as int) =~= items@);
}

fn push_spaced(out: &mut String, items: &Vec<String>)
    ensures
        final(out)@ == old(out)@ + spaced(views(items@)),
{
    let ghost start = out@;
    let mut i: usize = 0;
    while i < items.len()
        invariant
            i <= items.len(),
            out@ == start + spaced(views(items@.subrange(0, i as int))),
        decreases items.len() - i,
    {
        proof {
            lemma_views_prefix(items@, i as int);
        }
        out.append(" ");
        out.append(items[i].as_str());
        proof {
            assert(out@ =~= start + spaced(views(items@.subrange(0, i + 1))));
        }
        i += 1;
    }
    assert(items@.subrange(0, items.len() as int) =~= items@);
}

fn push_recipe(out: &mut String, items: &Vec<String>)
    ensures
        final(out)@ == old(out)@ + recipe_lines(views(items@)),
{
    let ghost start = out@;
    let mut i: usize = 0;
    while i < items.len()
        invariant
            i <= items.len(),
            out@ == start + recipe_lines(views(items@.subrange(0, i as int))),
        decreases items.len() - i,
    {
        proof {
            lemma_views_prefix(items@, i as int);
        }
        out.append("\t");
        out.append(items[i].as_str());
        out.append("\n");
        proof {
            assert(out@ =~= start + recipe_lines(views(items@.subrange(0, i + 1))));
        }
        i += 1;
    }
    assert(items@.subrange(0, items.len() as int) =~= items@);
}

fn push_opt_spaced(out: &mut String, items: &Option<Vec<String>>)
    ensures
        final(out)@ == old(out)@ + opt_spaced(opt_views(*items)),
{
    match items {
        Some(v) => push_spaced(out, v),
        None => {
            assert(out@ =~= out@ + Seq::<char>::empty());
        },
    }
}

fn push_opt_recipe(out: &mut String, items: &Option<Vec<String>>)
    ensures
        final(out)@ == old(out)@ + opt_recipe(opt_views(*items)),
{
    match items {
        Some(v) => push_recipe(out, v),
        None => {
            assert(out@ =~= out@ + Seq::<char>::empty());
        },
    }
}

impl VarFlavor {
    /// The operator that assigns with this flavor.
    pub fn operator(&self) -> (r: &'static str)
        ensures
            r@ == operator(*self),
    {
        match self {
            VarFlavor::Recursive => "=",
            VarFlavor::Simple => ":=",
            VarFlavor::Conditional => "?=",
            VarFlavor::Shell => "!=",
            VarFlavor::Append => "+=",
        }
    }
}

fn push_vardef(
    out: &mut String,
    name: &String,
    value: &String,
    flavor: VarFlavor,
    targets: &Option<Vec<String>>,
)
    ensures
        final(out)@ == old(out)@ + thing_text(
            ThingView::Vardef {
                name: name@,
                value: value@,
                flavor: flavor,
                targets: opt_views(*targets),
            },
        ),
{
    let ghost start = out@;
    let ghost scope = match opt_views(*targets) {
        Some(ts) => joined(ts) + ": "@,
        None => Seq::empty(),
    };
    match targets {
        Some(ts) => {
            push_joined(out, ts);
            out.append(": ");
        },
        None => {},
    }
    assert(out@ =~= start + scope);
    out.append(name.as_str());
    out.append(" ");
    out.append(flavor.operator());
    let ghost before_rhs = out@;
    if value.as_str().unicode_len() == 0 {
        out.append("\n");
        assert(out@ =~= before_rhs + Seq::<char>::empty() + "\n"@);
    } else {
        out.append(" ");
        out.append(value.as_str());
        out.append("\n");
        assert(out@ =~= before_rhs + (" "@ + value@) + "\n"@);
    }
    assert(out@ =~= start + (scope + name@ + " "@ + operator(flavor) + (if value@.len() == 0 {
        Seq::<char>::empty()
    } else {
        " "@ + value@
    }) + "\n"@));
}

fn push_rule(
    out: &mut String,
    heads: &Vec<String>,
    prerequisites: &Option<Vec<String>>,
    recipe: &Option<Vec<String>>,
)
    ensures
        final(out)@ == old(out)@ + (joined(views(heads@)) + ":"@ + opt_spaced(
            opt_views(*prerequisites),
        ) + "\n"@ + opt_recipe(opt_views(*recipe))),
{
    let ghost start = out@;
    push_joined(out, heads);
    out.append(":");
    push_opt_spaced(out, prerequisites);
    out.append("\n");
    push_opt_recipe(out, recipe);
    assert(out@ =~= start + (joined(views(heads@)) + ":"@ + opt_spaced(opt_views(*prerequisites))
        + "\n"@ + opt_recipe(opt_views(*recipe))));
}

fn push_static_rule(
    out: &mut String,
    targets: &Vec<String>,
    target_pattern: &String,
    prereq_patterns: &Option<Vec<String>>,
    recipe: &Option<Vec<String>>,
)
    ensures
        final(out)@ == old(out)@ + thing_text(
            ThingView::StaticPatternRule {
                targets: views(targets@),
                target_pattern: target_pattern@,
                prereq_patterns: opt_views(*prereq_patterns),
                recipe: opt_views(*recipe),
            },
        ),
{
    let ghost start = out@;
    push_joined(out, targets);
    out.append(": ");
    out.append(target_pattern.as_str());
    let ghost before_prereqs = out@;
    let ghost prereqs = match opt_views(*prereq_patterns) {
        Some(pp) => ":"@ + spaced(pp),
        None => Seq::empty(),
    };
    match prereq_patterns {
        Some(pp) => {
            out.append(":");
            push_spaced(out, pp);
            assert(out@ =~= before_prereqs + (":"@ + spaced(views(pp@))));
        },
        None => {
            assert(out@ =~= before_prereqs + Seq::<char>::empty());
        },
    }
    assert(out@ =~= before_prereqs + prereqs);
    out.append("\n");
    push_opt_recipe(out, recipe);
    assert(out@ =~= start + (joined(views(targets@)) + ": "@ + target_pattern@ + prereqs + "\n"@
        + opt_recipe(opt_views(*recipe))));
}

impl MakefileThing {
    /// Appends this statement's text to `out`.
    pub fn render_into(&self, out: &mut String)
        ensures
            final(out)@ == old(out)@ + thing_text(self@),
    {
        let ghost start = out@;
        match self {
            MakefileThing::Comment(line) => {
                out.append("#");
                out.append(line.as_str());
                out.append("\n");
                assert(out@ =~= start + thing_text(self@));
            },
            MakefileThing::Vardef { name, value, flavor, targets } => {
                push_vardef(out, name, value, *flavor, targets);
            },
            MakefileThing::Directive(Directive::Include(fnames)) => {
                out.append("include");
                push_opt_spaced(out, fnames);
                out.append("\n");
                assert(out@ =~= start + thing_text(self@));
            },
            MakefileThing::Directive(Directive::SInclude(fnames)) => {
                out.append("-include");
                push_opt_spaced(out, fnames);
                out.append("\n");
                assert(out@ =~= start + thing_text(self@));
            },
            MakefileThing::Break => {
                out.append("\n");
                assert(out@ =~= start + thing_text(self@));
            },
            MakefileThing::ExplicitRule { targets, prerequisites, recipe } => {
                push_rule(out, targets, prerequisites, recipe);
            },
            MakefileThing::PatternRule { patterns, prerequisites, recipe } => {
                push_rule(out, patterns, prerequisites, recipe);
            },
            MakefileThing::StaticPatternRule { targets, target_pattern, prereq_patterns, recipe } => {
                push_static_rule(out, targets, target_pattern, prereq_patterns, recipe);
            },
        }
    }

    /// The text of this statement in make syntax.
    pub fn render(&self) -> (r: String)
        ensures
            r@ == thing_text(self@),
    {
        let mut out = String::new();
        self.render_into(&mut out);
        assert(out@ =~= thing_text(self@));
        out
    }
}

impl Makefile {
    /// A build file holding `things`, in that order.
    pub fn new(things: Vec<MakefileThing>) -> (r: Makefile)
        ensures
            r@ == things@.map_values(|t: MakefileThing| t@),
    {
        Makefile { things }
    }

    /// The statements, in order.
    pub fn things(&self) -> (r: &Vec<MakefileThing>)
        ensures
            r@.map_values(|t: MakefileThing| t@) == self@,
    {
        &self.things
    }

    /// The whole build file in make syntax.
    pub fn render(&self) -> (r: String)
        ensures
            r@ == makefile_text(self@),
    {
        let mut out = String::new();
        let mut i: usize = 0;
        while i < self.things.len()
            invariant
                i <= self.things.len(),
                out@ == makefile_text(self@.subrange(0, i as int)),
            decreases self.things.len() - i,
        {
            self.things[i].render_into(&mut out);
            proof {
                assert(self@.subrange(0, i + 1).drop_last() =~= self@.subrange(0, i as int));
            }
            i += 1;
        }
        assert(self@.subrange(0, self.things.len() as int) =~= self@);
        out
    }

    /// The generated build file: the rendered statements.
    pub fn generate(&self) -> (r: Result<String, Error>)
        ensures
            r matches Ok(text) && text@ == makefile_text(self@),
    {
        Ok(self.render())
    }
}

} // verus!
