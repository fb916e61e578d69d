//! The files and directories of a project made from a template.
use vstd::prelude::*;

use crate::generate::expand::{
    build_liquid_globals, can_become, expand_text, global_texts, output_name, output_name_of,
};
use crate::generate::ignore::{
    all_simple, any_glob_matches, any_simple_matches, build_globset, can_lack_set, can_match,
    can_refuse_set, ignore_lines, ignore_patterns, is_ending, is_ignored, is_literal, keeps_patterns,
    law_list_is_read_line_by_line, law_what_a_simple_pattern_leaves_out, no_backslash,
    no_backslashes, paths_of, patterns_of, simple_matches,
};
use crate::generate::variables::{
    hyphenated, hyphenated_names, project_variables, variables_of_project,
};
use crate::generate::values::{object_texts, scalar_names};
use crate::path::{below, join_below};
use crate::text::{is_space, opt_text, text_eq, texts};

verus! {

/// What is wrong where a project has no name and none may be asked for.
pub const NAME_MISSING: &'static str = "the name of the project is missing";

/// What is wrong where a project has no type and it may not be asked for.
pub const TYPE_MISSING: &'static str = "the type of the project is missing";

/// What is wrong where it is not said whether a project is public, and it may not be asked.
pub const VISIBILITY_MISSING: &'static str = "the visibility of the project is missing";

/// How a project is made from a template.
#[derive(Debug)]
pub struct GenerateConfig {
    /// The name of the project.
    pub name: String,
    /// The directory under which the project is made, the current one where it is not given.
    pub destination: Option<String>,
    /// Variables, each in the form `key=value`.
    pub define: Vec<String>,
    /// Ask nothing.
    pub silent: bool,
    /// Tell more.
    pub verbose: bool,
}

/// Where a template comes from.
#[derive(Debug)]
pub enum TemplateSource {
    /// A template held in memory.
    Embedded(TemplateTree),
    /// A directory.
    LocalDir(String),
}

/// What a directory of a template holds.
#[derive(Debug)]
pub struct TemplateTree {
    pub entries: Vec<TemplateEntry>,
}

/// A file or a directory of a template.
#[derive(Debug)]
pub enum TemplateEntry {
    Dir { name: String, tree: TemplateTree },
    /// A file and its text; none where it does not hold a text.
    File { name: String, contents: Option<String> },
}

/// What becomes of an entry of a template.
#[derive(Debug)]
pub enum EntryAction {
    /// It is left out.
    Skip,
    /// A directory is made for it, and what it holds is looked at under this path.
    Descend { relative: String },
    /// It is expanded and written under this name.
    Expand { output: String },
}

/// Whether a file only steers the expansion.
pub open spec fn is_control_file(name: Seq<char>) -> bool {
    name == "cargo-generate.toml"@ || name == ".genignore"@
}

/// Whether an entry is left out. Its path is relative to the template.
pub open spec fn is_left_out(
    ignored: Set<Seq<char>>,
    relative: Seq<char>,
    name: Seq<char>,
    is_dir: bool,
) -> bool {
    (!is_dir && is_control_file(name)) || ignored.contains(below(relative, name))
}

/// Decides what becomes of the entry `name` in the directory `relative` of a template.
pub fn entry_action(
    genignore: &Option<globset::GlobSet>,
    relative: &str,
    name: &str,
    is_dir: bool,
) -> (action: EntryAction)
    ensures
        (match action {
            EntryAction::Skip => is_left_out(paths_of(*genignore), relative@, name@, is_dir),
            EntryAction::Descend { relative: path } => {
                &&& is_dir
                &&& !is_left_out(paths_of(*genignore), relative@, name@, is_dir)
                &&& path@ == below(relative@, name@)
            },
            EntryAction::Expand { output } => {
                &&& !is_dir
                &&& !is_left_out(paths_of(*genignore), relative@, name@, is_dir)
                &&& output@ == output_name(name@)
            },
        }),
{
    if !is_dir && (text_eq(name, "cargo-generate.toml") || text_eq(name, ".genignore")) {
        return EntryAction::Skip;
    }
    let path = join_below(relative, name);
    if is_ignored(genignore, path.as_str()) {
        EntryAction::Skip
    } else if is_dir {
        EntryAction::Descend { relative: path }
    } else {
        EntryAction::Expand { output: output_name_of(name) }
    }
}

/// A directory to make, or a file to write once its text is expanded.
#[derive(Debug)]
pub enum PlanItem {
    Dir { path: String },
    File { path: String, contents: String },
}

/// A directory or file of a plan, as texts.
pub enum PlanModel {
    Dir { path: Seq<char> },
    File { path: Seq<char>, contents: Seq<char> },
}

impl View for PlanItem {
    type V = PlanModel;

    open spec fn view(&self) -> PlanModel {
        match *self {
            PlanItem::Dir { path } => PlanModel::Dir { path: path@ },
            PlanItem::File { path, contents } => PlanModel::File {
                path: path@,
                contents: contents@,
            },
        }
    }
}

/// The items of a plan, as texts.
pub open spec fn plan_models(items: Seq<PlanItem>) -> Seq<PlanModel> {
    items.map_values(|item: PlanItem| item@)
}

/// What is made of a directory of a template that lies at `relative` in it, in the directory
/// `output`: entry by entry, a directory before what it holds.
pub open spec fn planned(
    tree: TemplateTree,
    ignored: Set<Seq<char>>,
    relative: Seq<char>,
    output: Seq<char>,
) -> Seq<PlanModel>
    decreases tree, 1nat,
{
    planned_parts(tree, ignored, relative, output).flatten()
}

/// What is made of each entry of a directory.
pub open spec fn planned_parts(
    tree: TemplateTree,
    ignored: Set<Seq<char>>,
    relative: Seq<char>,
    output: Seq<char>,
) -> Seq<Seq<PlanModel>>
    decreases tree, 0nat,
{
    Seq::new(
        tree.entries@.len(),
        |i: int|
            if 0 <= i < tree.entries@.len() {
                planned_entry(tree.entries@[i], ignored, relative, output)
            } else {
                Seq::empty()
            },
    )
}

/// What is made of one entry.
pub open spec fn planned_entry(
    entry: TemplateEntry,
    ignored: Set<Seq<char>>,
    relative: Seq<char>,
    output: Seq<char>,
) -> Seq<PlanModel>
    decreases entry, 0nat,
{
    let none = Seq::<PlanModel>::empty();
    match entry {
        TemplateEntry::Dir { name, tree } => if is_left_out(ignored, relative, name@, true) {
            none
        } else {
            none.push(PlanModel::Dir { path: below(output, name@) }) + planned(
                tree,
                ignored,
                below(relative, name@),
                below(output, name@),
            )
        },
        TemplateEntry::File { name, contents } => if is_left_out(
            ignored,
            relative,
            name@,
            false,
        ) {
            none
        } else {
            none.push(
                PlanModel::File {
                    path: below(output, output_name(name@)),
                    contents: match contents {
                        Some(text) => text@,
                        None => Seq::empty(),
                    },
                },
            )
        },
    }
}

/// Plans one directory, behind the items already in `plan`.
fn plan_dir(
    tree: &TemplateTree,
    genignore: &Option<globset::GlobSet>,
    relative: &str,
    output: &str,
    plan: &mut Vec<PlanItem>,
)
    ensures
        plan_models(final(plan)@) == plan_models(old(plan)@) + planned(
            *tree,
            paths_of(*genignore),
            relative@,
            output@,
        ),
    decreases tree, 1nat,
{
    let ghost start = plan_models(plan@);
    let ghost parts = planned_parts(*tree, paths_of(*genignore), relative@, output@);
    let mut i: usize = 0;
    assert(parts.take(0).flatten() =~= Seq::<PlanModel>::empty());
    assert(plan_models(plan@) =~= start + parts.take(0).flatten());
    while i < tree.entries.len()
        invariant
            i <= tree.entries@.len(),
            parts == planned_parts(*tree, paths_of(*genignore), relative@, output@),
            plan_models(plan@) == start + parts.take(i as int).flatten(),
        decreases tree.entries.len() - i,
    {
        plan_entry(&tree.entries[i], genignore, relative, output, plan);
        proof {
            parts.take(i as int).lemma_flatten_push(parts[i as int]);
            assert(parts.take(i + 1) =~= parts.take(i as int).push(parts[i as int]));
            assert(plan_models(plan@) =~= start + parts.take(i + 1).flatten());
        }
        i += 1;
    }
    assert(parts.take(i as int) =~= parts);
}

fn plan_entry(
    entry: &TemplateEntry,
    genignore: &Option<globset::GlobSet>,
    relative: &str,
    output: &str,
    plan: &mut Vec<PlanItem>,
)
    ensures
        plan_models(final(plan)@) == plan_models(old(plan)@) + planned_entry(
            *entry,
            paths_of(*genignore),
            relative@,
            output@,
        ),
    decreases entry, 0nat,
{
    let ghost start = plan_models(plan@);
    match entry {
        TemplateEntry::Dir { name, tree } => {
            match entry_action(genignore, relative, name.as_str(), true) {
                EntryAction::Descend { relative: path } => {
                    let sub = join_below(output, name.as_str());
                    plan.push(PlanItem::Dir { path: sub.clone() });
                    assert(plan_models(plan@) =~= start.push(PlanModel::Dir { path: sub@ }));
                    plan_dir(tree, genignore, path.as_str(), sub.as_str(), plan);
                },
                _ => {},
            }
        },
        TemplateEntry::File { name, contents } => {
            match entry_action(genignore, relative, name.as_str(), false) {
                EntryAction::Expand { output: file } => {
                    let text = match contents {
                        Some(text) => text.clone(),
                        None => {
                            let none = String::new();
                            assert(none@ =~= Seq::empty());
                            none
                        },
                    };
                    let path = join_below(output, file.as_str());
                    let ghost model = PlanModel::File { path: path@, contents: text@ };
                    plan.push(PlanItem::File { path, contents: text });
                    assert(plan_models(plan@) =~= start.push(model));
                },
                _ => {},
            }
        },
    }
    assert(plan_models(plan@) =~= start + planned_entry(
        *entry,
        paths_of(*genignore),
        relative@,
        output@,
    ));
}

/// Plans the project that a template held in memory gives: the directories to make and the files to
/// write below `output`, with the texts that are still to be expanded.
pub fn plan_project(
    tree: &TemplateTree,
    genignore: &Option<globset::GlobSet>,
    output: &str,
) -> (plan: Vec<PlanItem>)
    ensures
        plan_models(plan@) == planned(*tree, paths_of(*genignore), Seq::empty(), output@),
{
    let mut plan: Vec<PlanItem> = Vec::new();
    let root = String::new();
    assert(root@ =~= Seq::empty());
    plan_dir(tree, genignore, root.as_str(), output, &mut plan);
    assert(plan_models(plan@) =~= planned(
        *tree,
        paths_of(*genignore),
        Seq::empty(),
        output@,
    ));
    plan
}

/// The directory of a project.
pub open spec fn project_dir(destination: Option<String>, name: Seq<char>) -> Seq<char> {
    below(
        match destination {
            Some(d) => d@,
            None => "."@,
        },
        name,
    )
}

impl GenerateConfig {
    /// The directory in which the project is made.
    pub fn output_dir(&self) -> (r: String)
        ensures
            r@ == project_dir(self.destination, self.name@),
    {
        match &self.destination {
            Some(d) => join_below(d.as_str(), self.name.as_str()),
            None => join_below(".", self.name.as_str()),
        }
    }
}

/// The text of the first file called `.genignore` from entry `from` on.
pub open spec fn ignore_text(entries: Seq<TemplateEntry>, from: int) -> Option<Seq<char>>
    decreases entries.len() - from,
{
    if from >= entries.len() {
        None
    } else {
        match entries[from] {
            TemplateEntry::File { name, contents } => if name@ == ".genignore"@ {
                match contents {
                    Some(text) => Some(text@),
                    None => None,
                }
            } else {
                ignore_text(entries, from + 1)
            },
            TemplateEntry::Dir { .. } => ignore_text(entries, from + 1),
        }
    }
}

/// Whether `ignored` are the paths that a template in memory keeps to itself: none where it has no
/// list of them, or the list names none; else those that match a pattern of the list. They can be
/// none where a set of the patterns can be refused, which one of simple patterns is not. Which paths
/// with a backslash they are, or which paths a list with a backslash names, depends on the machine.
pub open spec fn keeps_to_itself(tree: TemplateTree, ignored: Set<Seq<char>>) -> bool {
    match ignore_text(tree.entries@, 0) {
        Some(text) => {
            &&& ignore_lines(text).len() == 0 ==> ignored == Set::<Seq<char>>::empty()
            &&& all_simple(ignore_lines(text)) ==> forall|path: Seq<char>|
                no_backslash(path) ==> (#[trigger] ignored.contains(path) <==> any_simple_matches(
                    ignore_lines(text),
                    path,
                ))
            &&& no_backslashes(ignore_lines(text)) ==> {
                ||| ignored == Set::<Seq<char>>::empty() && can_refuse_set(ignore_patterns(text))
                ||| forall|path: Seq<char>|
                    no_backslash(path) ==> (#[trigger] ignored.contains(path) <==> any_glob_matches(
                        ignore_patterns(text),
                        path,
                    ))
            }
            &&& {
                ||| ignored == Set::<Seq<char>>::empty() && can_lack_set(ignore_lines(text))
                ||| exists|patterns: Seq<Seq<char>>| #[trigger]
                    keeps_patterns(ignore_lines(text), patterns) && can_match(patterns, ignored)
            }
        },
        None => ignored == Set::<Seq<char>>::empty(),
    }
}

/// Reads the list of the files that a template in memory keeps to itself.
pub fn load_genignore_from_embedded(tree: &TemplateTree) -> (r: Option<globset::GlobSet>)
    ensures
        keeps_to_itself(*tree, paths_of(r)),
        (match ignore_text(tree.entries@, 0) {
            Some(text) => {
                &&& r is None ==> can_lack_set(ignore_lines(text))
                &&& r is None && no_backslashes(ignore_lines(text)) ==> ignore_patterns(text).len()
                    == 0 || can_refuse_set(ignore_patterns(text))
                &&& no_backslashes(ignore_lines(text)) && r is Some ==> patterns_of(r)
                    == ignore_patterns(text)
                &&& all_simple(ignore_lines(text)) ==> (r is Some <==> ignore_lines(text).len() > 0)
                &&& all_simple(ignore_lines(text)) && r is Some ==> patterns_of(r) == ignore_lines(
                    text,
                )
            },
            None => r is None,
        }),
{
    let mut i: usize = 0;
    while i < tree.entries.len()
        invariant
            i <= tree.entries@.len(),
            ignore_text(tree.entries@, 0) == ignore_text(tree.entries@, i as int),
        decreases tree.entries.len() - i,
    {
        match &tree.entries[i] {
            TemplateEntry::File { name, contents } => {
                if text_eq(name.as_str(), ".genignore") {
                    return match contents {
                        Some(text) => build_globset(text.as_str()),
                        None => None,
                    };
                }
            },
            TemplateEntry::Dir { .. } => {},
        }
        i += 1;
    }
    None
}

/// A project ready to be written: its directory, and the directories and files below it.
#[derive(Debug)]
pub struct GeneratedProject {
    pub dir: String,
    pub items: Vec<PlanItem>,
}

/// Whether an item is the expansion of a planned one for some variables: the same directory, or the
/// same file with a text that its text can become.
pub open spec fn expands(
    item: PlanModel,
    planned: PlanModel,
    variables: Seq<(Seq<char>, Seq<char>)>,
) -> bool {
    match planned {
        PlanModel::Dir { path } => item == planned,
        PlanModel::File { path, contents } => {
            &&& item matches PlanModel::File { path: p, contents: text }
            &&& p == path
            &&& can_become(
                contents,
                global_texts(variables),
                global_texts(variables).dom(),
                hyphenated(variables),
                text,
            )
        },
    }
}

/// Whether the items are the expansion of a plan, item by item.
pub open spec fn expand_plan(
    items: Seq<PlanModel>,
    plan: Seq<PlanModel>,
    variables: Seq<(Seq<char>, Seq<char>)>,
) -> bool {
    &&& items.len() == plan.len()
    &&& forall|i: int| 0 <= i < plan.len() ==> expands(#[trigger] items[i], plan[i], variables)
}

/// Makes a project from a template in memory: expands all files that the template does not keep to
/// itself, with the variables of the project.
pub fn generate(tree: &TemplateTree, config: &GenerateConfig, parser: &liquid::Parser) -> (r:
    GeneratedProject)
    ensures
        r.dir@ == project_dir(config.destination, config.name@),
        exists|ignored: Set<Seq<char>>| #[trigger]
            keeps_to_itself(*tree, ignored) && expand_plan(
                plan_models(r.items@),
                planned(*tree, ignored, Seq::empty(), r.dir@),
                project_variables(config.name@, texts(config.define@)),
            ),
{
    let variables = variables_of_project(config.name.as_str(), &config.define);
    let names = hyphenated_names(&variables);
    let globals = build_liquid_globals(&variables);
    let dir = config.output_dir();
    let genignore = load_genignore_from_embedded(tree);
    let plan = plan_project(tree, &genignore, dir.as_str());
    let ghost models = plan_models(plan@);
    let ghost vars = project_variables(config.name@, texts(config.define@));
    let mut items: Vec<PlanItem> = Vec::new();
    let mut i: usize = 0;
    while i < plan.len()
        invariant
            i <= plan@.len(),
            models == plan_models(plan@),
            object_texts(globals) == global_texts(vars),
            scalar_names(globals) == global_texts(vars).dom(),
            texts(names@) == hyphenated(vars),
            items@.len() == i,
            forall|k: int|
                0 <= k < i ==> expands(#[trigger] plan_models(items@)[k], models[k], vars),
        decreases plan.len() - i,
    {
        let ghost before = items@;
        match &plan[i] {
            PlanItem::Dir { path } => {
                items.push(PlanItem::Dir { path: path.clone() });
            },
            PlanItem::File { path, contents } => {
                let text = expand_text(contents.as_str(), parser, &globals, &names);
                items.push(PlanItem::File { path: path.clone(), contents: text });
            },
        }
        assert(models[i as int] == plan@[i as int]@);
        assert(plan_models(items@)[i as int] == items@[i as int]@);
        assert forall|k: int| 0 <= k < i + 1 implies expands(
            #[trigger] plan_models(items@)[k],
            models[k],
            vars,
        ) by {
            if k < i {
                assert(plan_models(items@)[k] == plan_models(before)[k]);
            }
        }
        i += 1;
    }
    assert(keeps_to_itself(*tree, paths_of(genignore)));
    GeneratedProject { dir, items }
}

/// The list of what a template keeps to itself is the text of the first file called `.genignore` at its
/// root; there is none where no file is called so, or that one holds no text.
pub proof fn law_list_is_that_of_the_root(entries: Seq<TemplateEntry>, i: int)
    requires
        forall|j: int|
            0 <= j < i && j < entries.len() ==> !(#[trigger] entries[j] is File
                && entries[j]->File_name@ == ".genignore"@),
        0 <= i <= entries.len(),
        i < entries.len() ==> entries[i] is File && entries[i]->File_name@ == ".genignore"@,
    ensures
        i == entries.len() ==> ignore_text(entries, 0) is None,
        i < entries.len() ==> ignore_text(entries, 0) == opt_text(entries[i]->File_contents),
{
    lemma_ignore_text(entries, 0, i);
}

proof fn lemma_ignore_text(entries: Seq<TemplateEntry>, from: int, i: int)
    requires
        0 <= from <= i <= entries.len(),
        forall|j: int|
            0 <= j < i && j < entries.len() ==> !(#[trigger] entries[j] is File
                && entries[j]->File_name@ == ".genignore"@),
    ensures
        ignore_text(entries, from) == ignore_text(entries, i),
    decreases i - from,
{
    if from < i {
        assert(!(entries[from] is File && entries[from]->File_name@ == ".genignore"@));
        lemma_ignore_text(entries, from + 1, i);
    }
}

/// A template without a list keeps nothing to itself. One whose list is a single simple rule keeps the
/// paths to itself that the rule leaves out, and no others: here a path, and a text with a star
/// before it.
pub proof fn law_template_keeps_what_its_list_says(
    tree: TemplateTree,
    ignored: Set<Seq<char>>,
    rule: Seq<char>,
    path: Seq<char>,
)
    requires
        keeps_to_itself(tree, ignored),
        is_literal(rule) && !is_space(rule[0]) && !is_space(rule.last()) && rule[0] != '#',
        !rule.contains('\n'),
        rule != seq!['.'] && rule != seq!['/'],
        no_backslash(path),
    ensures
        ignore_text(tree.entries@, 0) is None ==> !ignored.contains(path),
        ignore_text(tree.entries@, 0) == Some(rule + seq!['\n']) ==> (ignored.contains(path) <==> path
            == rule),
        ignore_text(tree.entries@, 0) == Some(seq!['*'] + rule + seq!['\n']) ==> (ignored.contains(path)
            <==> path.len() >= rule.len() && path.skip(path.len() - rule.len()) == rule),
{
    let none = Seq::<char>::empty();
    law_list_is_read_line_by_line(none, rule, none, none);
    assert(none + rule + none + seq!['\n'] + none =~= rule + seq!['\n']);
    let star = seq!['*'] + rule;
    assert(star[0] == '*' && star.last() == rule.last());
    assert(star.skip(1) =~= rule);
    assert(!star.contains('\n')) by {
        if star.contains('\n') {
            let i = choose|i: int| 0 <= i < star.len() && star[i] == '\n';
            assert(rule[i - 1] == '\n');
        }
    }
    law_list_is_read_line_by_line(none, star, none, none);
    assert(none + star + none + seq!['\n'] + none =~= seq!['*'] + rule + seq!['\n']);
    assert(ignore_lines(none) =~= Seq::<Seq<char>>::empty());
    assert(seq![rule] + ignore_lines(none) =~= seq![rule]);
    assert(seq![star] + ignore_lines(none) =~= seq![star]);
    if ignore_text(tree.entries@, 0) == Some(rule + seq!['\n']) {
        let lines = seq![rule];
        assert(lines[0] == rule);
        assert(all_simple(lines));
        assert(any_simple_matches(lines, path) <==> simple_matches(rule, path)) by {
            if simple_matches(rule, path) {
                assert(simple_matches(lines[0], path));
            }
        }
        law_what_a_simple_pattern_leaves_out(rule, none, path);
    }
    if ignore_text(tree.entries@, 0) == Some(seq!['*'] + rule + seq!['\n']) {
        let lines = seq![star];
        assert(lines[0] == star);
        assert(is_ending(star));
        assert(all_simple(lines));
        assert(any_simple_matches(lines, path) <==> simple_matches(star, path)) by {
            if simple_matches(star, path) {
                assert(simple_matches(lines[0], path));
            }
        }
        law_what_a_simple_pattern_leaves_out(rule, none, path);
        if path.len() >= rule.len() && path.skip(path.len() - rule.len()) == rule {
            let more = path.take(path.len() - rule.len());
            assert(path =~= more + rule);
            law_what_a_simple_pattern_leaves_out(rule, more, path);
        }
    }
}

/// The items of a plan are read one by one.
pub proof fn law_plan_is_read_item_by_item(items: Seq<PlanItem>)
    ensures
        plan_models(items).len() == items.len(),
        forall|i: int| 0 <= i < items.len() ==> #[trigger] plan_models(items)[i] == items[i]@,
{
}

} // verus!
