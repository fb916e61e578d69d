//! Which directories and files a project has.
use vstd::prelude::*;

use crate::generate::expand::{can_become, global_texts, output_name};
use crate::generate::project::{
    expand_plan, expands, is_left_out, planned, planned_entry, planned_parts,
    project_dir, PlanModel, TemplateEntry, TemplateTree,
};
use crate::generate::variables::hyphenated;
use crate::path::below;
use crate::text::{has_suffix, lemma_filter_from};

verus! {

/// Whether a text can be the name of an entry of a directory.
pub open spec fn is_plain_name(name: Seq<char>) -> bool {
    name.len() > 0 && !name.contains('/')
}

/// Whether all entries of a template have names that entries of a directory can have.
pub open spec fn has_plain_names(tree: TemplateTree) -> bool
    decreases tree,
{
    forall|i: int| 0 <= i < tree.entries@.len() ==> entry_is_plain(#[trigger] tree.entries@[i])
}

pub open spec fn entry_is_plain(entry: TemplateEntry) -> bool
    decreases entry,
{
    match entry {
        TemplateEntry::Dir { name, tree } => is_plain_name(name@) && has_plain_names(tree),
        TemplateEntry::File { name, .. } => is_plain_name(name@),
    }
}

/// The path that some names make, one below the other.
pub open spec fn joined(names: Seq<Seq<char>>) -> Seq<char>
    decreases names.len(),
{
    if names.len() == 0 {
        Seq::empty()
    } else if names.len() == 1 {
        names[0]
    } else {
        joined(names.drop_last()) + seq!['/'] + names.last()
    }
}

/// The name of an entry.
pub open spec fn entry_name(entry: TemplateEntry) -> Seq<char> {
    match entry {
        TemplateEntry::Dir { name, .. } => name@,
        TemplateEntry::File { name, .. } => name@,
    }
}

/// Whether an entry is a directory with the name given.
pub open spec fn is_dir_called(entry: TemplateEntry, name: Seq<char>) -> bool {
    entry is Dir && entry_name(entry) == name
}

/// What a directory holds.
pub open spec fn subtree(entry: TemplateEntry) -> TemplateTree {
    entry->Dir_tree
}

/// Whether a template has an entry in the directory to which the names `dirs` lead from its root.
pub open spec fn has_entry(tree: TemplateTree, dirs: Seq<Seq<char>>, entry: TemplateEntry) -> bool
    decreases dirs.len(),
{
    if dirs.len() == 0 {
        tree.entries@.contains(entry)
    } else {
        exists|i: int|
            0 <= i < tree.entries@.len() && is_dir_called(#[trigger] tree.entries@[i], dirs[0])
                && has_entry(subtree(tree.entries@[i]), dirs.skip(1), entry)
    }
}

/// Whether an entry becomes a part of the project: it is not one of the two files that only steer the
/// expansion, and neither its own path in the template nor that of a directory on the way to it is
/// one that the template keeps to itself.
pub open spec fn is_kept(
    ignored: Set<Seq<char>>,
    dirs: Seq<Seq<char>>,
    entry: TemplateEntry,
) -> bool {
    &&& entry is File ==> entry_name(entry) != "cargo-generate.toml"@ && entry_name(entry)
        != ".genignore"@
    &&& forall|k: int|
        0 < k <= dirs.len() ==> !ignored.contains(joined(#[trigger] dirs.take(k)))
    &&& !ignored.contains(joined(dirs.push(entry_name(entry))))
}

/// What is made of an entry below the directory `output` of the project.
pub open spec fn made_of(
    output: Seq<char>,
    dirs: Seq<Seq<char>>,
    entry: TemplateEntry,
) -> PlanModel {
    match entry {
        TemplateEntry::Dir { name, .. } => PlanModel::Dir {
            path: output + seq!['/'] + joined(dirs.push(name@)),
        },
        TemplateEntry::File { name, contents } => PlanModel::File {
            path: output + seq!['/'] + joined(dirs.push(output_name(name@))),
            contents: match contents {
                Some(text) => text@,
                None => Seq::empty(),
            },
        },
    }
}

/// The first `n` entries of a directory, each with what it holds behind it, and with the names of the
/// directories on the way: `dirs` are those on the way to the directory.
pub open spec fn walk_up_to(tree: TemplateTree, dirs: Seq<Seq<char>>, n: nat) -> Seq<
    (Seq<Seq<char>>, TemplateEntry),
>
    decreases tree, n,
{
    if n == 0 || n > tree.entries@.len() {
        Seq::empty()
    } else {
        let entry = tree.entries@[n - 1];
        walk_up_to(tree, dirs, (n - 1) as nat) + seq![(dirs, entry)] + (match entry {
            TemplateEntry::Dir { name, tree: sub } => walk_up_to(
                sub,
                dirs.push(name@),
                sub.entries@.len(),
            ),
            TemplateEntry::File { .. } => Seq::empty(),
        })
    }
}

/// All entries of a template with the names of the directories on the way to them, each directory
/// before what it holds.
pub open spec fn walk(tree: TemplateTree) -> Seq<(Seq<Seq<char>>, TemplateEntry)> {
    walk_up_to(tree, Seq::empty(), tree.entries@.len())
}

/// What an entry holds, with the names on the way.
spec fn inside(entry: TemplateEntry, dirs: Seq<Seq<char>>) -> Seq<
    (Seq<Seq<char>>, TemplateEntry),
> {
    match entry {
        TemplateEntry::Dir { name, tree } => walk_up_to(
            tree,
            dirs.push(name@),
            tree.entries@.len(),
        ),
        TemplateEntry::File { .. } => Seq::empty(),
    }
}

/// The path of a directory of the project.
spec fn output_at(output: Seq<char>, dirs: Seq<Seq<char>>) -> Seq<char> {
    if dirs.len() == 0 {
        output
    } else {
        output + seq!['/'] + joined(dirs)
    }
}

spec fn all_plain(dirs: Seq<Seq<char>>) -> bool {
    forall|i: int| 0 <= i < dirs.len() ==> is_plain_name(#[trigger] dirs[i])
}

/// A path of plain names does not end with a slash.
proof fn lemma_joined_end(dirs: Seq<Seq<char>>)
    requires
        all_plain(dirs),
        dirs.len() > 0,
    ensures
        joined(dirs).len() > 0,
        joined(dirs).last() != '/',
{
    let last = dirs[dirs.len() - 1];
    assert(is_plain_name(last));
    assert(last[last.len() - 1] != '/') by {
        if last[last.len() - 1] == '/' {
            assert(last.contains('/'));
        }
    }
    assert(joined(dirs).last() == last.last());
}

/// One more name on a path.
proof fn lemma_below(
    output: Seq<char>,
    dirs: Seq<Seq<char>>,
    name: Seq<char>,
)
    requires
        all_plain(dirs),
        !name.contains('/'),
        output.len() > 0,
        output.last() != '/',
    ensures
        is_plain_name(name) ==> below(joined(dirs), name) == joined(dirs.push(name)),
        below(output_at(output, dirs), name) == output + seq!['/'] + joined(dirs.push(name)),
{
    reveal_strlit("/");
    assert("/"@ =~= seq!['/']);
    if name.len() > 0 && name[0] == '/' {
        assert(name.contains('/'));
    }
    let more = dirs.push(name);
    assert(more.drop_last() =~= dirs);
    if dirs.len() > 0 {
        lemma_joined_end(dirs);
        assert(output_at(output, dirs).last() == joined(dirs).last());
        assert(output + seq!['/'] + joined(dirs) + seq!['/'] + name =~= output + seq!['/'] + (joined(
            dirs,
        ) + seq!['/'] + name));
    } else {
        assert(joined(dirs) + name =~= name);
    }
}

/// A name without a slash has none when its extension is taken off.
proof fn lemma_output_name_is_plain(name: Seq<char>)
    requires
        !name.contains('/'),
    ensures
        !output_name(name).contains('/'),
{
    reveal_strlit(".liquid");
    let out = output_name(name);
    if out.contains('/') {
        let i = choose|i: int| 0 <= i < out.len() && out[i] == '/';
        assert(name[i] == '/');
    }
}

spec fn kept_of(ignored: Set<Seq<char>>) -> spec_fn((Seq<Seq<char>>, TemplateEntry)) -> bool {
    |n: (Seq<Seq<char>>, TemplateEntry)| is_kept(ignored, n.0, n.1)
}

spec fn model_of(output: Seq<char>) -> spec_fn((Seq<Seq<char>>, TemplateEntry)) -> PlanModel {
    |n: (Seq<Seq<char>>, TemplateEntry)| made_of(output, n.0, n.1)
}

/// Whether neither a directory nor one on the way to it is kept back.
spec fn way_is_free(ignored: Set<Seq<char>>, dirs: Seq<Seq<char>>) -> bool {
    forall|k: int| 0 < k <= dirs.len() ==> !ignored.contains(joined(#[trigger] dirs.take(k)))
}

/// What is made of those entries of a list that are kept.
#[verifier::opaque]
spec fn kept_models(
    list: Seq<(Seq<Seq<char>>, TemplateEntry)>,
    ignored: Set<Seq<char>>,
    output: Seq<char>,
) -> Seq<PlanModel> {
    list.filter(kept_of(ignored)).map_values(model_of(output))
}

proof fn lemma_kept_models_add(
    a: Seq<(Seq<Seq<char>>, TemplateEntry)>,
    b: Seq<(Seq<Seq<char>>, TemplateEntry)>,
    ignored: Set<Seq<char>>,
    output: Seq<char>,
)
    ensures
        kept_models(a + b, ignored, output) == kept_models(a, ignored, output) + kept_models(
            b,
            ignored,
            output,
        ),
{
    reveal(kept_models);
    let pred = kept_of(ignored);
    let model = model_of(output);
    Seq::filter_distributes_over_add(a, b, pred);
    assert((a.filter(pred) + b.filter(pred)).map_values(model) =~= a.filter(pred).map_values(model)
        + b.filter(pred).map_values(model));
}

proof fn lemma_kept_models_one(
    dirs: Seq<Seq<char>>,
    entry: TemplateEntry,
    ignored: Set<Seq<char>>,
    output: Seq<char>,
)
    ensures
        kept_models(seq![(dirs, entry)], ignored, output) == if is_kept(ignored, dirs, entry) {
            seq![made_of(output, dirs, entry)]
        } else {
            Seq::empty()
        },
{
    reveal(kept_models);
    let pred = kept_of(ignored);
    let one = seq![(dirs, entry)];
    assert(one.drop_last() =~= Seq::empty());
    assert(one.filter(pred) =~= if pred((dirs, entry)) {
        one
    } else {
        Seq::empty()
    }) by {
        reveal_with_fuel(Seq::filter, 2);
    }
    assert(one.filter(pred).map_values(model_of(output)) =~= if is_kept(ignored, dirs, entry) {
        seq![made_of(output, dirs, entry)]
    } else {
        Seq::empty()
    });
}

proof fn lemma_kept_models_none(ignored: Set<Seq<char>>, output: Seq<char>)
    ensures
        kept_models(Seq::empty(), ignored, output) == Seq::<PlanModel>::empty(),
{
    reveal(kept_models);
    reveal(Seq::filter);
    let none = Seq::<(Seq<Seq<char>>, TemplateEntry)>::empty();
    assert(none.filter(kept_of(ignored)).map_values(model_of(output)) =~= Seq::empty());
}

/// All entries that a walk finds lie below where it starts.
proof fn lemma_walk_is_below(tree: TemplateTree, dirs: Seq<Seq<char>>, n: nat, i: int)
    requires
        n <= tree.entries@.len(),
        0 <= i < walk_up_to(tree, dirs, n).len(),
    ensures
        walk_up_to(tree, dirs, n)[i].0.len() >= dirs.len(),
        walk_up_to(tree, dirs, n)[i].0.take(dirs.len() as int) == dirs,
    decreases tree, n,
{
    let before = walk_up_to(tree, dirs, (n - 1) as nat);
    let entry = tree.entries@[n - 1];
    let rest = inside(entry, dirs);
    assert(walk_up_to(tree, dirs, n) == before + seq![(dirs, entry)] + rest);
    if i < before.len() {
        lemma_walk_is_below(tree, dirs, (n - 1) as nat, i);
    } else if i == before.len() {
        assert(dirs.take(dirs.len() as int) =~= dirs);
    } else {
        let k = i - before.len() - 1;
        match entry {
            TemplateEntry::Dir { name, tree: sub } => {
                let deeper = dirs.push(name@);
                lemma_walk_is_below(sub, deeper, sub.entries@.len(), k);
                let found = rest[k].0;
                assert(found.take(dirs.len() as int) =~= found.take(deeper.len() as int).take(
                    dirs.len() as int,
                ));
                assert(deeper.take(dirs.len() as int) =~= dirs);
            },
            TemplateEntry::File { .. } => {},
        }
    }
}

/// Nothing in a directory that is kept back is kept.
proof fn lemma_nothing_kept(
    tree: TemplateTree,
    ignored: Set<Seq<char>>,
    dirs: Seq<Seq<char>>,
    output: Seq<char>,
)
    requires
        !way_is_free(ignored, dirs),
    ensures
        kept_models(walk_up_to(tree, dirs, tree.entries@.len()), ignored, output) == Seq::<
            PlanModel,
        >::empty(),
{
    let all = walk_up_to(tree, dirs, tree.entries@.len());
    let pred = kept_of(ignored);
    let k = choose|k: int| 0 < k <= dirs.len() && ignored.contains(joined(#[trigger] dirs.take(k)));
    assert forall|i: int| 0 <= i < all.len() implies !pred(#[trigger] all[i]) by {
        lemma_walk_is_below(tree, dirs, tree.entries@.len(), i);
        assert(all[i].0.take(k) =~= all[i].0.take(dirs.len() as int).take(k));
        assert(ignored.contains(joined(all[i].0.take(k))));
    }
    lemma_filter_none(all, pred);
    reveal(kept_models);
    assert(all.filter(pred).map_values(model_of(output)) =~= Seq::empty());
}

proof fn lemma_filter_none<A>(s: Seq<A>, pred: spec_fn(A) -> bool)
    requires
        forall|i: int| 0 <= i < s.len() ==> !pred(#[trigger] s[i]),
    ensures
        s.filter(pred).len() == 0,
    decreases s.len(),
{
    reveal(Seq::filter);
    if s.len() > 0 {
        let front = s.drop_last();
        assert forall|i: int| 0 <= i < front.len() implies !pred(#[trigger] front[i]) by {
            assert(front[i] == s[i]);
        }
        lemma_filter_none(front, pred);
        assert(!pred(s[s.len() - 1]));
    }
}

/// What is planned for the first `n` entries of a directory is made of those that are kept.
proof fn lemma_plan_of_dir(
    tree: TemplateTree,
    ignored: Set<Seq<char>>,
    dirs: Seq<Seq<char>>,
    output: Seq<char>,
    n: nat,
)
    requires
        has_plain_names(tree),
        all_plain(dirs),
        way_is_free(ignored, dirs),
        output.len() > 0,
        output.last() != '/',
        n <= tree.entries@.len(),
    ensures
        planned_parts(tree, ignored, joined(dirs), output_at(output, dirs)).take(
            n as int,
        ).flatten() == kept_models(walk_up_to(tree, dirs, n), ignored, output),
    decreases tree, n, 1nat,
{
    let parts = planned_parts(tree, ignored, joined(dirs), output_at(output, dirs));
    if n == 0 {
        assert(parts.take(0).flatten() =~= Seq::empty());
        lemma_kept_models_none(ignored, output);
    } else {
        let m = (n - 1) as nat;
        let entry = tree.entries@[m as int];
        let before = walk_up_to(tree, dirs, m);
        let own = seq![(dirs, entry)];
        let rest = inside(entry, dirs);
        assert(walk_up_to(tree, dirs, n) == before + own + rest);
        lemma_plan_of_dir(tree, ignored, dirs, output, m);
        assert(entry_is_plain(entry));
        match entry {
            TemplateEntry::Dir { name, tree: sub } => {
                lemma_plan_of_subdir(entry, ignored, dirs, output);
            },
            TemplateEntry::File { .. } => {
                lemma_plan_of_file(entry, ignored, dirs, output);
            },
        }
        parts.take(m as int).lemma_flatten_push(parts[m as int]);
        assert(parts.take(n as int) =~= parts.take(m as int).push(parts[m as int]));
        lemma_kept_models_add(before, own + rest, ignored, output);
        assert(before + own + rest =~= before + (own + rest));
    }
}

proof fn lemma_plan_of_file(
    entry: TemplateEntry,
    ignored: Set<Seq<char>>,
    dirs: Seq<Seq<char>>,
    output: Seq<char>,
)
    requires
        entry is File,
        entry_is_plain(entry),
        all_plain(dirs),
        way_is_free(ignored, dirs),
        output.len() > 0,
        output.last() != '/',
    ensures
        planned_entry(entry, ignored, joined(dirs), output_at(output, dirs)) == kept_models(
            seq![(dirs, entry)] + inside(entry, dirs),
            ignored,
            output,
        ),
{
    let name = entry_name(entry);
    lemma_below(output, dirs, name);
    lemma_output_name_is_plain(name);
    lemma_below(output, dirs, output_name(name));
    lemma_kept_models_one(dirs, entry, ignored, output);
    assert(seq![(dirs, entry)] + inside(entry, dirs) =~= seq![(dirs, entry)]);
    assert(is_kept(ignored, dirs, entry) <==> !is_left_out(ignored, joined(dirs), name, false));
    assert(planned_entry(entry, ignored, joined(dirs), output_at(output, dirs)) =~= if is_kept(
        ignored,
        dirs,
        entry,
    ) {
        seq![made_of(output, dirs, entry)]
    } else {
        Seq::empty()
    });
}

proof fn lemma_plan_of_subdir(
    entry: TemplateEntry,
    ignored: Set<Seq<char>>,
    dirs: Seq<Seq<char>>,
    output: Seq<char>,
)
    requires
        entry is Dir,
        entry_is_plain(entry),
        all_plain(dirs),
        way_is_free(ignored, dirs),
        output.len() > 0,
        output.last() != '/',
    ensures
        planned_entry(entry, ignored, joined(dirs), output_at(output, dirs)) == kept_models(
            seq![(dirs, entry)] + inside(entry, dirs),
            ignored,
            output,
        ),
    decreases entry, 0nat, 0nat,
{
    if let TemplateEntry::Dir { name, tree } = entry {
        let deeper = dirs.push(name@);
        let own = seq![(dirs, entry)];
        let rest = inside(entry, dirs);
        lemma_below(output, dirs, name@);
        assert forall|i: int| 0 <= i < deeper.len() implies is_plain_name(#[trigger] deeper[i]) by {
            if i < dirs.len() {
                assert(is_plain_name(dirs[i]));
            }
        }
        lemma_kept_models_add(own, rest, ignored, output);
        lemma_kept_models_one(dirs, entry, ignored, output);
        assert(is_kept(ignored, dirs, entry) <==> !ignored.contains(joined(deeper)));
        if ignored.contains(joined(deeper)) {
            assert(deeper.take(deeper.len() as int) =~= deeper);
            assert(!way_is_free(ignored, deeper));
            lemma_nothing_kept(tree, ignored, deeper, output);
            assert(Seq::<PlanModel>::empty() + Seq::<PlanModel>::empty() =~= Seq::empty());
        } else {
            assert forall|k: int| 0 < k <= deeper.len() implies !ignored.contains(
                joined(#[trigger] deeper.take(k)),
            ) by {
                if k <= dirs.len() {
                    assert(deeper.take(k) =~= dirs.take(k));
                } else {
                    assert(deeper.take(k) =~= deeper);
                }
            }
            assert(output_at(output, deeper) == below(output_at(output, dirs), name@));
            lemma_plan_of_dir(tree, ignored, deeper, output, tree.entries@.len());
            let parts = planned_parts(tree, ignored, joined(deeper), output_at(output, deeper));
            assert(parts.take(tree.entries@.len() as int) =~= parts);
            assert(planned(tree, ignored, joined(deeper), output_at(output, deeper))
                == kept_models(rest, ignored, output));
            assert(seq![made_of(output, dirs, entry)] =~= Seq::empty().push(
                made_of(output, dirs, entry),
            ));
        }
    }
}

/// The plan of a project is made of exactly those entries of its template that are kept, each once and
/// each directory before what it holds, however deep they lie: the paths that are held against
/// those kept back, and the paths that are written, have all directories on the way in them.
pub proof fn law_plan_is_made_of_kept_entries(
    tree: TemplateTree,
    ignored: Set<Seq<char>>,
    output: Seq<char>,
)
    requires
        has_plain_names(tree),
        output.len() > 0,
        output.last() != '/',
    ensures
        planned(tree, ignored, Seq::empty(), output) == walk(tree).filter(
            |n: (Seq<Seq<char>>, TemplateEntry)| is_kept(ignored, n.0, n.1),
        ).map_values(|n: (Seq<Seq<char>>, TemplateEntry)| made_of(output, n.0, n.1)),
{
    let root = Seq::<Seq<char>>::empty();
    assert(joined(root) =~= Seq::empty());
    lemma_plan_of_dir(tree, ignored, root, output, tree.entries@.len());
    let parts = planned_parts(tree, ignored, Seq::empty(), output);
    assert(parts.take(tree.entries@.len() as int) =~= parts);
    reveal(kept_models);
}

/// What a walk finds are entries of the template, with the names that lead to them.
proof fn lemma_walk_sound(tree: TemplateTree, start: Seq<Seq<char>>, n: nat, i: int)
    requires
        n <= tree.entries@.len(),
        0 <= i < walk_up_to(tree, start, n).len(),
    ensures
        exists|way: Seq<Seq<char>>|
            walk_up_to(tree, start, n)[i].0 == start + way && #[trigger] has_entry(
                tree,
                way,
                walk_up_to(tree, start, n)[i].1,
            ),
    decreases tree, n,
{
    let before = walk_up_to(tree, start, (n - 1) as nat);
    let entry = tree.entries@[n - 1];
    let rest = inside(entry, start);
    let none = Seq::<Seq<char>>::empty();
    let all = walk_up_to(tree, start, n);
    assert(all == before + seq![(start, entry)] + rest);
    if i < before.len() {
        lemma_walk_sound(tree, start, (n - 1) as nat, i);
        assert(all[i] == before[i]);
        let way = choose|way: Seq<Seq<char>>|
            before[i].0 == start + way && #[trigger] has_entry(tree, way, before[i].1);
        assert(has_entry(tree, way, all[i].1));
    } else if i == before.len() {
        assert(all[i] == (start, entry));
        assert(start + none =~= start);
        assert(tree.entries@.contains(entry));
        assert(all[i].1 == entry && all[i].0 == start + none);
        assert(has_entry(tree, none, all[i].1));
    } else {
        let k = i - before.len() - 1;
        match entry {
            TemplateEntry::Dir { name, tree: sub } => {
                let deeper = start.push(name@);
                lemma_walk_sound(sub, deeper, sub.entries@.len(), k);
                let found = rest[k];
                let more = choose|way: Seq<Seq<char>>|
                    found.0 == deeper + way && #[trigger] has_entry(sub, way, found.1);
                let way = seq![name@] + more;
                assert(way.skip(1) =~= more);
                assert(start + way =~= deeper + more);
                assert(is_dir_called(tree.entries@[n - 1], way[0]));
                assert(has_entry(subtree(tree.entries@[n - 1]), way.skip(1), found.1));
                assert(has_entry(tree, way, found.1));
                assert(all[i] == found);
                assert(all[i].0 == start + way && has_entry(tree, way, all[i].1));
            },
            TemplateEntry::File { .. } => {
                assert(rest.len() == 0);
                assert(all.len() == before.len() + 1 + rest.len());
            },
        }
    }
}

/// What stands at place `k` of a directory, and what it holds, is found by a walk.
proof fn lemma_walk_has_part(
    tree: TemplateTree,
    start: Seq<Seq<char>>,
    n: nat,
    k: int,
    x: (Seq<Seq<char>>, TemplateEntry),
)
    requires
        0 <= k < n <= tree.entries@.len(),
        x == (start, tree.entries@[k]) || inside(tree.entries@[k], start).contains(x),
    ensures
        walk_up_to(tree, start, n).contains(x),
    decreases n,
{
    let before = walk_up_to(tree, start, (n - 1) as nat);
    let entry = tree.entries@[n - 1];
    let rest = inside(entry, start);
    let all = walk_up_to(tree, start, n);
    assert(all == before + seq![(start, entry)] + rest);
    if k == n - 1 {
        if x == (start, entry) {
            assert(all[before.len() as int] == x);
        } else {
            let j = choose|j: int| 0 <= j < rest.len() && rest[j] == x;
            assert(all[before.len() + 1 + j] == x);
        }
    } else {
        lemma_walk_has_part(tree, start, (n - 1) as nat, k, x);
        let i = choose|i: int| 0 <= i < before.len() && before[i] == x;
        assert(all[i] == x);
    }
}

/// Each entry of the template is found by a walk.
proof fn lemma_walk_complete(
    tree: TemplateTree,
    start: Seq<Seq<char>>,
    dirs: Seq<Seq<char>>,
    entry: TemplateEntry,
)
    requires
        has_entry(tree, dirs, entry),
    ensures
        walk_up_to(tree, start, tree.entries@.len()).contains((start + dirs, entry)),
    decreases dirs.len(),
{
    if dirs.len() == 0 {
        let k = choose|k: int| 0 <= k < tree.entries@.len() && tree.entries@[k] == entry;
        assert(start + dirs =~= start);
        lemma_walk_has_part(tree, start, tree.entries@.len(), k, (start, entry));
    } else {
        let k = choose|k: int|
            0 <= k < tree.entries@.len() && is_dir_called(#[trigger] tree.entries@[k], dirs[0])
                && has_entry(subtree(tree.entries@[k]), dirs.skip(1), entry);
        let dir = tree.entries@[k];
        let deeper = start.push(dirs[0]);
        lemma_walk_complete(subtree(dir), deeper, dirs.skip(1), entry);
        assert(deeper + dirs.skip(1) =~= start + dirs);
        assert(inside(dir, start) == walk_up_to(
            subtree(dir),
            deeper,
            subtree(dir).entries@.len(),
        ));
        lemma_walk_has_part(tree, start, tree.entries@.len(), k, (start + dirs, entry));
    }
}

/// An item is in the plan of a project exactly where it is made of an entry of the template that is
/// kept. An entry is given by the names of the directories on the way to it, however many, and it is
/// kept where it is no file that only steers the expansion, and neither its full path nor that of
/// any directory on the way is kept back.
pub proof fn law_item_is_planned_iff_its_entry_is_kept(
    tree: TemplateTree,
    ignored: Set<Seq<char>>,
    output: Seq<char>,
    item: PlanModel,
)
    requires
        has_plain_names(tree),
        output.len() > 0,
        output.last() != '/',
    ensures
        planned(tree, ignored, Seq::empty(), output).contains(item) <==> exists|
            dirs: Seq<Seq<char>>,
            entry: TemplateEntry,
        |
            #[trigger] has_entry(tree, dirs, entry) && is_kept(ignored, dirs, entry) && item
                == made_of(output, dirs, entry),
{
    let root = Seq::<Seq<char>>::empty();
    law_plan_is_made_of_kept_entries(tree, ignored, output);
    let all = walk(tree);
    let pred = |n: (Seq<Seq<char>>, TemplateEntry)| is_kept(ignored, n.0, n.1);
    let model = |n: (Seq<Seq<char>>, TemplateEntry)| made_of(output, n.0, n.1);
    let plan = planned(tree, ignored, Seq::empty(), output);
    let kept = all.filter(pred);
    if plan.contains(item) {
        let i = choose|i: int| 0 <= i < plan.len() && plan[i] == item;
        lemma_filter_from(all, pred, i);
        let (dirs, entry) = kept[i];
        let k = choose|k: int| 0 <= k < all.len() && all[k] == kept[i];
        lemma_walk_sound(tree, root, tree.entries@.len(), k);
        let way = choose|way: Seq<Seq<char>>|
            all[k].0 == root + way && #[trigger] has_entry(tree, way, all[k].1);
        assert(root + way =~= way);
        assert(has_entry(tree, dirs, entry));
    }
    if exists|dirs: Seq<Seq<char>>, entry: TemplateEntry|
        #[trigger] has_entry(tree, dirs, entry) && is_kept(ignored, dirs, entry) && item == made_of(
            output,
            dirs,
            entry,
        ) {
        let (dirs, entry) = choose|dirs: Seq<Seq<char>>, entry: TemplateEntry|
            #[trigger] has_entry(tree, dirs, entry) && is_kept(ignored, dirs, entry) && item
                == made_of(output, dirs, entry);
        assert(root + dirs =~= dirs);
        lemma_walk_complete(tree, root, dirs, entry);
        let k = choose|k: int| 0 <= k < all.len() && all[k] == (dirs, entry);
        all.lemma_filter_contains(pred, k);
        let j = choose|j: int| 0 <= j < kept.len() && kept[j] == (dirs, entry);
        assert(plan[j] == item);
    }
}

/// A file of a template is among those planned exactly where it is kept, if no other entry of the
/// template is written under the same path: it is no control file, and neither its full path nor
/// that of any directory on the way is kept back.
pub proof fn law_file_is_planned_iff_it_is_kept(
    tree: TemplateTree,
    ignored: Set<Seq<char>>,
    output: Seq<char>,
    dirs: Seq<Seq<char>>,
    name: String,
    contents: Option<String>,
)
    requires
        has_plain_names(tree),
        output.len() > 0,
        output.last() != '/',
        has_entry(tree, dirs, (TemplateEntry::File { name, contents })),
        forall|d: Seq<Seq<char>>, e: TemplateEntry| #[trigger]
            has_entry(tree, d, e) && made_of(output, d, e) == made_of(
                output,
                dirs,
                (TemplateEntry::File { name, contents }),
            ) ==> d == dirs && entry_name(e) == name@,
    ensures
        planned(tree, ignored, Seq::empty(), output).contains(
            made_of(output, dirs, (TemplateEntry::File { name, contents })),
        ) <==> {
            &&& name@ != "cargo-generate.toml"@ && name@ != ".genignore"@
            &&& !ignored.contains(joined(dirs.push(name@)))
            &&& forall|k: int|
                0 < k <= dirs.len() ==> !ignored.contains(joined(#[trigger] dirs.take(k)))
        },
{
    let entry = TemplateEntry::File { name, contents };
    let item = made_of(output, dirs, entry);
    law_item_is_planned_iff_its_entry_is_kept(tree, ignored, output, item);
    if planned(tree, ignored, Seq::empty(), output).contains(item) {
        let (d, e) = choose|d: Seq<Seq<char>>, e: TemplateEntry|
            #[trigger] has_entry(tree, d, e) && is_kept(ignored, d, e) && item == made_of(
                output,
                d,
                e,
            );
        assert(has_entry(tree, d, e) && made_of(output, d, e) == item);
        assert(d == dirs && entry_name(e) == name@);
        assert(e is File);
    } else {
        assert(!is_kept(ignored, dirs, entry));
    }
}

/// A file is written under its name without the extension `.liquid`, and under its name where it has
/// no such extension.
pub proof fn law_extension_is_taken_off(stem: Seq<char>)
    ensures
        output_name(stem + ".liquid"@) == stem,
        (forall|s: Seq<char>| stem != #[trigger] (s + ".liquid"@)) ==> output_name(stem) == stem,
{
    reveal_strlit(".liquid");
    let name = stem + ".liquid"@;
    assert(name.subrange(stem.len() as int, name.len() as int) =~= ".liquid"@);
    assert(output_name(name) =~= stem);
    if has_suffix(stem, ".liquid"@) {
        let s = stem.take(stem.len() - 7);
        assert(stem =~= s + ".liquid"@);
    }
}

/// The directory of a project lies below its destination, or below the current directory where none
/// is given, and has the name of the project.
pub proof fn law_project_lies_below_its_destination(destination: Option<String>, name: Seq<char>)
    requires
        is_plain_name(name),
        destination matches Some(d) ==> d@.len() > 0 && d@.last() != '/',
    ensures
        project_dir(destination, name) == (match destination {
            Some(d) => d@,
            None => "."@,
        }) + seq!['/'] + name,
        project_dir(destination, name).last() != '/',
{
    reveal_strlit(".");
    reveal_strlit("/");
    assert("/"@ =~= seq!['/']);
    if name[0] == '/' || name.last() == '/' {
        assert(name.contains('/'));
    }
}

/// In a project that was made from a template, each file that is kept stands under its path, with a
/// text that its text can become with the variables of the project; and each directory that is kept
/// stands there too.
pub proof fn law_kept_entry_is_in_the_project(
    tree: TemplateTree,
    ignored: Set<Seq<char>>,
    output: Seq<char>,
    items: Seq<PlanModel>,
    variables: Seq<(Seq<char>, Seq<char>)>,
    dirs: Seq<Seq<char>>,
    entry: TemplateEntry,
)
    requires
        has_plain_names(tree),
        output.len() > 0,
        output.last() != '/',
        expand_plan(items, planned(tree, ignored, Seq::empty(), output), variables),
        has_entry(tree, dirs, entry),
        is_kept(ignored, dirs, entry),
    ensures
        exists|i: int|
            0 <= i < items.len() && (match made_of(output, dirs, entry) {
                PlanModel::Dir { path } => #[trigger] items[i] == (PlanModel::Dir { path }),
                PlanModel::File { path, contents } => {
                    &&& items[i] matches PlanModel::File { path: p, contents: text }
                    &&& p == path
                    &&& can_become(
                        contents,
                        global_texts(variables),
                        global_texts(variables).dom(),
                        hyphenated(variables),
                        text,
                    )
                },
            }),
{
    let item = made_of(output, dirs, entry);
    let plan = planned(tree, ignored, Seq::empty(), output);
    law_item_is_planned_iff_its_entry_is_kept(tree, ignored, output, item);
    let i = choose|i: int| 0 <= i < plan.len() && plan[i] == item;
    assert(expands(items[i], plan[i], variables));
}

} // verus!
