//! The runnable items of each kind of source, as the browser lists them,
//! and the display names of their categories.
use crate::script::annotations::{clone_opt, opt_view};
use crate::script::bazel_parser::BazelTarget;
use crate::script::cargo_parser::{CargoTarget, CargoTargetType};
use crate::script::gradle_parser::GradleTask;
use crate::script::devbox_parser::DevboxScript;
use crate::script::discovery::{file_views, ScriptFile, ScriptFileView, ScriptType};
use crate::script::items::AnnotatedTarget;
use crate::script::npm_parser::NpmScript;
use crate::script::nx_parser::{pair_views, CategoryNames, NxTarget};
use crate::script::parser::{function_views, FunctionView, ScriptFunction};
use crate::script::terraform_parser::TerraformCommand;
use crate::text::{chars_eq, to_chars};
use vstd::prelude::*;

verus! {

/// The items that are shown: those not hidden by `@ignore`.
pub open spec fn shown(fs: Seq<FunctionView>) -> Seq<FunctionView>
    decreases fs.len(),
{
    if fs.len() == 0 {
        Seq::empty()
    } else if fs.last().ignored {
        shown(fs.drop_last())
    } else {
        shown(fs.drop_last()).push(fs.last())
    }
}

/// `@ignore` hides an item and nothing else: the shown items are the items
/// not marked ignored, in their order.
pub proof fn lemma_shown(fs: Seq<FunctionView>)
    ensures
        shown(fs) == fs.filter(|f: FunctionView| !f.ignored),
        forall|i: int| 0 <= i < shown(fs).len() ==> !(#[trigger] shown(fs)[i]).ignored,
    decreases fs.len(),
{
    reveal(Seq::filter);
    if fs.len() > 0 {
        lemma_shown(fs.drop_last());
    }
    let p = |f: FunctionView| !f.ignored;
    assert forall|i: int| 0 <= i < shown(fs).len() implies !(#[trigger] shown(fs)[i]).ignored by {
        fs.lemma_filter_pred(p, i);
    }
}

fn push_shown(out: &mut Vec<ScriptFunction>, f: ScriptFunction, Ghost(all): Ghost<Seq<FunctionView>>)
    requires
        function_views(old(out)@) == shown(all),
    ensures
        function_views(final(out)@) == shown(all.push(f@)),
{
    assert(all.push(f@).drop_last() =~= all);
    if !f.ignored {
        let ghost before = function_views(out@);
        out.push(f);
        assert(function_views(out@) =~= before.push(all.push(f@).last()));
    }
}

/// The items of a bash script that are shown.
pub fn visible_functions(fs: Vec<ScriptFunction>) -> (r: Vec<ScriptFunction>)
    ensures
        function_views(r@) == shown(function_views(fs@)),
{
    let mut out: Vec<ScriptFunction> = Vec::new();
    let mut i: usize = 0;
    assert(function_views(fs@).take(0) =~= Seq::<FunctionView>::empty());
    assert(function_views(out@) =~= Seq::<FunctionView>::empty());
    while i < fs.len()
        invariant
            i <= fs@.len(),
            function_views(out@) == shown(function_views(fs@).take(i as int)),
        decreases fs.len() - i,
    {
        let f = fs[i].copy();
        assert(function_views(fs@).take(i + 1) =~= function_views(fs@).take(i as int).push(f@));
        push_shown(&mut out, f, Ghost(function_views(fs@).take(i as int)));
        i = i + 1;
    }
    assert(function_views(fs@).take(fs@.len() as int) =~= function_views(fs@));
    out
}

/// An annotated target as an item of kind `t`.
pub open spec fn target_item(x: AnnotatedTarget, t: ScriptType) -> FunctionView {
    FunctionView {
        name: x.name@,
        display_name: x.display_name@,
        category: x.category@,
        description: x.description@,
        emoji: opt_view(x.emoji),
        ignored: x.ignored,
        script_type: t,
    }
}

/// The shown items of the targets of a task runner (Task, Make, Just).
pub fn functions_from_targets(targets: &[AnnotatedTarget], t: ScriptType) -> (r: Vec<ScriptFunction>)
    ensures
        function_views(r@) == shown(targets@.map_values(|x: AnnotatedTarget| target_item(x, t))),
{
    let ghost all = targets@.map_values(|x: AnnotatedTarget| target_item(x, t));
    let mut out: Vec<ScriptFunction> = Vec::new();
    assert(all.take(0) =~= Seq::<FunctionView>::empty());
    assert(function_views(out@) =~= Seq::<FunctionView>::empty());
    let mut i: usize = 0;
    while i < targets.len()
        invariant
            i <= targets@.len(),
            all == targets@.map_values(|x: AnnotatedTarget| target_item(x, t)),
            function_views(out@) == shown(all.take(i as int)),
        decreases targets.len() - i,
    {
        let x = &targets[i];
        let f = ScriptFunction {
            name: x.name.clone(),
            display_name: x.display_name.clone(),
            category: x.category.clone(),
            description: x.description.clone(),
            emoji: clone_opt(&x.emoji),
            ignored: x.ignored,
            script_type: t,
        };
        assert(all.take(i + 1) =~= all.take(i as int).push(f@));
        push_shown(&mut out, f, Ghost(all.take(i as int)));
        i = i + 1;
    }
    assert(all.take(targets@.len() as int) =~= all);
    out
}

/// An npm script as an item.
pub open spec fn npm_item(x: NpmScript) -> FunctionView {
    FunctionView {
        name: x.name@,
        display_name: x.display_name@,
        category: x.category@,
        description: x.description@,
        emoji: None,
        ignored: false,
        script_type: ScriptType::PackageJson,
    }
}

/// The items of a package's npm scripts.
pub fn functions_from_npm(scripts: &[NpmScript]) -> (r: Vec<ScriptFunction>)
    ensures
        function_views(r@) == scripts@.map_values(|x: NpmScript| npm_item(x)),
{
    let ghost all = scripts@.map_values(|x: NpmScript| npm_item(x));
    let mut out: Vec<ScriptFunction> = Vec::new();
    let mut i: usize = 0;
    while i < scripts.len()
        invariant
            i <= scripts@.len(),
            all == scripts@.map_values(|x: NpmScript| npm_item(x)),
            function_views(out@) == all.take(i as int),
        decreases scripts.len() - i,
    {
        let x = &scripts[i];
        let f = ScriptFunction {
            name: x.name.clone(),
            display_name: x.display_name.clone(),
            category: x.category.clone(),
            description: x.description.clone(),
            emoji: None,
            ignored: false,
            script_type: ScriptType::PackageJson,
        };
        let ghost before = function_views(out@);
        out.push(f);
        assert(function_views(out@) =~= before.push(all[i as int]));
        assert(all.take(i + 1) =~= all.take(i as int).push(all[i as int]));
        i = i + 1;
    }
    assert(all.take(scripts@.len() as int) =~= all);
    out
}

/// A Devbox script as an item.
pub open spec fn devbox_item(x: DevboxScript) -> FunctionView {
    FunctionView {
        name: x.name@,
        display_name: x.display_name@,
        category: x.category@,
        description: x.description@,
        emoji: None,
        ignored: false,
        script_type: ScriptType::DevboxJson,
    }
}

/// The items of a `devbox.json`'s scripts.
pub fn functions_from_devbox(scripts: &[DevboxScript]) -> (r: Vec<ScriptFunction>)
    ensures
        function_views(r@) == scripts@.map_values(|x: DevboxScript| devbox_item(x)),
{
    let ghost all = scripts@.map_values(|x: DevboxScript| devbox_item(x));
    let mut out: Vec<ScriptFunction> = Vec::new();
    let mut i: usize = 0;
    while i < scripts.len()
        invariant
            i <= scripts@.len(),
            all == scripts@.map_values(|x: DevboxScript| devbox_item(x)),
            function_views(out@) == all.take(i as int),
        decreases scripts.len() - i,
    {
        let x = &scripts[i];
        let f = ScriptFunction {
            name: x.name.clone(),
            display_name: x.display_name.clone(),
            category: x.category.clone(),
            description: x.description.clone(),
            emoji: None,
            ignored: false,
            script_type: ScriptType::DevboxJson,
        };
        let ghost before = function_views(out@);
        out.push(f);
        assert(function_views(out@) =~= before.push(all[i as int]));
        assert(all.take(i + 1) =~= all.take(i as int).push(all[i as int]));
        i = i + 1;
    }
    assert(all.take(scripts@.len() as int) =~= all);
    out
}

/// A Cargo target as an item, named `bin:<name>` or `example:<name>` so
/// that running it picks the right flag.
pub open spec fn cargo_item(x: CargoTarget) -> FunctionView {
    FunctionView {
        name: match x.target_type {
            CargoTargetType::Binary => "bin:"@ + x.name@,
            CargoTargetType::Example => "example:"@ + x.name@,
        },
        display_name: x.display_name@,
        category: x.category@,
        description: x.description@,
        emoji: opt_view(x.emoji),
        ignored: x.ignored,
        script_type: ScriptType::CargoToml,
    }
}

/// The shown items of a crate's binary and example targets.
pub fn functions_from_cargo(targets: &[CargoTarget]) -> (r: Vec<ScriptFunction>)
    ensures
        function_views(r@) == shown(targets@.map_values(|x: CargoTarget| cargo_item(x))),
{
    let ghost all = targets@.map_values(|x: CargoTarget| cargo_item(x));
    let mut out: Vec<ScriptFunction> = Vec::new();
    assert(all.take(0) =~= Seq::<FunctionView>::empty());
    assert(function_views(out@) =~= Seq::<FunctionView>::empty());
    let mut i: usize = 0;
    while i < targets.len()
        invariant
            i <= targets@.len(),
            all == targets@.map_values(|x: CargoTarget| cargo_item(x)),
            function_views(out@) == shown(all.take(i as int)),
        decreases targets.len() - i,
    {
        let x = &targets[i];
        let mut name = String::from_str(
            match x.target_type {
                CargoTargetType::Binary => "bin:",
                CargoTargetType::Example => "example:",
            },
        );
        name.append(x.name.as_str());
        let f = ScriptFunction {
            name,
            display_name: x.display_name.clone(),
            category: x.category.clone(),
            description: x.description.clone(),
            emoji: clone_opt(&x.emoji),
            ignored: x.ignored,
            script_type: ScriptType::CargoToml,
        };
        assert(all.take(i + 1) =~= all.take(i as int).push(f@));
        push_shown(&mut out, f, Ghost(all.take(i as int)));
        i = i + 1;
    }
    assert(all.take(targets@.len() as int) =~= all);
    out
}

/// An Nx target as an item.
pub open spec fn nx_item(x: NxTarget) -> FunctionView {
    FunctionView {
        name: x.name@,
        display_name: x.display_name@,
        category: x.category@,
        description: x.description@,
        emoji: opt_view(x.emoji),
        ignored: x.ignored,
        script_type: ScriptType::NxJson,
    }
}

/// The shown items of an Nx workspace's targets.
pub fn functions_from_nx(targets: &[NxTarget]) -> (r: Vec<ScriptFunction>)
    ensures
        function_views(r@) == shown(targets@.map_values(|x: NxTarget| nx_item(x))),
{
    let ghost all = targets@.map_values(|x: NxTarget| nx_item(x));
    let mut out: Vec<ScriptFunction> = Vec::new();
    assert(all.take(0) =~= Seq::<FunctionView>::empty());
    assert(function_views(out@) =~= Seq::<FunctionView>::empty());
    let mut i: usize = 0;
    while i < targets.len()
        invariant
            i <= targets@.len(),
            all == targets@.map_values(|x: NxTarget| nx_item(x)),
            function_views(out@) == shown(all.take(i as int)),
        decreases targets.len() - i,
    {
        let x = &targets[i];
        let f = ScriptFunction {
            name: x.name.clone(),
            display_name: x.display_name.clone(),
            category: x.category.clone(),
            description: x.description.clone(),
            emoji: clone_opt(&x.emoji),
            ignored: x.ignored,
            script_type: ScriptType::NxJson,
        };
        assert(all.take(i + 1) =~= all.take(i as int).push(f@));
        push_shown(&mut out, f, Ghost(all.take(i as int)));
        i = i + 1;
    }
    assert(all.take(targets@.len() as int) =~= all);
    out
}

/// A Gradle task as an item.
pub open spec fn gradle_item(x: GradleTask) -> FunctionView {
    FunctionView {
        name: x.name@,
        display_name: x.display_name@,
        category: x.category@,
        description: x.description@,
        emoji: opt_view(x.emoji),
        ignored: x.ignored,
        script_type: ScriptType::Gradle,
    }
}

/// The shown items of a Gradle project's tasks.
pub fn functions_from_gradle(targets: &[GradleTask]) -> (r: Vec<ScriptFunction>)
    ensures
        function_views(r@) == shown(targets@.map_values(|x: GradleTask| gradle_item(x))),
{
    let ghost all = targets@.map_values(|x: GradleTask| gradle_item(x));
    let mut out: Vec<ScriptFunction> = Vec::new();
    assert(all.take(0) =~= Seq::<FunctionView>::empty());
    assert(function_views(out@) =~= Seq::<FunctionView>::empty());
    let mut i: usize = 0;
    while i < targets.len()
        invariant
            i <= targets@.len(),
            all == targets@.map_values(|x: GradleTask| gradle_item(x)),
            function_views(out@) == shown(all.take(i as int)),
        decreases targets.len() - i,
    {
        let x = &targets[i];
        let f = ScriptFunction {
            name: x.name.clone(),
            display_name: x.display_name.clone(),
            category: x.category.clone(),
            description: x.description.clone(),
            emoji: clone_opt(&x.emoji),
            ignored: x.ignored,
            script_type: ScriptType::Gradle,
        };
        assert(all.take(i + 1) =~= all.take(i as int).push(f@));
        push_shown(&mut out, f, Ghost(all.take(i as int)));
        i = i + 1;
    }
    assert(all.take(targets@.len() as int) =~= all);
    out
}

/// A Bazel target as an item.
pub open spec fn bazel_item(x: BazelTarget) -> FunctionView {
    FunctionView {
        name: x.name@,
        display_name: x.display_name@,
        category: x.category@,
        description: x.description@,
        emoji: opt_view(x.emoji),
        ignored: x.ignored,
        script_type: ScriptType::Bazel,
    }
}

/// The shown items of a Bazel workspace's targets.
pub fn functions_from_bazel(targets: &[BazelTarget]) -> (r: Vec<ScriptFunction>)
    ensures
        function_views(r@) == shown(targets@.map_values(|x: BazelTarget| bazel_item(x))),
{
    let ghost all = targets@.map_values(|x: BazelTarget| bazel_item(x));
    let mut out: Vec<ScriptFunction> = Vec::new();
    assert(all.take(0) =~= Seq::<FunctionView>::empty());
    assert(function_views(out@) =~= Seq::<FunctionView>::empty());
    let mut i: usize = 0;
    while i < targets.len()
        invariant
            i <= targets@.len(),
            all == targets@.map_values(|x: BazelTarget| bazel_item(x)),
            function_views(out@) == shown(all.take(i as int)),
        decreases targets.len() - i,
    {
        let x = &targets[i];
        let f = ScriptFunction {
            name: x.name.clone(),
            display_name: x.display_name.clone(),
            category: x.category.clone(),
            description: x.description.clone(),
            emoji: clone_opt(&x.emoji),
            ignored: x.ignored,
            script_type: ScriptType::Bazel,
        };
        assert(all.take(i + 1) =~= all.take(i as int).push(f@));
        push_shown(&mut out, f, Ghost(all.take(i as int)));
        i = i + 1;
    }
    assert(all.take(targets@.len() as int) =~= all);
    out
}

/// A Terraform command as an item.
pub open spec fn terraform_item(x: TerraformCommand) -> FunctionView {
    FunctionView {
        name: x.name@,
        display_name: x.display_name@,
        category: x.category@,
        description: x.description@,
        emoji: opt_view(x.emoji),
        ignored: x.ignored,
        script_type: ScriptType::Terraform,
    }
}

/// The shown items of a Terraform directory's commands.
pub fn functions_from_terraform(commands: &[TerraformCommand]) -> (r: Vec<ScriptFunction>)
    ensures
        function_views(r@) == shown(commands@.map_values(|x: TerraformCommand| terraform_item(x))),
{
    let ghost all = commands@.map_values(|x: TerraformCommand| terraform_item(x));
    let mut out: Vec<ScriptFunction> = Vec::new();
    assert(all.take(0) =~= Seq::<FunctionView>::empty());
    assert(function_views(out@) =~= Seq::<FunctionView>::empty());
    let mut i: usize = 0;
    while i < commands.len()
        invariant
            i <= commands@.len(),
            all == commands@.map_values(|x: TerraformCommand| terraform_item(x)),
            function_views(out@) == shown(all.take(i as int)),
        decreases commands.len() - i,
    {
        let x = &commands[i];
        let f = ScriptFunction {
            name: x.name.clone(),
            display_name: x.display_name.clone(),
            category: x.category.clone(),
            description: x.description.clone(),
            emoji: clone_opt(&x.emoji),
            ignored: x.ignored,
            script_type: ScriptType::Terraform,
        };
        assert(all.take(i + 1) =~= all.take(i as int).push(f@));
        push_shown(&mut out, f, Ghost(all.take(i as int)));
        i = i + 1;
    }
    assert(all.take(commands@.len() as int) =~= all);
    out
}

/// `pairs` with `(k, v)` set as a map does it: the value of an existing
/// key is replaced, a new key is added at the end.
pub open spec fn pair_set(ps: Seq<(Seq<char>, Seq<char>)>, k: Seq<char>, v: Seq<char>) -> Seq<(Seq<char>, Seq<char>)>
    decreases ps.len(),
{
    if ps.len() == 0 {
        seq![(k, v)]
    } else if ps[0].0 == k {
        seq![(k, v)] + ps.drop_first()
    } else {
        seq![ps[0]] + pair_set(ps.drop_first(), k, v)
    }
}

/// The pairs set one after the other into `ps`.
pub open spec fn pairs_set_all(ps: Seq<(Seq<char>, Seq<char>)>, kvs: Seq<(Seq<char>, Seq<char>)>) -> Seq<
    (Seq<char>, Seq<char>),
>
    decreases kvs.len(),
{
    if kvs.len() == 0 {
        ps
    } else {
        pair_set(pairs_set_all(ps, kvs.drop_last()), kvs.last().0, kvs.last().1)
    }
}

fn set_name(names: &mut CategoryNames, k: String, v: String)
    ensures
        pair_views(final(names).entries@) == pair_set(pair_views(old(names).entries@), k@, v@),
{
    let ghost ps = pair_views(names.entries@);
    let kc = to_chars(k.as_str());
    let mut i: usize = 0;
    assert(ps.skip(0) =~= ps);
    assert(ps.take(0) + pair_set(ps, k@, v@) =~= pair_set(ps, k@, v@));
    while i < names.entries.len()
        invariant
            i <= names.entries@.len(),
            kc@ == k@,
            ps == pair_views(names.entries@),
            pair_set(ps, k@, v@) == ps.take(i as int) + pair_set(ps.skip(i as int), k@, v@),
            names.entries@ == old(names).entries@,
        decreases names.entries.len() - i,
    {
        let c = to_chars(names.entries[i].0.as_str());
        assert(ps.skip(i as int)[0] == ps[i as int]);
        assert(ps.skip(i as int).drop_first() =~= ps.skip(i + 1));
        if chars_eq(c.as_slice(), kc.as_slice()) {
            names.entries.set(i, (k, v));
            assert(pair_views(names.entries@) =~= ps.take(i as int) + pair_set(ps.skip(i as int), k@, v@));
            return;
        }
        assert(ps.take(i + 1) =~= ps.take(i as int) + seq![ps[i as int]]);
        assert(pair_set(ps, k@, v@) =~= ps.take(i + 1) + pair_set(ps.skip(i + 1), k@, v@));
        i = i + 1;
    }
    assert(ps.skip(i as int) =~= Seq::<(Seq<char>, Seq<char>)>::empty());
    assert(ps.take(i as int) =~= ps);
    let ghost before = pair_views(names.entries@);
    names.entries.push((k, v));
    assert(pair_views(names.entries@) =~= before.push((k@, v@)));
    assert(pair_set(ps, k@, v@) =~= ps + seq![(k@, v@)]);
}

/// The display name of each category: those of the script files (a later
/// file of the same category wins), then those of the Nx projects.
pub fn category_display_names(files: &[ScriptFile], nx_names: &CategoryNames) -> (r: CategoryNames)
    ensures
        pair_views(r.entries@) == pairs_set_all(
            pairs_set_all(
                Seq::empty(),
                file_views(files@).map_values(|f: ScriptFileView| (f.category, f.display_name)),
            ),
            pair_views(nx_names.entries@),
        ),
{
    let ghost fk = file_views(files@).map_values(|f: ScriptFileView| (f.category, f.display_name));
    let mut names = CategoryNames { entries: Vec::new() };
    assert(pair_views(names.entries@) =~= pairs_set_all(Seq::empty(), fk.take(0)));
    let mut i: usize = 0;
    while i < files.len()
        invariant
            i <= files@.len(),
            fk == file_views(files@).map_values(|f: ScriptFileView| (f.category, f.display_name)),
            pair_views(names.entries@) == pairs_set_all(Seq::empty(), fk.take(i as int)),
        decreases files.len() - i,
    {
        let f = &files[i];
        assert(fk.take(i + 1).drop_last() =~= fk.take(i as int));
        assert(fk.take(i + 1).last() == (f.category@, f.display_name@));
        set_name(&mut names, f.category.clone(), f.display_name.clone());
        i = i + 1;
    }
    assert(fk.take(files@.len() as int) =~= fk);
    let ghost base = pair_views(names.entries@);
    let ghost nk = pair_views(nx_names.entries@);
    let mut j: usize = 0;
    assert(pairs_set_all(base, nk.take(0)) == base) by {
        assert(nk.take(0) =~= Seq::<(Seq<char>, Seq<char>)>::empty());
    }
    while j < nx_names.entries.len()
        invariant
            j <= nx_names.entries@.len(),
            nk == pair_views(nx_names.entries@),
            pair_views(names.entries@) == pairs_set_all(base, nk.take(j as int)),
        decreases nx_names.entries.len() - j,
    {
        let e = &nx_names.entries[j];
        assert(nk.take(j + 1).drop_last() =~= nk.take(j as int));
        assert(nk.take(j + 1).last() == (e.0@, e.1@));
        set_name(&mut names, e.0.clone(), e.1.clone());
        j = j + 1;
    }
    assert(nk.take(nx_names.entries@.len() as int) =~= nk);
    names
}

} // verus!
