//! Cargo binary and example targets from the packages that
//! `cargo metadata --format-version 1 --no-deps` reports.
use crate::script::annotations::opt_view;
use crate::script::discovery::{display_name_of, format_display_name};
use crate::script::error::ParseError;
use crate::sort::{item_views, sort_stable, stable_sort, SortKey};
use crate::text::{eq_lit, lemma_seq_lt_irrefl, lemma_seq_lt_trans, seq_lt, seq_lt_exec, to_chars};
use vstd::prelude::*;

verus! {

/// Whether a target is a binary (`cargo run --bin`) or an example
/// (`cargo run --example`).
#[derive(Debug, Clone, Copy, PartialEq, Eq, Structural)]
pub enum CargoTargetType {
    Binary,
    Example,
}

impl CargoTargetType {
    /// The rank by which binaries come before examples.
    pub open spec fn spec_order(self) -> u8 {
        match self {
            CargoTargetType::Binary => 0,
            CargoTargetType::Example => 1,
        }
    }

    /// The rank by which binaries come before examples.
    pub fn cmp_order(self) -> (r: u8)
        ensures
            r == self.spec_order(),
    {
        match self {
            CargoTargetType::Binary => 0,
            CargoTargetType::Example => 1,
        }
    }
}

/// A target of a package as `cargo metadata` describes it: its `name` when
/// that is a string, and its `kind` list when that is a list (each entry when
/// it is a string).
#[derive(Debug, Clone)]
pub struct CargoMetaTarget {
    pub name: Option<String>,
    pub kind: Option<Vec<Option<String>>>,
}

/// A package of `cargo metadata`: its `targets` when that is a list.
#[derive(Debug, Clone)]
pub struct CargoMetaPackage {
    pub targets: Option<Vec<CargoMetaTarget>>,
}

/// The output of `cargo metadata`: its `packages` when that is a list.
#[derive(Debug, Clone)]
pub struct CargoMetadata {
    pub packages: Option<Vec<CargoMetaPackage>>,
}

/// A Cargo target for display.
#[derive(Debug, Clone)]
pub struct CargoTarget {
    pub name: String,
    pub display_name: String,
    pub category: String,
    pub description: String,
    pub emoji: Option<String>,
    pub ignored: bool,
    pub target_type: CargoTargetType,
}

/// The plain-value form of a [`CargoTarget`].
pub struct CargoTargetView {
    pub name: Seq<char>,
    pub display_name: Seq<char>,
    pub category: Seq<char>,
    pub description: Seq<char>,
    pub emoji: Option<Seq<char>>,
    pub ignored: bool,
    pub target_type: CargoTargetType,
}

impl View for CargoTarget {
    type V = CargoTargetView;

    open spec fn view(&self) -> CargoTargetView {
        CargoTargetView {
            name: self.name@,
            display_name: self.display_name@,
            category: self.category@,
            description: self.description@,
            emoji: opt_view(self.emoji),
            ignored: self.ignored,
            target_type: self.target_type,
        }
    }
}

impl SortKey for CargoTarget {
    /// Binaries before examples, then by name.
    open spec fn key_lt(a: CargoTargetView, b: CargoTargetView) -> bool {
        a.target_type.spec_order() < b.target_type.spec_order() || (a.target_type.spec_order()
            == b.target_type.spec_order() && seq_lt(a.name, b.name))
    }

    proof fn lemma_key_lt_trans(a: CargoTargetView, b: CargoTargetView, c: CargoTargetView) {
        if a.target_type.spec_order() == b.target_type.spec_order() && b.target_type.spec_order()
            == c.target_type.spec_order() && seq_lt(a.name, b.name) && seq_lt(b.name, c.name) {
            lemma_seq_lt_trans(a.name, b.name, c.name);
        }
    }

    proof fn lemma_key_lt_irrefl(a: CargoTargetView) {
        lemma_seq_lt_irrefl(a.name);
    }

    fn exec_key_lt(&self, other: &Self) -> (r: bool) {
        let x = self.target_type.cmp_order();
        let y = other.target_type.cmp_order();
        if x < y {
            true
        } else if x == y {
            let a = to_chars(self.name.as_str());
            let b = to_chars(other.name.as_str());
            seq_lt_exec(a.as_slice(), b.as_slice())
        } else {
            false
        }
    }
}

/// The kind list holds the string `k`.
pub open spec fn has_kind(kinds: Seq<Option<String>>, k: Seq<char>) -> bool {
    exists|i: int| 0 <= i < kinds.len() && #[trigger] kinds[i] is Some && kinds[i].unwrap()@ == k
}

/// The type of a target with these kinds: a binary if `bin` is among them,
/// else an example if `example` is; other targets are not listed.
pub open spec fn target_type_of(kinds: Seq<Option<String>>) -> Option<CargoTargetType> {
    if has_kind(kinds, "bin"@) {
        Some(CargoTargetType::Binary)
    } else if has_kind(kinds, "example"@) {
        Some(CargoTargetType::Example)
    } else {
        None
    }
}

/// The listed target `name` of type `ty`.
pub open spec fn cargo_target(name: Seq<char>, ty: CargoTargetType, category: Seq<char>) -> CargoTargetView {
    CargoTargetView {
        name: name,
        display_name: display_name_of(name),
        category: category,
        description: match ty {
            CargoTargetType::Binary => "cargo run --bin "@ + name,
            CargoTargetType::Example => "cargo run --example "@ + name,
        },
        emoji: match ty {
            CargoTargetType::Binary => Some("📦"@),
            CargoTargetType::Example => Some("📖"@),
        },
        ignored: false,
        target_type: ty,
    }
}

/// What one metadata target contributes: a target when it has a name, a
/// kind list and a listed type.
pub open spec fn target_entry(t: CargoMetaTarget, category: Seq<char>) -> Seq<CargoTargetView> {
    match (t.name, t.kind) {
        (Some(n), Some(k)) => match target_type_of(k@) {
            Some(ty) => seq![cargo_target(n@, ty, category)],
            None => Seq::empty(),
        },
        _ => Seq::empty(),
    }
}

/// The targets of the first `n` metadata targets of a package.
pub open spec fn package_targets_upto(ts: Seq<CargoMetaTarget>, n: int, category: Seq<char>) -> Seq<CargoTargetView>
    decreases n,
{
    if n <= 0 || n > ts.len() {
        Seq::empty()
    } else {
        package_targets_upto(ts, n - 1, category) + target_entry(ts[n - 1], category)
    }
}

/// The targets of one package (none when it has no target list).
pub open spec fn package_targets(p: CargoMetaPackage, category: Seq<char>) -> Seq<CargoTargetView> {
    match p.targets {
        Some(ts) => package_targets_upto(ts@, ts@.len() as int, category),
        None => Seq::empty(),
    }
}

/// The targets of the first `n` packages, in order.
pub open spec fn packages_targets(ps: Seq<CargoMetaPackage>, n: int, category: Seq<char>) -> Seq<CargoTargetView>
    decreases n,
{
    if n <= 0 || n > ps.len() {
        Seq::empty()
    } else {
        packages_targets(ps, n - 1, category) + package_targets(ps[n - 1], category)
    }
}

fn has_kind_exec(kinds: &Vec<Option<String>>, k: &str) -> (r: bool)
    ensures
        r == has_kind(kinds@, k@),
{
    let mut i: usize = 0;
    while i < kinds.len()
        invariant
            i <= kinds@.len(),
            forall|j: int| 0 <= j < i ==> !(#[trigger] kinds@[j] is Some && kinds@[j].unwrap()@ == k@),
        decreases kinds.len() - i,
    {
        match &kinds[i] {
            Some(s) => {
                let c = to_chars(s.as_str());
                if eq_lit(c.as_slice(), k) {
                    return true;
                }
            },
            None => {},
        }
        i = i + 1;
    }
    false
}

fn cargo_target_exec(name: &String, ty: CargoTargetType, category: &str) -> (r: CargoTarget)
    ensures
        r@ == cargo_target(name@, ty, category@),
{
    let (description, emoji) = match ty {
        CargoTargetType::Binary => {
            let mut d = String::from_str("cargo run --bin ");
            d.append(name.as_str());
            (d, String::from_str("📦"))
        },
        CargoTargetType::Example => {
            let mut d = String::from_str("cargo run --example ");
            d.append(name.as_str());
            (d, String::from_str("📖"))
        },
    };
    CargoTarget {
        name: name.clone(),
        display_name: format_display_name(name.as_str()),
        category: String::from_str(category),
        description,
        emoji: Some(emoji),
        ignored: false,
        target_type: ty,
    }
}

/// The binary and example targets of every package, binaries first, each
/// group sorted by name. Metadata without a `packages` list is an error.
pub fn parse_cargo_metadata(metadata: &CargoMetadata, category: &str) -> (r: Result<Vec<CargoTarget>, ParseError>)
    ensures
        match metadata.packages {
            Some(ps) => r matches Ok(v) && item_views(v@) == stable_sort::<CargoTarget>(
                packages_targets(ps@, ps@.len() as int, category@),
            ),
            None => r matches Err(e) && e.message@ == "Expected 'packages' array in cargo metadata"@,
        },
{
    let packages = match &metadata.packages {
        Some(ps) => ps,
        None => {
            return Err(ParseError { message: String::from_str("Expected 'packages' array in cargo metadata") });
        },
    };
    let mut targets: Vec<CargoTarget> = Vec::new();
    let mut p: usize = 0;
    while p < packages.len()
        invariant
            p <= packages@.len(),
            item_views(targets@) == packages_targets(packages@, p as int, category@),
        decreases packages.len() - p,
    {
        match &packages[p].targets {
            Some(ts) => {
                let mut t: usize = 0;
                while t < ts.len()
                    invariant
                        p < packages@.len(),
                        packages@[p as int].targets == Some(*ts),
                        t <= ts@.len(),
                        item_views(targets@) == packages_targets(packages@, p as int, category@)
                            + package_targets_upto(ts@, t as int, category@),
                    decreases ts.len() - t,
                {
                    let mt = &ts[t];
                    let ghost before = item_views(targets@);
                    match (&mt.name, &mt.kind) {
                        (Some(n), Some(k)) => {
                            let ty = if has_kind_exec(k, "bin") {
                                Some(CargoTargetType::Binary)
                            } else if has_kind_exec(k, "example") {
                                Some(CargoTargetType::Example)
                            } else {
                                None
                            };
                            match ty {
                                Some(ty) => {
                                    let target = cargo_target_exec(n, ty, category);
                                    targets.push(target);
                                    assert(item_views(targets@) =~= before + seq![target@]);
                                },
                                None => {
                                    assert(item_views(targets@) =~= before + Seq::<CargoTargetView>::empty());
                                },
                            }
                        },
                        _ => {
                            assert(item_views(targets@) =~= before + Seq::<CargoTargetView>::empty());
                        },
                    }
                    assert(target_entry(ts@[t as int], category@) =~= item_views(targets@).subrange(
                        before.len() as int,
                        item_views(targets@).len() as int,
                    ));
                    t = t + 1;
                }
            },
            None => {},
        }
        p = p + 1;
    }
    Ok(sort_stable(targets))
}

} // verus!
