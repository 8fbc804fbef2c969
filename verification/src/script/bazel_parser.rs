//! Bazel binary and test targets from the output of
//! `bazel query 'kind(".*_(binary|test)", //...)' --output=label_kind`.
use crate::script::annotations::opt_view;
use crate::script::discovery::{display_name_of, format_display_name};
use crate::script::error::ParseError;
use crate::sort::{item_views, sort_stable, stable_sort, SortKey};
use crate::text::{
    ends_with, ends_with_lit, eq_lit, find_from, find_from_exec, find_lit, find_seq, from_chars,
    lemma_find_from, lemma_find_seq, lemma_seq_lt_irrefl, lemma_seq_lt_trans, lines, seq_lt,
    seq_lt_exec, slice_to_vec, str_lines, to_chars, trim, trim_exec, views,
};
use vstd::prelude::*;

verus! {

/// Whether a target is run (`bazel run`) or tested (`bazel test`).
#[derive(Debug, Clone, Copy, PartialEq, Eq, Structural, PartialOrd, Ord)]
pub enum BazelTargetType {
    /// A `*_binary` rule.
    Binary,
    /// A `*_test` rule.
    Test,
}

/// A Bazel target for display.
#[derive(Debug, Clone)]
pub struct BazelTarget {
    pub name: String,
    pub display_name: String,
    pub category: String,
    pub description: String,
    pub emoji: Option<String>,
    pub ignored: bool,
    pub target_type: BazelTargetType,
    pub label: String,
}

/// The plain-value form of a [`BazelTarget`].
pub struct BazelTargetView {
    pub name: Seq<char>,
    pub display_name: Seq<char>,
    pub category: Seq<char>,
    pub description: Seq<char>,
    pub emoji: Option<Seq<char>>,
    pub ignored: bool,
    pub target_type: BazelTargetType,
    pub label: Seq<char>,
}

impl View for BazelTarget {
    type V = BazelTargetView;

    open spec fn view(&self) -> BazelTargetView {
        BazelTargetView {
            name: self.name@,
            display_name: self.display_name@,
            category: self.category@,
            description: self.description@,
            emoji: opt_view(self.emoji),
            ignored: self.ignored,
            target_type: self.target_type,
            label: self.label@,
        }
    }
}

impl SortKey for BazelTarget {
    /// Binaries before tests, then by name.
    open spec fn key_lt(a: BazelTargetView, b: BazelTargetView) -> bool {
        (a.target_type == BazelTargetType::Binary && b.target_type == BazelTargetType::Test) || (
        a.target_type == b.target_type && seq_lt(a.name, b.name))
    }

    proof fn lemma_key_lt_trans(a: BazelTargetView, b: BazelTargetView, c: BazelTargetView) {
        if a.target_type == b.target_type && b.target_type == c.target_type && seq_lt(a.name, b.name)
            && seq_lt(b.name, c.name) {
            lemma_seq_lt_trans(a.name, b.name, c.name);
        }
    }

    proof fn lemma_key_lt_irrefl(a: BazelTargetView) {
        lemma_seq_lt_irrefl(a.name);
    }

    fn exec_key_lt(&self, other: &Self) -> (r: bool) {
        if self.target_type == BazelTargetType::Binary && other.target_type == BazelTargetType::Test {
            true
        } else if self.target_type == other.target_type {
            let a = to_chars(self.name.as_str());
            let b = to_chars(other.name.as_str());
            seq_lt_exec(a.as_slice(), b.as_slice())
        } else {
            false
        }
    }
}

/// `<rule_kind> rule <label>`: the line split at its first two spaces, when
/// there are two and the middle piece is `rule`.
pub open spec fn label_kind_line(l: Seq<char>) -> Option<(Seq<char>, Seq<char>)> {
    let a = find_from(l, 0, ' ');
    let b = find_from(l, a + 1, ' ');
    if a < l.len() && b < l.len() && l.subrange(a + 1, b) == "rule"@ {
        Some((l.subrange(0, a), l.subrange(b + 1, l.len() as int)))
    } else {
        None
    }
}

/// The message for a line that is not `<rule_kind> rule <label>`.
pub open spec fn kind_line_error(l: Seq<char>) -> Seq<char> {
    "Unexpected bazel query output format: '"@ + l + "'. Expected '<rule_kind> rule <label>'"@
}

fn kind_line_error_exec(l: &str) -> (r: String)
    ensures
        r@ == kind_line_error(l@),
{
    let mut r = String::from_str("Unexpected bazel query output format: '");
    r.append(l);
    r.append("'. Expected '<rule_kind> rule <label>'");
    r
}

/// Splits a line of `bazel query --output=label_kind` output into its rule
/// kind and its label.
pub fn parse_label_kind_line(line: &str) -> (r: Result<(String, String), ParseError>)
    ensures
        match r {
            Ok((kind, label)) => label_kind_line(line@) == Some((kind@, label@)),
            Err(e) => label_kind_line(line@) is None && e.message@ == kind_line_error(line@),
        },
{
    let l = to_chars(line);
    proof {
        lemma_find_from(l@, 0, ' ');
    }
    let a = find_from_exec(l.as_slice(), 0, ' ');
    if a < l.len() {
        proof {
            lemma_find_from(l@, a + 1, ' ');
        }
        let b = find_from_exec(l.as_slice(), a + 1, ' ');
        if b < l.len() {
            let mid = slice_to_vec(l.as_slice(), a + 1, b);
            if eq_lit(mid.as_slice(), "rule") {
                let kind = slice_to_vec(l.as_slice(), 0, a);
                let label = slice_to_vec(l.as_slice(), b + 1, l.len());
                return Ok((from_chars(kind.as_slice()), from_chars(label.as_slice())));
            }
        }
    }
    Err(ParseError { message: kind_line_error_exec(line) })
}

/// The index of the last `c` in `s[..j]`, or -1.
pub open spec fn rfind(s: Seq<char>, j: int, c: char) -> int
    decreases j,
{
    if j <= 0 || j > s.len() {
        -1
    } else if s[j - 1] == c {
        j - 1
    } else {
        rfind(s, j - 1, c)
    }
}

proof fn lemma_rfind(s: Seq<char>, j: int, c: char)
    requires
        0 <= j <= s.len(),
    ensures
        -1 <= rfind(s, j, c) < j,
    decreases j,
{
    if j > 0 && s[j - 1] != c {
        lemma_rfind(s, j - 1, c);
    }
}

fn rfind_exec(s: &[char], c: char) -> (r: usize)
    ensures
        r == rfind(s@, s@.len() as int, c) + 1,
{
    let mut j = s.len();
    while j > 0 && s[j - 1] != c
        invariant
            j <= s@.len(),
            rfind(s@, s@.len() as int, c) == rfind(s@, j as int, c),
        decreases j,
    {
        j = j - 1;
    }
    j
}

/// The package and target name of a label: an `@repo` prefix is dropped;
/// `//pkg:name` gives `(pkg, name)`, and `//a/b/c` stands for `//a/b/c:c`.
pub open spec fn label_parts(label: Seq<char>) -> Option<(Seq<char>, Seq<char>)> {
    let i = find_seq(label, 0, "//"@);
    if i < label.len() {
        let s = label.subrange(i + 2, label.len() as int);
        let c = find_from(s, 0, ':');
        if c < s.len() {
            Some((s.subrange(0, c), s.subrange(c + 1, s.len() as int)))
        } else {
            Some((s, s.subrange(rfind(s, s.len() as int, '/') + 1, s.len() as int)))
        }
    } else {
        None
    }
}

/// The message for a text that is not a label.
pub open spec fn label_error(label: Seq<char>) -> Seq<char> {
    "Invalid Bazel label: "@ + label
}

/// Splits a Bazel label into its package and target name.
pub fn parse_label(label: &str) -> (r: Result<(String, String), ParseError>)
    ensures
        match r {
            Ok((package, name)) => label_parts(label@) == Some((package@, name@)),
            Err(e) => label_parts(label@) is None && e.message@ == label_error(label@),
        },
{
    let l = to_chars(label);
    proof {
        lemma_find_seq(l@, 0, "//"@);
        reveal_strlit("//");
    }
    let i = find_lit(l.as_slice(), 0, "//");
    if i < l.len() {
        let s = slice_to_vec(l.as_slice(), i + 2, l.len());
        proof {
            lemma_find_from(s@, 0, ':');
        }
        let c = find_from_exec(s.as_slice(), 0, ':');
        if c < s.len() {
            let package = slice_to_vec(s.as_slice(), 0, c);
            let name = slice_to_vec(s.as_slice(), c + 1, s.len());
            Ok((from_chars(package.as_slice()), from_chars(name.as_slice())))
        } else {
            proof {
                lemma_rfind(s@, s@.len() as int, '/');
            }
            let k = rfind_exec(s.as_slice(), '/');
            let name = slice_to_vec(s.as_slice(), k, s.len());
            Ok((from_chars(s.as_slice()), from_chars(name.as_slice())))
        }
    } else {
        let mut m = String::from_str("Invalid Bazel label: ");
        m.append(label);
        Err(ParseError { message: m })
    }
}

/// The target a run or test rule with this label gives.
pub open spec fn bazel_target(
    label: Seq<char>,
    package: Seq<char>,
    name: Seq<char>,
    ty: BazelTargetType,
    category: Seq<char>,
) -> BazelTargetView {
    BazelTargetView {
        name: label,
        display_name: if package.len() == 0 {
            display_name_of(name)
        } else {
            package + ": "@ + display_name_of(name)
        },
        category: category,
        description: match ty {
            BazelTargetType::Binary => "bazel run "@ + label,
            BazelTargetType::Test => "bazel test "@ + label,
        },
        emoji: match ty {
            BazelTargetType::Binary => Some("📦"@),
            BazelTargetType::Test => Some("📝"@),
        },
        ignored: false,
        target_type: ty,
        label: label,
    }
}

/// What one trimmed, non-blank line gives: an error, nothing (a rule that
/// is neither `*_binary` nor `*_test`), or a target.
pub open spec fn bazel_line(t: Seq<char>, category: Seq<char>) -> Result<Option<BazelTargetView>, Seq<char>> {
    match label_kind_line(t) {
        None => Err(kind_line_error(t)),
        Some((kind, label)) => {
            if !ends_with(kind, "_binary"@) && !ends_with(kind, "_test"@) {
                Ok(None)
            } else {
                let ty = if ends_with(kind, "_binary"@) {
                    BazelTargetType::Binary
                } else {
                    BazelTargetType::Test
                };
                match label_parts(label) {
                    None => Err(label_error(label)),
                    Some((package, name)) => Ok(Some(bazel_target(label, package, name, ty, category))),
                }
            }
        },
    }
}

/// The targets of the first `n` lines, or the error of the first line that
/// cannot be read.
pub open spec fn bazel_scan(ls: Seq<Seq<char>>, n: int, category: Seq<char>) -> Result<
    Seq<BazelTargetView>,
    Seq<char>,
>
    decreases n,
{
    if n <= 0 || n > ls.len() {
        Ok(Seq::empty())
    } else {
        match bazel_scan(ls, n - 1, category) {
            Err(e) => Err(e),
            Ok(ts) => {
                let t = trim(ls[n - 1]);
                if t.len() == 0 {
                    Ok(ts)
                } else {
                    match bazel_line(t, category) {
                        Err(e) => Err(e),
                        Ok(None) => Ok(ts),
                        Ok(Some(x)) => Ok(ts.push(x)),
                    }
                }
            },
        }
    }
}

/// Once a line has failed, the scan stays failed with that line's error.
proof fn lemma_bazel_scan_err(ls: Seq<Seq<char>>, k: int, n: int, category: Seq<char>)
    requires
        0 < k <= n <= ls.len(),
        bazel_scan(ls, k, category) is Err,
    ensures
        bazel_scan(ls, n, category) == bazel_scan(ls, k, category),
    decreases n - k,
{
    if n > k {
        lemma_bazel_scan_err(ls, k, n - 1, category);
    }
}

/// The targets of the whole output, in the order listed.
pub open spec fn bazel_targets(output: Seq<char>, category: Seq<char>) -> Result<Seq<BazelTargetView>, Seq<char>> {
    bazel_scan(lines(output), lines(output).len() as int, category)
}

fn bazel_target_exec(label: String, package: String, name: String, ty: BazelTargetType, category: &str) -> (r:
    BazelTarget)
    ensures
        r@ == bazel_target(label@, package@, name@, ty, category@),
{
    let pretty = format_display_name(name.as_str());
    let display_name = if package.as_str().is_empty() {
        pretty
    } else {
        let mut d = package;
        d.append(": ");
        d.append(pretty.as_str());
        d
    };
    let (description, emoji) = match ty {
        BazelTargetType::Binary => {
            let mut d = String::from_str("bazel run ");
            d.append(label.as_str());
            (d, String::from_str("📦"))
        },
        BazelTargetType::Test => {
            let mut d = String::from_str("bazel test ");
            d.append(label.as_str());
            (d, String::from_str("📝"))
        },
    };
    BazelTarget {
        name: label.clone(),
        display_name,
        category: String::from_str(category),
        description,
        emoji: Some(emoji),
        ignored: false,
        target_type: ty,
        label,
    }
}

/// Reads `bazel query --output=label_kind` output into binary and test
/// targets, binaries first, each kind sorted by label. The first line that
/// is not `<rule_kind> rule <label>`, or whose label cannot be read, makes
/// the whole result an error.
pub fn parse_bazel_query_output(output: &str, category: &str) -> (r: Result<Vec<BazelTarget>, ParseError>)
    ensures
        match (r, bazel_targets(output@, category@)) {
            (Ok(v), Ok(s)) => item_views(v@) == stable_sort::<BazelTarget>(s),
            (Err(e), Err(m)) => e.message@ == m,
            _ => false,
        },
{
    let ls = str_lines(output);
    let ghost lv = views(ls@);
    let mut targets: Vec<BazelTarget> = Vec::new();
    assert(item_views(targets@) =~= Seq::<BazelTargetView>::empty());
    let mut i: usize = 0;
    while i < ls.len()
        invariant
            i <= ls@.len(),
            lv == views(ls@),
            lv == lines(output@),
            bazel_scan(lv, i as int, category@) == Ok::<Seq<BazelTargetView>, Seq<char>>(
                item_views(targets@),
            ),
        decreases ls.len() - i,
    {
        let t = trim_exec(ls[i].as_slice());
        assert(ls@[i as int]@ == lv[i as int]);
        if t.len() > 0 {
            let line = from_chars(t.as_slice());
            match parse_label_kind_line(line.as_str()) {
                Err(e) => {
                    proof {
                        lemma_bazel_scan_err(lv, i + 1, lv.len() as int, category@);
                    }
                    return Err(e);
                },
                Ok((kind, label)) => {
                    let kc = to_chars(kind.as_str());
                    let is_bin = ends_with_lit(kc.as_slice(), "_binary");
                    let is_test = ends_with_lit(kc.as_slice(), "_test");
                    if is_bin || is_test {
                        let ty = if is_bin {
                            BazelTargetType::Binary
                        } else {
                            BazelTargetType::Test
                        };
                        match parse_label(label.as_str()) {
                            Err(e) => {
                                proof {
                                    lemma_bazel_scan_err(lv, i + 1, lv.len() as int, category@);
                                }
                                return Err(e);
                            },
                            Ok((package, name)) => {
                                let target = bazel_target_exec(label, package, name, ty, category);
                                let ghost old_targets = item_views(targets@);
                                targets.push(target);
                                assert(item_views(targets@) =~= old_targets.push(target@));
                            },
                        }
                    }
                },
            }
        }
        i = i + 1;
    }
    Ok(sort_stable(targets))
}

} // verus!
