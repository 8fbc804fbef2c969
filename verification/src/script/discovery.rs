//! Kinds of script sources, display names and discovery of script files.
use crate::paths::{
    extension_of, file_name_of, file_stem_of, parent_of, path_eq, path_extension, path_file_name,
    path_file_stem, path_parent, same_path,
};
use crate::script::error::ParseError;
use crate::text::{
    eq_lit, from_chars, is_word, is_ws, join, join_strings, lemma_join_chars, lemma_words_from_chars,
    lemma_words_of_join, slice_to_vec, split_words, string_views, to_chars, views, words, words_from,
};
use vstd::prelude::*;

verus! {

/// The kind of file a runnable item comes from.
#[derive(Debug, Clone, Copy, PartialEq, Eq, Structural)]
pub enum ScriptType {
    Bazel,
    Bash,
    CargoToml,
    DevboxJson,
    Gradle,
    Just,
    Makefile,
    NxJson,
    PackageJson,
    Task,
    Terraform,
}

/// What `char::to_uppercase` gives for a character.
pub uninterp spec fn unicode_upper(c: char) -> Seq<char>;

/// What `str::to_lowercase` gives for a text.
pub uninterp spec fn unicode_lower(s: Seq<char>) -> Seq<char>;

/// A character of the ASCII range.
pub open spec fn is_ascii_char(c: char) -> bool {
    (c as u32) < 128
}

/// A text of ASCII characters only.
pub open spec fn is_ascii_text(s: Seq<char>) -> bool {
    forall|k: int| 0 <= k < s.len() ==> is_ascii_char(#[trigger] s[k])
}

/// ASCII uppercase: `a` to `z` become `A` to `Z`; other characters stay.
pub open spec fn ascii_upper(c: char) -> char {
    if 'a' <= c && c <= 'z' {
        ((c as u32) - 32) as char
    } else {
        c
    }
}

/// ASCII lowercase: `A` to `Z` become `a` to `z`; other characters stay.
pub open spec fn ascii_lower(c: char) -> char {
    if 'A' <= c && c <= 'Z' {
        ((c as u32) + 32) as char
    } else {
        c
    }
}

/// std's `char::to_uppercase`, collected: the uppercase mapping of `c`, which
/// its documentation says is one or more characters; for an ASCII character
/// it is the one ASCII uppercase character.
#[verifier::external_body]
pub(crate) fn char_to_upper(c: char) -> (r: String)
    ensures
        r@ == unicode_upper(c),
        r@.len() >= 1,
        is_ascii_char(c) ==> r@ == seq![ascii_upper(c)],
{
    c.to_uppercase().collect()
}

/// std's `str::to_lowercase`: the lowercase mapping of the whole text; an
/// ASCII text is lowercased character by character.
#[verifier::external_body]
pub(crate) fn str_to_lower(s: &str) -> (r: String)
    ensures
        r@ == unicode_lower(s@),
        is_ascii_text(s@) ==> r@ == s@.map_values(|c: char| ascii_lower(c)),
{
    s.to_lowercase()
}

/// Underscores, hyphens and dots become spaces.
pub open spec fn separators_to_spaces(s: Seq<char>) -> Seq<char> {
    s.map_values(|c: char| if c == '_' || c == '-' || c == '.' { ' ' } else { c })
}

/// The first character uppercased, the rest lowercased.
pub open spec fn capitalize(w: Seq<char>) -> Seq<char> {
    if w.len() == 0 {
        Seq::empty()
    } else {
        unicode_upper(w[0]) + unicode_lower(w.drop_first())
    }
}

/// The display form of a name: separators become spaces, each word is
/// capitalized, and the words are joined by single spaces.
pub open spec fn display_name_of(s: Seq<char>) -> Seq<char> {
    join(words(separators_to_spaces(s)).map_values(|w: Seq<char>| capitalize(w)), " "@)
}

/// `capitalize` on an ASCII word: the first character in ASCII uppercase,
/// the rest in ASCII lowercase.
pub open spec fn ascii_capitalize(w: Seq<char>) -> Seq<char> {
    if w.len() == 0 {
        Seq::empty()
    } else {
        seq![ascii_upper(w[0])] + w.drop_first().map_values(|c: char| ascii_lower(c))
    }
}

/// `display_name_of` on an ASCII name.
pub open spec fn ascii_display_name(s: Seq<char>) -> Seq<char> {
    join(words(separators_to_spaces(s)).map_values(|w: Seq<char>| ascii_capitalize(w)), " "@)
}

/// One of the characters that name parts are separated by.
pub open spec fn is_separator(c: char) -> bool {
    c == '_' || c == '-' || c == '.'
}

/// ASCII case mapping keeps a character ASCII, keeps whether it is
/// whitespace or a separator, and mapping twice maps once.
proof fn lemma_ascii_case(c: char)
    requires
        is_ascii_char(c),
    ensures
        is_ascii_char(ascii_upper(c)),
        is_ascii_char(ascii_lower(c)),
        is_ws(ascii_upper(c)) == is_ws(c),
        is_ws(ascii_lower(c)) == is_ws(c),
        is_separator(ascii_upper(c)) == is_separator(c),
        is_separator(ascii_lower(c)) == is_separator(c),
        ascii_upper(ascii_upper(c)) == ascii_upper(c),
        ascii_lower(ascii_lower(c)) == ascii_lower(c),
{
}

/// Mapping an ASCII text's separators to spaces leaves an ASCII text
/// without separators.
proof fn lemma_separators_ascii(s: Seq<char>)
    requires
        is_ascii_text(s),
    ensures
        forall|k: int| 0 <= k < separators_to_spaces(s).len() ==> ({
            let c = #[trigger] separators_to_spaces(s)[k];
            is_ascii_char(c) && !is_separator(c)
        }),
{
}

/// The words of an ASCII name, read with separators as spaces, are ASCII
/// words without separators.
proof fn lemma_separated_words(s: Seq<char>)
    requires
        is_ascii_text(s),
    ensures
        forall|j: int| 0 <= j < words(separators_to_spaces(s)).len() ==> {
            let w = #[trigger] words(separators_to_spaces(s))[j];
            &&& is_word(w)
            &&& is_ascii_text(w)
            &&& forall|m: int| 0 <= m < w.len() ==> !is_separator(#[trigger] w[m])
        },
{
    let t = separators_to_spaces(s);
    lemma_separators_ascii(s);
    let p = |c: char| is_ascii_char(c) && !is_separator(c);
    assert forall|k: int| 0 <= k < t.len() implies p(#[trigger] t[k]) by {}
    lemma_words_from_chars(t, 0, p);
    let ws = words(t);
    assert forall|j: int| 0 <= j < ws.len() implies {
        let w = #[trigger] ws[j];
        &&& is_word(w)
        &&& is_ascii_text(w)
        &&& forall|m: int| 0 <= m < w.len() ==> !is_separator(#[trigger] w[m])
    } by {
        let w = ws[j];
        assert forall|m: int| 0 <= m < w.len() implies is_ascii_char(#[trigger] w[m]) && !is_separator(w[m]) by {
            assert(p(ws[j][m]));
        }
    }
}

/// Capitalizing an ASCII word twice capitalizes it once, and keeps it an
/// ASCII word without separators.
proof fn lemma_ascii_capitalize(w: Seq<char>)
    requires
        is_word(w),
        is_ascii_text(w),
        forall|m: int| 0 <= m < w.len() ==> !is_separator(#[trigger] w[m]),
    ensures
        is_word(ascii_capitalize(w)),
        is_ascii_text(ascii_capitalize(w)),
        forall|m: int| 0 <= m < ascii_capitalize(w).len() ==> !is_separator(#[trigger] ascii_capitalize(w)[m]),
        ascii_capitalize(ascii_capitalize(w)) == ascii_capitalize(w),
{
    let c = ascii_capitalize(w);
    assert forall|m: int| 0 <= m < c.len() implies {
        &&& !is_ws(#[trigger] c[m])
        &&& is_ascii_char(c[m])
        &&& !is_separator(c[m])
    } by {
        if m == 0 {
            lemma_ascii_case(w[0]);
        } else {
            assert(c[m] == ascii_lower(w[m]));
            lemma_ascii_case(w[m]);
        }
    }
    lemma_ascii_case(w[0]);
    assert forall|m: int| 1 <= m < c.len() implies #[trigger] ascii_lower(c[m]) == c[m] by {
        assert(c[m] == ascii_lower(w[m]));
        lemma_ascii_case(w[m]);
    }
    assert(ascii_capitalize(c) =~= c);
}

/// Formatting an ASCII name gives an ASCII name, and formatting that again
/// changes nothing.
pub proof fn lemma_display_name_idempotent(s: Seq<char>)
    requires
        is_ascii_text(s),
    ensures
        is_ascii_text(ascii_display_name(s)),
        ascii_display_name(ascii_display_name(s)) == ascii_display_name(s),
{
    let ws = words(separators_to_spaces(s));
    lemma_separated_words(s);
    let cs = ws.map_values(|w: Seq<char>| ascii_capitalize(w));
    assert forall|j: int| 0 <= j < cs.len() implies {
        let c = #[trigger] cs[j];
        &&& is_word(c)
        &&& is_ascii_text(c)
        &&& forall|m: int| 0 <= m < c.len() ==> !is_separator(#[trigger] c[m])
        &&& ascii_capitalize(c) == c
    } by {
        lemma_ascii_capitalize(ws[j]);
    }
    let d = join(cs, " "@);
    reveal_strlit(" ");
    let p = |c: char| is_ascii_char(c) && !is_separator(c);
    assert forall|j: int, m: int| 0 <= j < cs.len() && 0 <= m < cs[j].len() implies p(#[trigger] cs[j][m]) by {
        assert(is_ascii_text(cs[j]));
    }
    lemma_join_chars(cs, " "@, p);
    assert(is_ascii_text(d)) by {
        assert forall|k: int| 0 <= k < d.len() implies is_ascii_char(#[trigger] d[k]) by {
            assert(p(d[k]));
        }
    }
    assert(separators_to_spaces(d) =~= d) by {
        assert forall|k: int| 0 <= k < d.len() implies #[trigger] separators_to_spaces(d)[k] == d[k] by {
            assert(p(d[k]));
        }
    }
    assert(d.subrange(0, d.len() as int) =~= d);
    lemma_words_of_join(d, 0, cs);
    assert(cs.map_values(|w: Seq<char>| ascii_capitalize(w)) =~= cs);
}

/// The words of a name once `_`, `-` and `.` are read as spaces.
pub fn display_words(name: &str) -> (r: Vec<Vec<char>>)
    ensures
        views(r@) == words(separators_to_spaces(name@)),
{
    let cs = to_chars(name);
    let mut out: Vec<char> = Vec::new();
    let mut i: usize = 0;
    while i < cs.len()
        invariant
            i <= cs@.len(),
            cs@ == name@,
            out@ == separators_to_spaces(cs@.take(i as int)),
        decreases cs.len() - i,
    {
        let c = cs[i];
        if c == '_' || c == '-' || c == '.' {
            out.push(' ');
        } else {
            out.push(c);
        }
        assert(separators_to_spaces(cs@.take(i + 1)) =~= separators_to_spaces(cs@.take(i as int)).push(
            out@.last(),
        ));
        i = i + 1;
    }
    assert(cs@.take(cs@.len() as int) =~= cs@);
    split_words(out.as_slice())
}

/// Capitalizes one word: `char::to_uppercase` of its first character followed
/// by `str::to_lowercase` of the rest.
pub fn capitalize_word(w: &[char]) -> (r: String)
    ensures
        r@ == capitalize(w@),
        is_ascii_text(w@) ==> r@ == ascii_capitalize(w@),
{
    if w.len() == 0 {
        return String::new();
    }
    let first = char_to_upper(w[0]);
    let rest_chars = slice_to_vec(w, 1, w.len());
    let rest = from_chars(rest_chars.as_slice());
    let lower = str_to_lower(rest.as_str());
    let mut r = first;
    r.append(lower.as_str());
    assert(w@.subrange(1, w@.len() as int) =~= w@.drop_first());
    proof {
        if is_ascii_text(w@) {
            assert(is_ascii_char(w@[0]));
            assert(is_ascii_text(rest@)) by {
                assert forall|k: int| 0 <= k < rest@.len() implies is_ascii_char(#[trigger] rest@[k]) by {
                    assert(rest@[k] == w@[k + 1]);
                }
            }
            assert(r@ =~= ascii_capitalize(w@));
        }
    }
    r
}

/// Formats a file or function name for display: `_`, `-` and `.` become
/// spaces and each word is capitalized ("example_file" becomes "Example File").
pub fn format_display_name(name: &str) -> (r: String)
    ensures
        r@ == display_name_of(name@),
        is_ascii_text(name@) ==> r@ == ascii_display_name(name@),
{
    let ws = display_words(name);
    let ghost wv = words(separators_to_spaces(name@));
    proof {
        if is_ascii_text(name@) {
            lemma_separated_words(name@);
        }
    }
    let mut parts: Vec<String> = Vec::new();
    let mut i: usize = 0;
    while i < ws.len()
        invariant
            i <= ws@.len(),
            views(ws@) == wv,
            string_views(parts@) == wv.take(i as int).map_values(|w: Seq<char>| capitalize(w)),
            is_ascii_text(name@) ==> forall|j: int| 0 <= j < wv.len() ==> is_ascii_text(#[trigger] wv[j]),
            is_ascii_text(name@) ==> string_views(parts@) == wv.take(i as int).map_values(
                |w: Seq<char>| ascii_capitalize(w),
            ),
        decreases ws.len() - i,
    {
        let p = capitalize_word(ws[i].as_slice());
        assert(ws@[i as int]@ == wv[i as int]);
        let ghost old_parts = string_views(parts@);
        parts.push(p);
        assert(string_views(parts@) =~= old_parts.push(capitalize(wv[i as int])));
        assert(string_views(parts@) =~= wv.take(i + 1).map_values(|w: Seq<char>| capitalize(w)));
        proof {
            if is_ascii_text(name@) {
                assert(is_ascii_text(wv[i as int]));
                assert(string_views(parts@) =~= wv.take(i + 1).map_values(|w: Seq<char>| ascii_capitalize(w)));
            }
        }
        i = i + 1;
    }
    assert(wv.take(ws@.len() as int) =~= wv);
    join_strings(parts.as_slice(), " ")
}

// ---------------------------------------------------------------------------
// Script files
// ---------------------------------------------------------------------------

/// A file (or, for Terraform, Gradle and Bazel, a directory) that provides
/// runnable items.
#[derive(Debug, Clone)]
pub struct ScriptFile {
    pub path: String,
    pub name: String,
    pub category: String,
    pub display_name: String,
    pub script_type: ScriptType,
}

/// The plain-value form of a [`ScriptFile`].
pub struct ScriptFileView {
    pub path: Seq<char>,
    pub name: Seq<char>,
    pub category: Seq<char>,
    pub display_name: Seq<char>,
    pub script_type: ScriptType,
}

impl View for ScriptFile {
    type V = ScriptFileView;

    open spec fn view(&self) -> ScriptFileView {
        ScriptFileView {
            path: self.path@,
            name: self.name@,
            category: self.category@,
            display_name: self.display_name@,
            script_type: self.script_type,
        }
    }
}

/// Which runners were found installed.
#[derive(Debug, Clone, Copy)]
pub struct ToolAvailability {
    pub devbox: bool,
    pub task: bool,
    pub make: bool,
    pub just: bool,
    pub cargo: bool,
    pub nx: bool,
    pub gradle: bool,
    pub bazel: bool,
    pub terraform: bool,
}

/// An entry met while walking a directory.
#[derive(Debug, Clone)]
pub struct WalkEntry {
    pub path: String,
    pub is_file: bool,
}

/// The kind of a file known by its name.
pub open spec fn named_kind(f: Seq<char>) -> Option<ScriptType> {
    if f == "package.json"@ {
        Some(ScriptType::PackageJson)
    } else if f == "devbox.json"@ {
        Some(ScriptType::DevboxJson)
    } else if f == "taskfile.dist.yaml"@ || f == "Taskfile.dist.yaml"@ || f == "taskfile.dist.yml"@
        || f == "Taskfile.dist.yml"@ || f == "taskfile.yaml"@ || f == "Taskfile.yaml"@ || f
        == "taskfile.yml"@ || f == "Taskfile.yml"@ {
        Some(ScriptType::Task)
    } else if f == "Makefile"@ || f == "makefile"@ || f == "GNUmakefile"@ {
        Some(ScriptType::Makefile)
    } else if f == "justfile"@ || f == "Justfile"@ || f == ".justfile"@ {
        Some(ScriptType::Just)
    } else if f == "Cargo.toml"@ {
        Some(ScriptType::CargoToml)
    } else if f == "nx.json"@ {
        Some(ScriptType::NxJson)
    } else if f == "build.gradle"@ || f == "build.gradle.kts"@ || f == "settings.gradle"@ || f
        == "settings.gradle.kts"@ {
        Some(ScriptType::Gradle)
    } else if f == "BUILD"@ || f == "BUILD.bazel"@ || f == "MODULE.bazel"@ || f == "WORKSPACE"@ || f
        == "WORKSPACE.bazel"@ {
        Some(ScriptType::Bazel)
    } else {
        None
    }
}

/// Every file name that a runner reads is known, as that runner's kind:
/// `package.json`, `devbox.json`, the eight Taskfile names, the three
/// Makefile names, the three justfile names, `Cargo.toml`, `nx.json`, the
/// Gradle build and settings files and the Bazel workspace and build files.
pub proof fn lemma_named_kinds()
    ensures
        named_kind("package.json"@) == Some(ScriptType::PackageJson),
        named_kind("devbox.json"@) == Some(ScriptType::DevboxJson),
        named_kind("taskfile.dist.yaml"@) == Some(ScriptType::Task),
        named_kind("Taskfile.dist.yaml"@) == Some(ScriptType::Task),
        named_kind("taskfile.dist.yml"@) == Some(ScriptType::Task),
        named_kind("Taskfile.dist.yml"@) == Some(ScriptType::Task),
        named_kind("taskfile.yaml"@) == Some(ScriptType::Task),
        named_kind("Taskfile.yaml"@) == Some(ScriptType::Task),
        named_kind("taskfile.yml"@) == Some(ScriptType::Task),
        named_kind("Taskfile.yml"@) == Some(ScriptType::Task),
        named_kind("Makefile"@) == Some(ScriptType::Makefile),
        named_kind("makefile"@) == Some(ScriptType::Makefile),
        named_kind("GNUmakefile"@) == Some(ScriptType::Makefile),
        named_kind("justfile"@) == Some(ScriptType::Just),
        named_kind("Justfile"@) == Some(ScriptType::Just),
        named_kind(".justfile"@) == Some(ScriptType::Just),
        named_kind("Cargo.toml"@) == Some(ScriptType::CargoToml),
        named_kind("nx.json"@) == Some(ScriptType::NxJson),
        named_kind("build.gradle"@) == Some(ScriptType::Gradle),
        named_kind("build.gradle.kts"@) == Some(ScriptType::Gradle),
        named_kind("settings.gradle"@) == Some(ScriptType::Gradle),
        named_kind("settings.gradle.kts"@) == Some(ScriptType::Gradle),
        named_kind("BUILD"@) == Some(ScriptType::Bazel),
        named_kind("BUILD.bazel"@) == Some(ScriptType::Bazel),
        named_kind("MODULE.bazel"@) == Some(ScriptType::Bazel),
        named_kind("WORKSPACE"@) == Some(ScriptType::Bazel),
        named_kind("WORKSPACE.bazel"@) == Some(ScriptType::Bazel),
{
    reveal_strlit("package.json");
    assert("package.json"@.len() == 12);
    reveal_strlit("devbox.json");
    assert("devbox.json"@.len() == 11);
    reveal_strlit("taskfile.dist.yaml");
    assert("taskfile.dist.yaml"@.len() == 18);
    reveal_strlit("Taskfile.dist.yaml");
    assert("Taskfile.dist.yaml"@.len() == 18);
    reveal_strlit("taskfile.dist.yml");
    assert("taskfile.dist.yml"@.len() == 17);
    reveal_strlit("Taskfile.dist.yml");
    assert("Taskfile.dist.yml"@.len() == 17);
    reveal_strlit("taskfile.yaml");
    assert("taskfile.yaml"@.len() == 13);
    reveal_strlit("Taskfile.yaml");
    assert("Taskfile.yaml"@.len() == 13);
    reveal_strlit("taskfile.yml");
    assert("taskfile.yml"@.len() == 12);
    reveal_strlit("Taskfile.yml");
    assert("Taskfile.yml"@.len() == 12);
    reveal_strlit("Makefile");
    assert("Makefile"@.len() == 8);
    reveal_strlit("makefile");
    assert("makefile"@.len() == 8);
    reveal_strlit("GNUmakefile");
    assert("GNUmakefile"@.len() == 11);
    reveal_strlit("justfile");
    assert("justfile"@.len() == 8);
    reveal_strlit("Justfile");
    assert("Justfile"@.len() == 8);
    reveal_strlit(".justfile");
    assert(".justfile"@.len() == 9);
    reveal_strlit("Cargo.toml");
    assert("Cargo.toml"@.len() == 10);
    reveal_strlit("nx.json");
    assert("nx.json"@.len() == 7);
    reveal_strlit("build.gradle");
    assert("build.gradle"@.len() == 12);
    reveal_strlit("build.gradle.kts");
    assert("build.gradle.kts"@.len() == 16);
    reveal_strlit("settings.gradle");
    assert("settings.gradle"@.len() == 15);
    reveal_strlit("settings.gradle.kts");
    assert("settings.gradle.kts"@.len() == 19);
    reveal_strlit("BUILD");
    assert("BUILD"@.len() == 5);
    reveal_strlit("BUILD.bazel");
    assert("BUILD.bazel"@.len() == 11);
    reveal_strlit("MODULE.bazel");
    assert("MODULE.bazel"@.len() == 12);
    reveal_strlit("WORKSPACE");
    assert("WORKSPACE"@.len() == 9);
    reveal_strlit("WORKSPACE.bazel");
    assert("WORKSPACE.bazel"@.len() == 15);
    assert("Taskfile.dist.yaml"@ != "taskfile.dist.yaml"@) by { assert("Taskfile.dist.yaml"@[0] != "taskfile.dist.yaml"@[0]); }
    assert("Taskfile.dist.yml"@ != "taskfile.dist.yml"@) by { assert("Taskfile.dist.yml"@[0] != "taskfile.dist.yml"@[0]); }
    assert("Taskfile.yaml"@ != "taskfile.yaml"@) by { assert("Taskfile.yaml"@[0] != "taskfile.yaml"@[0]); }
    assert("taskfile.yml"@ != "package.json"@) by { assert("taskfile.yml"@[0] != "package.json"@[0]); }
    assert("Taskfile.yml"@ != "package.json"@) by { assert("Taskfile.yml"@[0] != "package.json"@[0]); }
    assert("Taskfile.yml"@ != "taskfile.yml"@) by { assert("Taskfile.yml"@[0] != "taskfile.yml"@[0]); }
    assert("makefile"@ != "Makefile"@) by { assert("makefile"@[0] != "Makefile"@[0]); }
    assert("GNUmakefile"@ != "devbox.json"@) by { assert("GNUmakefile"@[0] != "devbox.json"@[0]); }
    assert("justfile"@ != "Makefile"@) by { assert("justfile"@[0] != "Makefile"@[0]); }
    assert("justfile"@ != "makefile"@) by { assert("justfile"@[0] != "makefile"@[0]); }
    assert("Justfile"@ != "Makefile"@) by { assert("Justfile"@[0] != "Makefile"@[0]); }
    assert("Justfile"@ != "makefile"@) by { assert("Justfile"@[0] != "makefile"@[0]); }
    assert("Justfile"@ != "justfile"@) by { assert("Justfile"@[0] != "justfile"@[0]); }
    assert("build.gradle"@ != "package.json"@) by { assert("build.gradle"@[0] != "package.json"@[0]); }
    assert("build.gradle"@ != "taskfile.yml"@) by { assert("build.gradle"@[0] != "taskfile.yml"@[0]); }
    assert("build.gradle"@ != "Taskfile.yml"@) by { assert("build.gradle"@[0] != "Taskfile.yml"@[0]); }
    assert("BUILD.bazel"@ != "devbox.json"@) by { assert("BUILD.bazel"@[0] != "devbox.json"@[0]); }
    assert("BUILD.bazel"@ != "GNUmakefile"@) by { assert("BUILD.bazel"@[0] != "GNUmakefile"@[0]); }
    assert("MODULE.bazel"@ != "package.json"@) by { assert("MODULE.bazel"@[0] != "package.json"@[0]); }
    assert("MODULE.bazel"@ != "taskfile.yml"@) by { assert("MODULE.bazel"@[0] != "taskfile.yml"@[0]); }
    assert("MODULE.bazel"@ != "Taskfile.yml"@) by { assert("MODULE.bazel"@[0] != "Taskfile.yml"@[0]); }
    assert("MODULE.bazel"@ != "build.gradle"@) by { assert("MODULE.bazel"@[0] != "build.gradle"@[0]); }
    assert("WORKSPACE"@ != ".justfile"@) by { assert("WORKSPACE"@[0] != ".justfile"@[0]); }
    assert("WORKSPACE.bazel"@ != "settings.gradle"@) by { assert("WORKSPACE.bazel"@[0] != "settings.gradle"@[0]); }
}

/// The kind of a file known by its name.
pub fn named_kind_exec(f: &str) -> (r: Option<ScriptType>)
    ensures
        r == named_kind(f@),
{
    let c = to_chars(f);
    let c = c.as_slice();
    if eq_lit(c, "package.json") {
        Some(ScriptType::PackageJson)
    } else if eq_lit(c, "devbox.json") {
        Some(ScriptType::DevboxJson)
    } else if eq_lit(c, "taskfile.dist.yaml") || eq_lit(c, "Taskfile.dist.yaml") || eq_lit(c, "taskfile.dist.yml")
        || eq_lit(c, "Taskfile.dist.yml") || eq_lit(c, "taskfile.yaml") || eq_lit(c, "Taskfile.yaml")
        || eq_lit(c, "taskfile.yml") || eq_lit(c, "Taskfile.yml") {
        Some(ScriptType::Task)
    } else if eq_lit(c, "Makefile") || eq_lit(c, "makefile") || eq_lit(c, "GNUmakefile") {
        Some(ScriptType::Makefile)
    } else if eq_lit(c, "justfile") || eq_lit(c, "Justfile") || eq_lit(c, ".justfile") {
        Some(ScriptType::Just)
    } else if eq_lit(c, "Cargo.toml") {
        Some(ScriptType::CargoToml)
    } else if eq_lit(c, "nx.json") {
        Some(ScriptType::NxJson)
    } else if eq_lit(c, "build.gradle") || eq_lit(c, "build.gradle.kts") || eq_lit(c, "settings.gradle")
        || eq_lit(c, "settings.gradle.kts") {
        Some(ScriptType::Gradle)
    } else if eq_lit(c, "BUILD") || eq_lit(c, "BUILD.bazel") || eq_lit(c, "MODULE.bazel") || eq_lit(c, "WORKSPACE")
        || eq_lit(c, "WORKSPACE.bazel") {
        Some(ScriptType::Bazel)
    } else {
        None
    }
}

/// The runner for items of this kind is installed (npm and bash are taken
/// as given).
pub open spec fn tool_available(t: ScriptType, tools: ToolAvailability) -> bool {
    match t {
        ScriptType::DevboxJson => tools.devbox,
        ScriptType::Task => tools.task,
        ScriptType::Makefile => tools.make,
        ScriptType::Just => tools.just,
        ScriptType::CargoToml => tools.cargo,
        ScriptType::NxJson => tools.nx,
        ScriptType::Gradle => tools.gradle,
        ScriptType::Bazel => tools.bazel,
        ScriptType::Terraform => tools.terraform,
        _ => true,
    }
}

fn tool_available_exec(t: ScriptType, tools: ToolAvailability) -> (r: bool)
    ensures
        r == tool_available(t, tools),
{
    match t {
        ScriptType::DevboxJson => tools.devbox,
        ScriptType::Task => tools.task,
        ScriptType::Makefile => tools.make,
        ScriptType::Just => tools.just,
        ScriptType::CargoToml => tools.cargo,
        ScriptType::NxJson => tools.nx,
        ScriptType::Gradle => tools.gradle,
        ScriptType::Bazel => tools.bazel,
        ScriptType::Terraform => tools.terraform,
        _ => true,
    }
}

/// The name used when the directory of a file of this kind has none.
pub open spec fn fallback_name(t: ScriptType) -> Seq<char> {
    match t {
        ScriptType::PackageJson => "node"@,
        ScriptType::DevboxJson => "devbox"@,
        ScriptType::Task => "task"@,
        ScriptType::Makefile => "make"@,
        ScriptType::Just => "just"@,
        ScriptType::CargoToml => "cargo"@,
        ScriptType::NxJson => "nx"@,
        ScriptType::Gradle => "gradle"@,
        ScriptType::Bazel => "bazel"@,
        ScriptType::Terraform => "terraform"@,
        ScriptType::Bash => "bash"@,
    }
}

fn fallback_name_exec(t: ScriptType) -> (r: String)
    ensures
        r@ == fallback_name(t),
{
    String::from_str(
        match t {
            ScriptType::PackageJson => "node",
            ScriptType::DevboxJson => "devbox",
            ScriptType::Task => "task",
            ScriptType::Makefile => "make",
            ScriptType::Just => "just",
            ScriptType::CargoToml => "cargo",
            ScriptType::NxJson => "nx",
            ScriptType::Gradle => "gradle",
            ScriptType::Bazel => "bazel",
            ScriptType::Terraform => "terraform",
            ScriptType::Bash => "bash",
        },
    )
}

/// The emoji (and space) before the display name of a script file.
pub open spec fn display_prefix(t: ScriptType) -> Seq<char> {
    match t {
        ScriptType::Task => "📋 "@,
        ScriptType::Makefile => "🔨 "@,
        ScriptType::Just => "⚡ "@,
        ScriptType::CargoToml => "🦀 "@,
        ScriptType::NxJson => "🔷 "@,
        ScriptType::Gradle => "🐘 "@,
        ScriptType::Bazel => "🌿 "@,
        ScriptType::Terraform => "🏗️ "@,
        _ => Seq::empty(),
    }
}

/// The display name of a script file named `name`.
pub open spec fn file_display_name(t: ScriptType, name: Seq<char>) -> Seq<char> {
    display_prefix(t) + display_name_of(name)
}

fn file_display_name_exec(t: ScriptType, name: &str) -> (r: String)
    ensures
        r@ == file_display_name(t, name@),
{
    let mut r = match t {
        ScriptType::Task => String::from_str("📋 "),
        ScriptType::Makefile => String::from_str("🔨 "),
        ScriptType::Just => String::from_str("⚡ "),
        ScriptType::CargoToml => String::from_str("🦀 "),
        ScriptType::NxJson => String::from_str("🔷 "),
        ScriptType::Gradle => String::from_str("🐘 "),
        ScriptType::Bazel => String::from_str("🌿 "),
        ScriptType::Terraform => String::from_str("🏗️ "),
        _ => String::new(),
    };
    let pretty = format_display_name(name);
    r.append(pretty.as_str());
    r
}

/// The name of the directory holding `path`, or `fallback`.
pub open spec fn parent_name(path: Seq<char>, fallback: Seq<char>) -> Seq<char> {
    match parent_of(path) {
        Some(p) => match file_name_of(p) {
            Some(n) => n,
            None => fallback,
        },
        None => fallback,
    }
}

fn parent_name_exec(path: &str, fallback: String) -> (r: String)
    ensures
        r@ == parent_name(path@, fallback@),
{
    match path_parent(path) {
        Some(p) => match path_file_name(p.as_str()) {
            Some(n) => n,
            None => fallback,
        },
        None => fallback,
    }
}

/// A script file of kind `t` at `path`, named `name`.
pub open spec fn script_file(path: Seq<char>, name: Seq<char>, t: ScriptType) -> ScriptFileView {
    ScriptFileView { path: path, name: name, category: name, display_name: file_display_name(t, name), script_type: t }
}

fn script_file_exec(path: String, name: String, t: ScriptType) -> (r: ScriptFile)
    ensures
        r@ == script_file(path@, name@, t),
{
    let display_name = file_display_name_exec(t, name.as_str());
    let category = name.clone();
    ScriptFile { path, name, category, display_name, script_type: t }
}

/// The category of a bash script at `path` found by a walk of `root`: its
/// stem (`stem`) when it lies directly in `root`, else the name of the
/// subdirectory holding it.
pub open spec fn bash_category(path: Seq<char>, root: Seq<char>, stem: Seq<char>) -> Seq<char> {
    match parent_of(path) {
        Some(p) => if same_path(p, root) {
            stem
        } else {
            match file_name_of(p) {
                Some(d) => d,
                None => stem,
            }
        },
        None => stem,
    }
}

/// A bash script at `path` named by its stem, in `category` (which also
/// gives the display name).
pub open spec fn bash_script_file(path: Seq<char>, stem: Seq<char>, category: Seq<char>) -> ScriptFileView {
    ScriptFileView {
        path: path,
        name: stem,
        category: category,
        display_name: file_display_name(ScriptType::Bash, category),
        script_type: ScriptType::Bash,
    }
}

fn bash_script_file_exec(path: String, stem: String, root: &str) -> (r: ScriptFile)
    ensures
        r@ == bash_script_file(path@, stem@, bash_category(path@, root@, stem@)),
{
    let category = match path_parent(path.as_str()) {
        Some(p) => if path_eq(p.as_str(), root) {
            stem.clone()
        } else {
            match path_file_name(p.as_str()) {
                Some(d) => d,
                None => stem.clone(),
            }
        },
        None => stem.clone(),
    };
    let display_name = file_display_name_exec(ScriptType::Bash, category.as_str());
    ScriptFile { path, name: stem, category, display_name, script_type: ScriptType::Bash }
}

/// A directory equal (as a path) to one already registered.
pub open spec fn seen_dir(dirs: Seq<Seq<char>>, d: Seq<char>) -> bool {
    exists|i: int| 0 <= i < dirs.len() && #[trigger] same_path(dirs[i], d)
}

fn seen_dir_exec(dirs: &Vec<String>, d: &str) -> (r: bool)
    ensures
        r == seen_dir(string_views(dirs@), d@),
{
    let mut i: usize = 0;
    while i < dirs.len()
        invariant
            i <= dirs@.len(),
            forall|k: int| 0 <= k < i ==> !#[trigger] same_path(string_views(dirs@)[k], d@),
        decreases dirs.len() - i,
    {
        if path_eq(dirs[i].as_str(), d) {
            assert(same_path(string_views(dirs@)[i as int], d@));
            return true;
        }
        i = i + 1;
    }
    false
}

/// The state of discovery over the walked entries.
pub struct DiscoveryScan {
    pub scripts: Seq<ScriptFileView>,
    pub terraform_dirs: Seq<Seq<char>>,
    pub gradle_dirs: Seq<Seq<char>>,
    pub bazel_dirs: Seq<Seq<char>>,
}

/// What one walked entry adds. Named files of an installed runner are
/// script files (one per directory for Gradle and Bazel, the directory
/// standing for them); `.sh` files are bash scripts named by their stem,
/// in the category of their stem directly in `root` and of their
/// subdirectory's name below it;
/// `.tf` files give one Terraform entry per directory. A `.sh` file without
/// a stem is an error.
pub open spec fn discovery_step(
    st: DiscoveryScan,
    path: Seq<char>,
    is_file: bool,
    root: Seq<char>,
    tools: ToolAvailability,
) -> Result<DiscoveryScan, Seq<char>> {
    let named = match file_name_of(path) {
        Some(f) => named_kind(f),
        None => None,
    };
    if !is_file {
        Ok(st)
    } else if named is Some {
        let t = named.unwrap();
        if !tool_available(t, tools) {
            Ok(st)
        } else if t == ScriptType::Gradle || t == ScriptType::Bazel {
            let dir = match parent_of(path) {
                Some(p) => p,
                None => root,
            };
            let dirs = if t == ScriptType::Gradle {
                st.gradle_dirs
            } else {
                st.bazel_dirs
            };
            if seen_dir(dirs, dir) {
                Ok(st)
            } else {
                let f = script_file(dir, parent_name(path, fallback_name(t)), t);
                if t == ScriptType::Gradle {
                    Ok(DiscoveryScan { scripts: st.scripts.push(f), gradle_dirs: dirs.push(dir), ..st })
                } else {
                    Ok(DiscoveryScan { scripts: st.scripts.push(f), bazel_dirs: dirs.push(dir), ..st })
                }
            }
        } else {
            Ok(DiscoveryScan { scripts: st.scripts.push(script_file(path, parent_name(path, fallback_name(t)), t)), ..st })
        }
    } else {
        match extension_of(path) {
            None => Ok(st),
            Some(ext) => if ext == "sh"@ {
                match file_stem_of(path) {
                    None => Err("Invalid filename for script: "@ + path),
                    Some(n) => Ok(
                        DiscoveryScan {
                            scripts: st.scripts.push(bash_script_file(path, n, bash_category(path, root, n))),
                            ..st
                        },
                    ),
                }
            } else if ext == "tf"@ && tools.terraform {
                let dir = match parent_of(path) {
                    Some(p) => p,
                    None => root,
                };
                if seen_dir(st.terraform_dirs, dir) {
                    Ok(st)
                } else {
                    let name = match file_name_of(dir) {
                        Some(n) => n,
                        None => "terraform"@,
                    };
                    Ok(DiscoveryScan {
                        scripts: st.scripts.push(script_file(dir, name, ScriptType::Terraform)),
                        terraform_dirs: st.terraform_dirs.push(dir),
                        ..st
                    })
                }
            } else {
                Ok(st)
            },
        }
    }
}

/// Discovery over the first `n` entries, stopping at the first error.
pub open spec fn discovery_scan(
    entries: Seq<WalkEntry>,
    n: int,
    root: Seq<char>,
    tools: ToolAvailability,
) -> Result<DiscoveryScan, Seq<char>>
    decreases n,
{
    if n <= 0 || n > entries.len() {
        Ok(DiscoveryScan { scripts: Seq::empty(), terraform_dirs: Seq::empty(), gradle_dirs: Seq::empty(), bazel_dirs: Seq::empty() })
    } else {
        match discovery_scan(entries, n - 1, root, tools) {
            Err(e) => Err(e),
            Ok(st) => discovery_step(st, entries[n - 1].path@, entries[n - 1].is_file, root, tools),
        }
    }
}

proof fn lemma_discovery_scan_err(entries: Seq<WalkEntry>, k: int, n: int, root: Seq<char>, tools: ToolAvailability)
    requires
        0 < k <= n <= entries.len(),
        discovery_scan(entries, k, root, tools) is Err,
    ensures
        discovery_scan(entries, n, root, tools) == discovery_scan(entries, k, root, tools),
    decreases n - k,
{
    if n > k {
        lemma_discovery_scan_err(entries, k, n - 1, root, tools);
    }
}

/// The script files found under a directory: none when it does not exist,
/// an error when it is not a directory, else those of the walked entries.
pub open spec fn discovered(
    dir: Seq<char>,
    exists: bool,
    is_dir: bool,
    entries: Seq<WalkEntry>,
    tools: ToolAvailability,
) -> Result<Seq<ScriptFileView>, Seq<char>> {
    if !exists {
        Ok(Seq::empty())
    } else if !is_dir {
        Err("Path '"@ + dir + "' exists but is not a directory"@)
    } else {
        match discovery_scan(entries, entries.len() as int, dir, tools) {
            Ok(st) => Ok(st.scripts),
            Err(e) => Err(e),
        }
    }
}

/// The kinds whose script file stands for a whole directory.
pub open spec fn per_directory(t: ScriptType) -> bool {
    t == ScriptType::Terraform || t == ScriptType::Gradle || t == ScriptType::Bazel
}

/// The directories registered for kind `t`.
pub open spec fn dirs_of(st: DiscoveryScan, t: ScriptType) -> Seq<Seq<char>> {
    if t == ScriptType::Terraform {
        st.terraform_dirs
    } else if t == ScriptType::Gradle {
        st.gradle_dirs
    } else {
        st.bazel_dirs
    }
}

/// No two entries of one directory kind have the same path.
pub open spec fn one_per_directory(scripts: Seq<ScriptFileView>) -> bool {
    forall|i: int, j: int|
        0 <= i < j < scripts.len() && per_directory(#[trigger] scripts[i].script_type) && scripts[i].script_type
            == #[trigger] scripts[j].script_type ==> !same_path(scripts[i].path, scripts[j].path)
}

spec fn scan_inv(st: DiscoveryScan) -> bool {
    &&& forall|k: int|
        0 <= k < st.scripts.len() && per_directory(#[trigger] st.scripts[k].script_type) ==> dirs_of(
            st,
            st.scripts[k].script_type,
        ).contains(st.scripts[k].path)
    &&& one_per_directory(st.scripts)
}

proof fn lemma_step_inv(st: DiscoveryScan, path: Seq<char>, is_file: bool, root: Seq<char>, tools: ToolAvailability)
    requires
        scan_inv(st),
    ensures
        discovery_step(st, path, is_file, root, tools) matches Ok(st2) ==> scan_inv(st2),
{
    if let Ok(st2) = discovery_step(st, path, is_file, root, tools) {
        if st2.scripts.len() > st.scripts.len() {
            let n = st.scripts.len() as int;
            let f = st2.scripts[n];
            assert(st2.scripts == st.scripts.push(f));
            if per_directory(f.script_type) {
                let t = f.script_type;
                let d = f.path;
                assert(!seen_dir(dirs_of(st, t), d));
                assert(dirs_of(st2, t) == dirs_of(st, t).push(d));
                assert forall|k: int| 0 <= k < n && #[trigger] st.scripts[k].script_type == t implies !same_path(
                    st.scripts[k].path,
                    d,
                ) by {
                    let m = dirs_of(st, t).index_of(st.scripts[k].path);
                    assert(dirs_of(st, t)[m] == st.scripts[k].path);
                    assert(!same_path(dirs_of(st, t)[m], d));
                }
                assert forall|k: int|
                    0 <= k < st2.scripts.len() && per_directory(#[trigger] st2.scripts[k].script_type) implies dirs_of(
                    st2,
                    st2.scripts[k].script_type,
                ).contains(st2.scripts[k].path) by {
                    if k < n {
                        let u = st.scripts[k].script_type;
                        assert(dirs_of(st, u).contains(st.scripts[k].path));
                        let m = dirs_of(st, u).index_of(st.scripts[k].path);
                        assert(dirs_of(st2, u)[m] == st.scripts[k].path);
                    } else {
                        assert(dirs_of(st2, t)[dirs_of(st, t).len() as int] == d);
                    }
                }
            } else {
                assert(forall|u: ScriptType| per_directory(u) ==> dirs_of(st2, u) == dirs_of(st, u));
                assert forall|k: int|
                    0 <= k < st2.scripts.len() && per_directory(#[trigger] st2.scripts[k].script_type) implies dirs_of(
                    st2,
                    st2.scripts[k].script_type,
                ).contains(st2.scripts[k].path) by {
                    assert(k < n);
                    assert(dirs_of(st, st.scripts[k].script_type).contains(st.scripts[k].path));
                }
            }
        }
    }
}

proof fn lemma_scan_inv(entries: Seq<WalkEntry>, n: int, root: Seq<char>, tools: ToolAvailability)
    ensures
        discovery_scan(entries, n, root, tools) matches Ok(st) ==> scan_inv(st),
    decreases n,
{
    if 0 < n <= entries.len() {
        lemma_scan_inv(entries, n - 1, root, tools);
        if let Ok(st) = discovery_scan(entries, n - 1, root, tools) {
            lemma_step_inv(st, entries[n - 1].path@, entries[n - 1].is_file, root, tools);
        }
    }
}

/// A directory is listed at most once for each kind that stands for a
/// whole directory (Terraform, Gradle, Bazel): several `.tf` files, or
/// several Gradle or Bazel files, in one directory give one entry.
pub proof fn lemma_one_entry_per_directory(
    dir: Seq<char>,
    exists: bool,
    is_dir: bool,
    entries: Seq<WalkEntry>,
    tools: ToolAvailability,
)
    ensures
        discovered(dir, exists, is_dir, entries, tools) matches Ok(s) ==> one_per_directory(s),
{
    lemma_scan_inv(entries, entries.len() as int, dir, tools);
}

pub open spec fn file_views(v: Seq<ScriptFile>) -> Seq<ScriptFileView> {
    v.map_values(|f: ScriptFile| f@)
}

fn with_suffix(prefix: &str, s: &str, suffix: &str) -> (r: String)
    ensures
        r@ == prefix@ + s@ + suffix@,
{
    let mut r = String::from_str(prefix);
    r.append(s);
    r.append(suffix);
    r
}

fn with_prefix(prefix: &str, s: &str) -> (r: String)
    ensures
        r@ == prefix@ + s@,
{
    let mut r = String::from_str(prefix);
    r.append(s);
    r
}

/// Finds the script files among the entries of a walk of `scripts_dir`
/// (given with whether the directory exists and is one, and which runners
/// are installed), in walk order.
pub fn discover_in(
    scripts_dir: &str,
    exists: bool,
    is_dir: bool,
    entries: &[WalkEntry],
    tools: ToolAvailability,
) -> (r: Result<Vec<ScriptFile>, ParseError>)
    ensures
        match (r, discovered(scripts_dir@, exists, is_dir, entries@, tools)) {
            (Ok(v), Ok(s)) => file_views(v@) == s,
            (Err(e), Err(m)) => e.message@ == m,
            _ => false,
        },
{
    let mut scripts: Vec<ScriptFile> = Vec::new();
    if !exists {
        assert(file_views(scripts@) =~= Seq::<ScriptFileView>::empty());
        return Ok(scripts);
    }
    if !is_dir {
        return Err(ParseError { message: with_suffix("Path '", scripts_dir, "' exists but is not a directory") });
    }
    let mut tf_dirs: Vec<String> = Vec::new();
    let mut gradle_dirs: Vec<String> = Vec::new();
    let mut bazel_dirs: Vec<String> = Vec::new();
    let ghost root = scripts_dir@;
    assert(file_views(scripts@) =~= Seq::<ScriptFileView>::empty());
    assert(string_views(tf_dirs@) =~= Seq::<Seq<char>>::empty());
    assert(string_views(gradle_dirs@) =~= Seq::<Seq<char>>::empty());
    assert(string_views(bazel_dirs@) =~= Seq::<Seq<char>>::empty());
    let mut i: usize = 0;
    while i < entries.len()
        invariant
            i <= entries@.len(),
            root == scripts_dir@,
            exists,
            is_dir,
            discovery_scan(entries@, i as int, root, tools) == Ok::<DiscoveryScan, Seq<char>>(
                DiscoveryScan {
                    scripts: file_views(scripts@),
                    terraform_dirs: string_views(tf_dirs@),
                    gradle_dirs: string_views(gradle_dirs@),
                    bazel_dirs: string_views(bazel_dirs@),
                },
            ),
        decreases entries.len() - i,
    {
        let e = &entries[i];
        let path = e.path.as_str();
        let named = match path_file_name(path) {
            Some(f) => named_kind_exec(f.as_str()),
            None => None,
        };
        let ghost before = file_views(scripts@);
        if !e.is_file {
        } else if named.is_some() {
            let t = named.unwrap();
            if !tool_available_exec(t, tools) {
            } else if t == ScriptType::Gradle || t == ScriptType::Bazel {
                let dir = match path_parent(path) {
                    Some(p) => p,
                    None => String::from_str(scripts_dir),
                };
                let seen = if t == ScriptType::Gradle {
                    seen_dir_exec(&gradle_dirs, dir.as_str())
                } else {
                    seen_dir_exec(&bazel_dirs, dir.as_str())
                };
                if !seen {
                    let name = parent_name_exec(path, fallback_name_exec(t));
                    let f = script_file_exec(dir.clone(), name, t);
                    scripts.push(f);
                    assert(file_views(scripts@) =~= before.push(f@));
                    if t == ScriptType::Gradle {
                        let ghost gb = string_views(gradle_dirs@);
                        gradle_dirs.push(dir);
                        assert(string_views(gradle_dirs@) =~= gb.push(f@.path));
                    } else {
                        let ghost bb = string_views(bazel_dirs@);
                        bazel_dirs.push(dir);
                        assert(string_views(bazel_dirs@) =~= bb.push(f@.path));
                    }
                }
            } else {
                let name = parent_name_exec(path, fallback_name_exec(t));
                let f = script_file_exec(e.path.clone(), name, t);
                scripts.push(f);
                assert(file_views(scripts@) =~= before.push(f@));
            }
        } else {
            match path_extension(path) {
                None => {},
                Some(ext) => {
                    let ec = to_chars(ext.as_str());
                    if eq_lit(ec.as_slice(), "sh") {
                        match path_file_stem(path) {
                            None => {
                                proof {
                                    assert(entries@[i as int].path@ == path@);
                                    assert(ext@ == "sh"@);
                                    assert(discovery_step(
                                        DiscoveryScan {
                                            scripts: file_views(scripts@),
                                            terraform_dirs: string_views(tf_dirs@),
                                            gradle_dirs: string_views(gradle_dirs@),
                                            bazel_dirs: string_views(bazel_dirs@),
                                        },
                                        path@,
                                        e.is_file,
                                        root,
                                        tools,
                                    ) is Err);
                                    assert(discovery_scan(entries@, i + 1, root, tools) == Err::<DiscoveryScan, Seq<char>>(
                                        "Invalid filename for script: "@ + path@,
                                    ));
                                    lemma_discovery_scan_err(entries@, i + 1, entries@.len() as int, root, tools);
                                }
                                let m = with_prefix("Invalid filename for script: ", path);
                                assert(discovered(scripts_dir@, exists, is_dir, entries@, tools) == Err::<Seq<ScriptFileView>, Seq<char>>(m@));
                                return Err(ParseError { message: m });
                            },
                            Some(n) => {
                                let f = bash_script_file_exec(e.path.clone(), n, scripts_dir);
                                scripts.push(f);
                                assert(file_views(scripts@) =~= before.push(f@));
                            },
                        }
                    } else if eq_lit(ec.as_slice(), "tf") && tools.terraform {
                        let dir = match path_parent(path) {
                            Some(p) => p,
                            None => String::from_str(scripts_dir),
                        };
                        if !seen_dir_exec(&tf_dirs, dir.as_str()) {
                            let name = match path_file_name(dir.as_str()) {
                                Some(n) => n,
                                None => String::from_str("terraform"),
                            };
                            let f = script_file_exec(dir.clone(), name, ScriptType::Terraform);
                            scripts.push(f);
                            assert(file_views(scripts@) =~= before.push(f@));
                            let ghost tb = string_views(tf_dirs@);
                            tf_dirs.push(dir);
                            assert(string_views(tf_dirs@) =~= tb.push(f@.path));
                        }
                    }
                },
            }
        }
        i = i + 1;
    }
    Ok(scripts)
}

/// The message for a named file whose runner is not installed.
pub open spec fn missing_tool_message(t: ScriptType) -> Seq<char> {
    match t {
        ScriptType::DevboxJson => "devbox.json found but 'devbox' is not installed or not in PATH. Please install devbox to use this file."@,
        ScriptType::Task => "Taskfile found but 'task' is not installed or not in PATH. Please install go-task to use this file."@,
        ScriptType::Makefile => "Makefile found but 'make' is not installed or not in PATH. Please install make to use this file."@,
        ScriptType::Just => "Justfile found but 'just' is not installed or not in PATH. Please install just to use this file."@,
        ScriptType::CargoToml => "Cargo.toml found but 'cargo' is not installed or not in PATH. Please install Rust/Cargo to use this file."@,
        ScriptType::NxJson => "nx.json found but 'nx' is not installed or not in PATH. Please install Nx to use this file."@,
        ScriptType::Gradle => "Gradle build file found but neither Gradle wrapper (gradlew) nor system Gradle is available. Please install Gradle or add a Gradle wrapper to use this file."@,
        ScriptType::Bazel => "Bazel workspace file found but neither 'bazel' nor 'bazelisk' is installed or in PATH. Please install Bazel or Bazelisk to use this file."@,
        ScriptType::Terraform => "Terraform file found but neither 'terraform' nor 'tofu' (OpenTofu) is installed or in PATH. Please install Terraform or OpenTofu to use this file."@,
        _ => Seq::empty(),
    }
}

fn missing_tool_message_exec(t: ScriptType) -> (r: String)
    requires
        t != ScriptType::Bash && t != ScriptType::PackageJson,
    ensures
        r@ == missing_tool_message(t),
{
    String::from_str(
        match t {
            ScriptType::DevboxJson => "devbox.json found but 'devbox' is not installed or not in PATH. Please install devbox to use this file.",
            ScriptType::Task => "Taskfile found but 'task' is not installed or not in PATH. Please install go-task to use this file.",
            ScriptType::Makefile => "Makefile found but 'make' is not installed or not in PATH. Please install make to use this file.",
            ScriptType::Just => "Justfile found but 'just' is not installed or not in PATH. Please install just to use this file.",
            ScriptType::CargoToml => "Cargo.toml found but 'cargo' is not installed or not in PATH. Please install Rust/Cargo to use this file.",
            ScriptType::NxJson => "nx.json found but 'nx' is not installed or not in PATH. Please install Nx to use this file.",
            ScriptType::Gradle => "Gradle build file found but neither Gradle wrapper (gradlew) nor system Gradle is available. Please install Gradle or add a Gradle wrapper to use this file.",
            ScriptType::Bazel => "Bazel workspace file found but neither 'bazel' nor 'bazelisk' is installed or in PATH. Please install Bazel or Bazelisk to use this file.",
            _ => "Terraform file found but neither 'terraform' nor 'tofu' (OpenTofu) is installed or in PATH. Please install Terraform or OpenTofu to use this file.",
        },
    )
}

/// The kind of a single file given by the user: by its name first, then by
/// its extension (`.sh`, `.tf`); an error when the runner is not installed
/// or the kind is not supported.
pub open spec fn script_type_of(filename: Seq<char>, path: Seq<char>, tools: ToolAvailability) -> Result<ScriptType, Seq<char>> {
    match named_kind(filename) {
        Some(t) => if tool_available(t, tools) {
            Ok(t)
        } else {
            Err(missing_tool_message(t))
        },
        None => if extension_of(path) == Some("sh"@) {
            Ok(ScriptType::Bash)
        } else if extension_of(path) == Some("tf"@) {
            if tools.terraform {
                Ok(ScriptType::Terraform)
            } else {
                Err(missing_tool_message(ScriptType::Terraform))
            }
        } else {
            Err(
                "Unsupported file type: '"@ + filename
                    + "'. Supported types: .sh (bash), .tf (terraform), package.json (npm), devbox.json (devbox), Taskfile.yml (task), Makefile (make), justfile (just), Cargo.toml (cargo), nx.json (nx), build.gradle (gradle), WORKSPACE/BUILD (bazel)"@,
            )
        },
    }
}

/// The kind of a single file, as [`script_type_of`] says.
pub fn determine_script_type(filename: &str, file_path: &str, tools: ToolAvailability) -> (r: Result<ScriptType, ParseError>)
    ensures
        match (r, script_type_of(filename@, file_path@, tools)) {
            (Ok(t), Ok(u)) => t == u,
            (Err(e), Err(m)) => e.message@ == m,
            _ => false,
        },
{
    match named_kind_exec(filename) {
        Some(t) => {
            if tool_available_exec(t, tools) {
                Ok(t)
            } else {
                Err(ParseError { message: missing_tool_message_exec(t) })
            }
        },
        None => {
            let ext = path_extension(file_path);
            let (is_sh, is_tf) = match &ext {
                Some(e) => {
                    let c = to_chars(e.as_str());
                    (eq_lit(c.as_slice(), "sh"), eq_lit(c.as_slice(), "tf"))
                },
                None => (false, false),
            };
            if is_sh {
                Ok(ScriptType::Bash)
            } else if is_tf {
                if tools.terraform {
                    Ok(ScriptType::Terraform)
                } else {
                    Err(ParseError { message: missing_tool_message_exec(ScriptType::Terraform) })
                }
            } else {
                proof {
                    reveal_strlit("sh");
                    reveal_strlit("tf");
                }
                Err(
                    ParseError {
                        message: with_suffix(
                            "Unsupported file type: '",
                            filename,
                            "'. Supported types: .sh (bash), .tf (terraform), package.json (npm), devbox.json (devbox), Taskfile.yml (task), Makefile (make), justfile (just), Cargo.toml (cargo), nx.json (nx), build.gradle (gradle), WORKSPACE/BUILD (bazel)",
                        ),
                    },
                )
            }
        },
    }
}

/// A single file given by the user, read as a script file: it must exist
/// and be a file with a readable name and a supported kind. Bash scripts are
/// named by their stem, other files by their directory.
pub open spec fn single_file(path: Seq<char>, exists: bool, is_file: bool, tools: ToolAvailability) -> Result<
    ScriptFileView,
    Seq<char>,
> {
    if !exists {
        Err("File '"@ + path + "' does not exist"@)
    } else if !is_file {
        Err("Path '"@ + path + "' is not a file"@)
    } else {
        match file_name_of(path) {
            None => Err("Invalid filename: "@ + path),
            Some(filename) => match script_type_of(filename, path, tools) {
                Err(m) => Err(m),
                Ok(t) => if t == ScriptType::Bash {
                    match file_stem_of(path) {
                        None => Err("Invalid filename: "@ + path),
                        Some(stem) => Ok(script_file(path, stem, t)),
                    }
                } else {
                    Ok(script_file(path, parent_name(path, filename), t))
                },
            },
        }
    }
}

/// Reads one file given by the user as a script file (given whether it
/// exists and is a file, and which runners are installed).
pub fn discover_single_file(file_path: &str, exists: bool, is_file: bool, tools: ToolAvailability) -> (r: Result<
    ScriptFile,
    ParseError,
>)
    ensures
        match (r, single_file(file_path@, exists, is_file, tools)) {
            (Ok(f), Ok(v)) => f@ == v,
            (Err(e), Err(m)) => e.message@ == m,
            _ => false,
        },
{
    if !exists {
        return Err(ParseError { message: with_suffix("File '", file_path, "' does not exist") });
    }
    if !is_file {
        return Err(ParseError { message: with_suffix("Path '", file_path, "' is not a file") });
    }
    let filename = match path_file_name(file_path) {
        Some(f) => f,
        None => {
            return Err(ParseError { message: with_prefix("Invalid filename: ", file_path) });
        },
    };
    let t = match determine_script_type(filename.as_str(), file_path, tools) {
        Ok(t) => t,
        Err(e) => {
            return Err(e);
        },
    };
    let name = if t == ScriptType::Bash {
        match path_file_stem(file_path) {
            Some(stem) => stem,
            None => {
                return Err(ParseError { message: with_prefix("Invalid filename: ", file_path) });
            },
        }
    } else {
        parent_name_exec(file_path, filename)
    };
    Ok(script_file_exec(String::from_str(file_path), name, t))
}


/// The subdirectories of a project that are searched for scripts, two
/// levels deep, besides the project's own directory.
pub fn script_subdirectories() -> (r: Vec<String>)
    ensures
        string_views(r@) == seq!["script"@, "scripts"@, "jarvis"@],
{
    let r = vec![String::from_str("script"), String::from_str("scripts"), String::from_str("jarvis")];
    assert(string_views(r@) =~= seq!["script"@, "scripts"@, "jarvis"@]);
    r
}

/// Ends discovery in the project directory `dir` with `found` script files:
/// an error when there are none.
pub fn check_scripts_found(dir: &str, found: usize) -> (r: Result<(), ParseError>)
    ensures
        match r {
            Ok(()) => found > 0,
            Err(e) => found == 0 && e.message@ == "No scripts found in "@ + dir@
                + " (also checked: ./script/, ./scripts/, ./jarvis/). Add bash scripts (.sh), package.json, devbox.json, Taskfile.yml, Makefile, justfile, Cargo.toml, nx.json, or *.tf files to get started."@,
        },
{
    if found > 0 {
        Ok(())
    } else {
        Err(
            ParseError {
                message: with_suffix(
                    "No scripts found in ",
                    dir,
                    " (also checked: ./script/, ./scripts/, ./jarvis/). Add bash scripts (.sh), package.json, devbox.json, Taskfile.yml, Makefile, justfile, Cargo.toml, nx.json, or *.tf files to get started.",
                ),
            },
        )
    }
}

/// Ends parsing with `found` items in all: an error when there are none.
pub fn check_functions_found(found: usize) -> (r: Result<(), ParseError>)
    ensures
        match r {
            Ok(()) => found > 0,
            Err(e) => found == 0 && e.message@
                == "No functions found in any scripts. Make sure your scripts define bash functions."@,
        },
{
    if found > 0 {
        Ok(())
    } else {
        Err(
            ParseError {
                message: String::from_str(
                    "No functions found in any scripts. Make sure your scripts define bash functions.",
                ),
            },
        )
    }
}

} // verus!
