//! How a runnable item is started: the program, its arguments and the
//! working directory, with shell quoting for bash; and which script file an
//! item belongs to.
use crate::paths::{file_name_of, parent_of, path_file_name, path_parent};
use crate::script::discovery::{file_views, ScriptFile, ScriptFileView, ScriptType};
use crate::script::error::ParseError;
use crate::script::parser::{FunctionView, ScriptFunction};
use crate::text::{
    chars_eq, from_chars, has_at, has_lit, push_char, slice_to_vec, split_words, string_views, to_chars,
    views, words,
};
use vstd::prelude::*;

verus! {

/// How a command run ended, or that it is still running.
#[derive(Debug, Clone, Copy, PartialEq, Eq, Structural)]
pub enum ExecutionStatus {
    /// Nothing was run for this item.
    Idle,
    Running,
    /// Exit code 0.
    Succeeded,
    /// A non-zero exit code.
    Failed,
}

// ---------------------------------------------------------------------------
// Shell quoting
// ---------------------------------------------------------------------------

/// What one character becomes inside single quotes: a single quote closes
/// the quotes, is written escaped, and reopens them.
pub open spec fn quote_piece(c: char) -> Seq<char> {
    if c == '\'' {
        seq!['\'', '\\', '\'', '\'']
    } else {
        seq![c]
    }
}

/// The text with each single quote written as `'\''`.
pub open spec fn escape_quotes(s: Seq<char>) -> Seq<char>
    decreases s.len(),
{
    if s.len() == 0 {
        Seq::empty()
    } else {
        quote_piece(s[0]) + escape_quotes(s.drop_first())
    }
}

/// `'<text>'` with each single quote inside written as `'\''`.
pub open spec fn shell_quoted(s: Seq<char>) -> Seq<char> {
    seq!['\''] + escape_quotes(s) + seq!['\'']
}

proof fn lemma_escape_quotes_push(s: Seq<char>, c: char)
    ensures
        escape_quotes(s.push(c)) == escape_quotes(s) + quote_piece(c),
    decreases s.len(),
{
    if s.len() > 0 {
        assert(s.push(c).drop_first() =~= s.drop_first().push(c));
        lemma_escape_quotes_push(s.drop_first(), c);
        assert(escape_quotes(s.push(c)) =~= quote_piece(s[0]) + (escape_quotes(s.drop_first()) + quote_piece(c)));
    } else {
        let e = s.push(c);
        assert(e.drop_first() =~= Seq::<char>::empty());
        assert(escape_quotes(e.drop_first()) == Seq::<char>::empty());
        assert(escape_quotes(e) =~= quote_piece(c));
        assert(escape_quotes(s) == Seq::<char>::empty());
        assert(escape_quotes(s) + quote_piece(c) =~= quote_piece(c));
    }
}

/// Quotes a text as one shell word: inside single quotes nothing is
/// expanded (`$`, `` ` ``, `\`, `"`), and single quotes are written `'\''`.
pub fn shell_escape(s: &str) -> (r: String)
    ensures
        r@ == shell_quoted(s@),
{
    let cs = to_chars(s);
    let mut out: Vec<char> = Vec::new();
    out.push('\'');
    let mut i: usize = 0;
    while i < cs.len()
        invariant
            i <= cs@.len(),
            out@ == seq!['\''] + escape_quotes(cs@.take(i as int)),
        decreases cs.len() - i,
    {
        let c = cs[i];
        proof {
            lemma_escape_quotes_push(cs@.take(i as int), c);
            assert(cs@.take(i + 1) =~= cs@.take(i as int).push(c));
        }
        let ghost before = out@;
        if c == '\'' {
            out.push('\'');
            out.push('\\');
            out.push('\'');
            out.push('\'');
        } else {
            out.push(c);
        }
        assert(out@ =~= before + quote_piece(c));
        i = i + 1;
    }
    out.push('\'');
    assert(cs@.take(cs@.len() as int) =~= cs@);
    assert(out@ =~= shell_quoted(s@));
    from_chars(out.as_slice())
}

/// Characters that the shell treats specially outside quotes.
pub open spec fn shell_special(c: char) -> bool {
    c == ' ' || c == '\t' || c == '\n' || c == '$' || c == '`' || c == '"' || c == ';' || c == '&'
        || c == '|' || c == '<' || c == '>' || c == '(' || c == ')' || c == '*' || c == '?' || c == '['
        || c == '#' || c == '~'
}

/// `Some(prefix + rest)` when the rest was read.
pub open spec fn prepend(prefix: Seq<char>, r: Option<Seq<char>>) -> Option<Seq<char>> {
    match r {
        Some(x) => Some(prefix + x),
        None => None,
    }
}

/// How the shell reads the text as one word: inside single quotes every
/// character stands for itself; outside, a backslash takes the next
/// character literally, a single quote opens quotes, and any other special
/// character means the text is not a plain word (none). Unclosed quotes
/// give none.
pub open spec fn shell_word(t: Seq<char>, quoted: bool) -> Option<Seq<char>>
    decreases t.len(),
{
    if t.len() == 0 {
        if quoted {
            None
        } else {
            Some(Seq::empty())
        }
    } else if quoted {
        if t[0] == '\'' {
            shell_word(t.drop_first(), false)
        } else {
            prepend(seq![t[0]], shell_word(t.drop_first(), true))
        }
    } else if t[0] == '\'' {
        shell_word(t.drop_first(), true)
    } else if t[0] == '\\' && t.len() >= 2 {
        prepend(seq![t[1]], shell_word(t.subrange(2, t.len() as int), false))
    } else if t[0] == '\\' || shell_special(t[0]) {
        None
    } else {
        prepend(seq![t[0]], shell_word(t.drop_first(), false))
    }
}

proof fn lemma_shell_word_escaped(s: Seq<char>, tail: Seq<char>)
    ensures
        shell_word(escape_quotes(s) + tail, true) == prepend(s, shell_word(tail, true)),
    decreases s.len(),
{
    if s.len() == 0 {
        assert(escape_quotes(s) + tail =~= tail);
        match shell_word(tail, true) {
            Some(x) => assert(s + x =~= x),
            None => {},
        }
    } else {
        let rest = escape_quotes(s.drop_first()) + tail;
        lemma_shell_word_escaped(s.drop_first(), tail);
        let c = s[0];
        let t = escape_quotes(s) + tail;
        if c == '\'' {
            assert(t =~= seq!['\'', '\\', '\'', '\''] + rest);
            let t1 = t.drop_first();
            assert(t1 =~= seq!['\\', '\'', '\''] + rest);
            let t2 = t1.subrange(2, t1.len() as int);
            assert(t2 =~= seq!['\''] + rest);
            assert(t2.drop_first() =~= rest);
            assert(shell_word(t2, false) == shell_word(rest, true));
            assert(shell_word(t1, false) == prepend(seq!['\''], shell_word(t2, false)));
            assert(shell_word(t, true) == shell_word(t1, false));
        } else {
            assert(t =~= seq![c] + rest);
            assert(t.drop_first() =~= rest);
            assert(shell_word(t, true) == prepend(seq![c], shell_word(rest, true)));
        }
        match shell_word(tail, true) {
            Some(x) => {
                assert(seq![c] + (s.drop_first() + x) =~= s + x);
            },
            None => {},
        }
    }
}

/// The shell reads a quoted text back as exactly that text, as one word
/// with nothing expanded.
pub proof fn lemma_shell_escape_roundtrip(s: Seq<char>)
    ensures
        shell_word(shell_quoted(s), false) == Some(s),
{
    let t = shell_quoted(s);
    assert(t.drop_first() =~= escape_quotes(s) + seq!['\'']);
    assert(shell_word(t, false) == shell_word(t.drop_first(), true));
    lemma_shell_word_escaped(s, seq!['\'']);
    assert(seq!['\''].drop_first() =~= Seq::<char>::empty());
    assert(shell_word(seq!['\''], true) == shell_word(Seq::<char>::empty(), false));
    assert(shell_word(seq!['\''], true) == Some(Seq::<char>::empty()));
    assert(s + Seq::<char>::empty() =~= s);
}

// ---------------------------------------------------------------------------
// Commands
// ---------------------------------------------------------------------------

/// How a finished command ended, from its exit code (none when waiting for
/// it failed): the code as a signed number (1 when it does not fit, or when
/// there is none), and success exactly when that number is 0.
pub open spec fn finish_of(exit: Option<u32>) -> (ExecutionStatus, i32) {
    let code: i32 = match exit {
        Some(c) => if c <= i32::MAX {
            c as i32
        } else {
            1
        },
        None => 1,
    };
    (if code == 0 {
        ExecutionStatus::Succeeded
    } else {
        ExecutionStatus::Failed
    }, code)
}

/// How a finished command ended.
pub fn finished_status(exit: Option<u32>) -> (r: (ExecutionStatus, i32))
    ensures
        r == finish_of(exit),
{
    let code: i32 = match exit {
        Some(c) => if c <= 2147483647 {
            c as i32
        } else {
            1
        },
        None => 1,
    };
    (if code == 0 {
        ExecutionStatus::Succeeded
    } else {
        ExecutionStatus::Failed
    }, code)
}

/// The commands that depend on what is installed: how Nx is run (`npx nx`
/// or `nx`), the Terraform binary, the Gradle command for the item's
/// directory (the wrapper or `gradle`), and the Bazel program (`bazelisk`
/// or `bazel`).
#[derive(Debug, Clone)]
pub struct ToolCommands {
    pub nx_program: String,
    pub nx_args: Vec<String>,
    pub terraform_binary: String,
    pub gradle_command: String,
    pub bazel_program: String,
}

/// How a Bazel target is run: `test` for a test target (whose description
/// reads `bazel test ...`), else `run`.
pub open spec fn bazel_verb(description: Seq<char>) -> Seq<char> {
    if has_at(description, 0, "bazel test "@) {
        "test"@
    } else {
        "run"@
    }
}

/// The text after `prefix`, when the text starts with it.
pub open spec fn strip_prefix(s: Seq<char>, prefix: Seq<char>) -> Option<Seq<char>> {
    if has_at(s, 0, prefix) {
        Some(s.subrange(prefix.len() as int, s.len() as int))
    } else {
        None
    }
}

/// The program, arguments and working directory that run an item from its
/// script file, or why they cannot be formed.
pub open spec fn command_for(
    func: FunctionView,
    file: ScriptFileView,
    nx_program: Seq<char>,
    nx_args: Seq<Seq<char>>,
    terraform_binary: Seq<char>,
    gradle_command: Seq<char>,
    bazel_program: Seq<char>,
) -> Result<(Seq<char>, Seq<Seq<char>>, Seq<char>), Seq<char>> {
    let path = file.path;
    match file.script_type {
        ScriptType::Bash => match parent_of(path) {
            None => Err("Failed to get parent directory"@),
            Some(dir) => match file_name_of(path) {
                None => Err("Invalid script filename"@),
                Some(name) => Ok(
                    (
                        "bash"@,
                        seq![
                            "-c"@,
                            "cd "@ + shell_quoted(dir) + " && source "@ + shell_quoted(name) + " && "@ + func.name,
                        ],
                        dir,
                    ),
                ),
            },
        },
        ScriptType::Terraform => Ok((terraform_binary, words(func.name), path)),
        ScriptType::Bazel => Ok((bazel_program, seq![bazel_verb(func.description), func.name], path)),
        _ => match parent_of(path) {
            None => Err("Failed to get parent dir"@),
            Some(dir) => Ok(
                match file.script_type {
                    ScriptType::PackageJson => ("npm"@, seq!["run"@, func.name], dir),
                    ScriptType::DevboxJson => ("devbox"@, seq!["run"@, func.name], dir),
                    ScriptType::Task => ("task"@, seq!["--taskfile"@, path, func.name], dir),
                    ScriptType::Makefile => ("make"@, seq!["--file"@, path, func.name], dir),
                    ScriptType::Just => ("just"@, seq!["--justfile"@, path, func.name], dir),
                    ScriptType::CargoToml => {
                        let (flag, name) = match strip_prefix(func.name, "bin:"@) {
                            Some(n) => ("--bin"@, n),
                            None => match strip_prefix(func.name, "example:"@) {
                                Some(n) => ("--example"@, n),
                                None => ("--bin"@, func.name),
                            },
                        };
                        ("cargo"@, seq!["run"@, flag, name, "--manifest-path"@, path], dir)
                    },
                    ScriptType::NxJson => (nx_program, nx_args + seq!["run"@, func.name], dir),
                    _ => (gradle_command, seq![func.name], dir),
                },
            ),
        },
    }
}

fn strs(a: &str, b: &str) -> (r: Vec<String>)
    ensures
        string_views(r@) == seq![a@, b@],
{
    let mut r: Vec<String> = Vec::new();
    r.push(String::from_str(a));
    r.push(String::from_str(b));
    assert(string_views(r@) =~= seq![a@, b@]);
    r
}

fn strs3(a: &str, b: &str, c: &str) -> (r: Vec<String>)
    ensures
        string_views(r@) == seq![a@, b@, c@],
{
    let mut r: Vec<String> = Vec::new();
    r.push(String::from_str(a));
    r.push(String::from_str(b));
    r.push(String::from_str(c));
    assert(string_views(r@) =~= seq![a@, b@, c@]);
    r
}

fn strip_prefix_exec(s: &str, prefix: &str) -> (r: Option<String>)
    ensures
        match r {
            Some(x) => strip_prefix(s@, prefix@) == Some(x@),
            None => strip_prefix(s@, prefix@) is None,
        },
{
    let cs = to_chars(s);
    let p = to_chars(prefix);
    if has_lit(cs.as_slice(), 0, prefix) {
        let rest = slice_to_vec(cs.as_slice(), p.len(), cs.len());
        Some(from_chars(rest.as_slice()))
    } else {
        None
    }
}

/// The program, arguments and working directory that run an item from its
/// script file.
pub fn build_command(func: &ScriptFunction, script_file: &ScriptFile, tools: &ToolCommands) -> (r: Result<
    (String, Vec<String>, String),
    ParseError,
>)
    ensures
        match (r, command_for(func@, script_file@, tools.nx_program@, string_views(tools.nx_args@), tools.terraform_binary@, tools.gradle_command@, tools.bazel_program@)) {
            (Ok((p, a, d)), Ok((sp, sa, sd))) => p@ == sp && string_views(a@) == sa && d@ == sd,
            (Err(e), Err(m)) => e.message@ == m,
            _ => false,
        },
{
    let path = script_file.path.as_str();
    let name = func.name.as_str();
    match script_file.script_type {
        ScriptType::Bash => {
            let dir = match path_parent(path) {
                Some(d) => d,
                None => {
                    return Err(ParseError { message: String::from_str("Failed to get parent directory") });
                },
            };
            let file = match path_file_name(path) {
                Some(f) => f,
                None => {
                    return Err(ParseError { message: String::from_str("Invalid script filename") });
                },
            };
            let mut cmd = String::from_str("cd ");
            let qd = shell_escape(dir.as_str());
            cmd.append(qd.as_str());
            cmd.append(" && source ");
            let qf = shell_escape(file.as_str());
            cmd.append(qf.as_str());
            cmd.append(" && ");
            cmd.append(name);
            let mut args: Vec<String> = Vec::new();
            args.push(String::from_str("-c"));
            args.push(cmd);
            assert(string_views(args@) =~= seq!["-c"@, args@[1]@]);
            Ok((String::from_str("bash"), args, dir))
        },
        ScriptType::Terraform => {
            let nc = to_chars(name);
            let ws = split_words(nc.as_slice());
            let mut args: Vec<String> = Vec::new();
            let mut i: usize = 0;
            while i < ws.len()
                invariant
                    i <= ws@.len(),
                    string_views(args@) == views(ws@).take(i as int),
                decreases ws.len() - i,
            {
                let ghost before = string_views(args@);
                args.push(from_chars(ws[i].as_slice()));
                assert(string_views(args@) =~= before.push(ws@[i as int]@));
                assert(views(ws@).take(i + 1) =~= views(ws@).take(i as int).push(ws@[i as int]@));
                i = i + 1;
            }
            assert(views(ws@).take(ws@.len() as int) =~= views(ws@));
            Ok((tools.terraform_binary.clone(), args, String::from_str(path)))
        },
        ScriptType::Bazel => {
            let d = to_chars(func.description.as_str());
            let verb = if has_lit(d.as_slice(), 0, "bazel test ") {
                String::from_str("test")
            } else {
                String::from_str("run")
            };
            let mut args: Vec<String> = Vec::new();
            args.push(verb);
            args.push(String::from_str(name));
            assert(string_views(args@) =~= seq![bazel_verb(func.description@), name@]);
            Ok((tools.bazel_program.clone(), args, String::from_str(path)))
        },
        _ => {
            let dir = match path_parent(path) {
                Some(d) => d,
                None => {
                    return Err(ParseError { message: String::from_str("Failed to get parent dir") });
                },
            };
            let (program, args): (String, Vec<String>) = match script_file.script_type {
                ScriptType::PackageJson => (String::from_str("npm"), strs("run", name)),
                ScriptType::DevboxJson => (String::from_str("devbox"), strs("run", name)),
                ScriptType::Task => (String::from_str("task"), strs3("--taskfile", path, name)),
                ScriptType::Makefile => (String::from_str("make"), strs3("--file", path, name)),
                ScriptType::Just => (String::from_str("just"), strs3("--justfile", path, name)),
                ScriptType::CargoToml => {
                    let (flag, target) = match strip_prefix_exec(name, "bin:") {
                        Some(n) => (String::from_str("--bin"), n),
                        None => match strip_prefix_exec(name, "example:") {
                            Some(n) => (String::from_str("--example"), n),
                            None => (String::from_str("--bin"), String::from_str(name)),
                        },
                    };
                    let mut a: Vec<String> = Vec::new();
                    a.push(String::from_str("run"));
                    a.push(flag);
                    a.push(target);
                    a.push(String::from_str("--manifest-path"));
                    a.push(String::from_str(path));
                    assert(string_views(a@) =~= seq!["run"@, a@[1]@, a@[2]@, "--manifest-path"@, path@]);
                    (String::from_str("cargo"), a)
                },
                ScriptType::NxJson => {
                    let mut a: Vec<String> = Vec::new();
                    let mut i: usize = 0;
                    while i < tools.nx_args.len()
                        invariant
                            i <= tools.nx_args@.len(),
                            string_views(a@) == string_views(tools.nx_args@).take(i as int),
                        decreases tools.nx_args.len() - i,
                    {
                        let ghost before = string_views(a@);
                        a.push(tools.nx_args[i].clone());
                        assert(string_views(a@) =~= before.push(tools.nx_args@[i as int]@));
                        assert(string_views(tools.nx_args@).take(i + 1) =~= string_views(tools.nx_args@).take(
                            i as int,
                        ).push(tools.nx_args@[i as int]@));
                        i = i + 1;
                    }
                    let ghost base = string_views(a@);
                    a.push(String::from_str("run"));
                    a.push(String::from_str(name));
                    assert(string_views(tools.nx_args@).take(tools.nx_args@.len() as int) =~= string_views(
                        tools.nx_args@,
                    ));
                    assert(string_views(a@) =~= base + seq!["run"@, name@]);
                    (tools.nx_program.clone(), a)
                },
                _ => {
                    let mut a: Vec<String> = Vec::new();
                    a.push(String::from_str(name));
                    assert(string_views(a@) =~= seq![name@]);
                    (tools.gradle_command.clone(), a)
                },
            };
            Ok((program, args, dir))
        },
    }
}

// ---------------------------------------------------------------------------
// Which file an item comes from
// ---------------------------------------------------------------------------

/// A script file of the item's kind whose category is the item's original
/// category; for Nx, the item's category is `nx:<file category>:...`.
pub open spec fn file_matches(f: ScriptFileView, t: ScriptType, original_category: Seq<char>) -> bool {
    f.script_type == t && if t == ScriptType::NxJson {
        has_at(original_category, 0, "nx:"@ + f.category + ":"@)
    } else {
        f.category == original_category
    }
}

/// The index of the first matching file at or after `i` (the length if none).
pub open spec fn first_match(files: Seq<ScriptFileView>, t: ScriptType, c: Seq<char>, i: int) -> int
    decreases files.len() - i,
{
    if 0 <= i < files.len() && !file_matches(files[i], t, c) {
        first_match(files, t, c, i + 1)
    } else {
        i
    }
}

/// The script file an item belongs to: the first of its kind under the
/// item's original category (for Nx, the workspace whose category starts the
/// item's `nx:<workspace>:` category).
pub fn find_script_file<'a>(func: &ScriptFunction, original_category: &str, script_files: &'a [ScriptFile]) -> (r:
    Option<&'a ScriptFile>)
    ensures
        match r {
            Some(f) => first_match(file_views(script_files@), func.script_type, original_category@, 0)
                < script_files@.len() && f@ == script_files@[first_match(
                file_views(script_files@),
                func.script_type,
                original_category@,
                0,
            )]@,
            None => first_match(file_views(script_files@), func.script_type, original_category@, 0)
                >= script_files@.len(),
        },
{
    let ghost fv = file_views(script_files@);
    let oc = to_chars(original_category);
    let mut i: usize = 0;
    while i < script_files.len()
        invariant
            i <= script_files@.len(),
            fv == file_views(script_files@),
            oc@ == original_category@,
            first_match(fv, func.script_type, original_category@, 0) == first_match(
                fv,
                func.script_type,
                original_category@,
                i as int,
            ),
        decreases script_files.len() - i,
    {
        let s = &script_files[i];
        assert(fv[i as int] == s@);
        let matched = if s.script_type != func.script_type {
            false
        } else if s.script_type == ScriptType::NxJson {
            let mut prefix = String::from_str("nx:");
            prefix.append(s.category.as_str());
            prefix.append(":");
            let pc = to_chars(prefix.as_str());
            crate::text::has_at_exec(oc.as_slice(), 0, pc.as_slice())
        } else {
            let sc = to_chars(s.category.as_str());
            chars_eq(sc.as_slice(), oc.as_slice())
        };
        if matched {
            return Some(s);
        }
        i = i + 1;
    }
    None
}

/// The name of a kind as written by `{:?}`.
pub open spec fn script_type_name(t: ScriptType) -> Seq<char> {
    match t {
        ScriptType::Bazel => "Bazel"@,
        ScriptType::Bash => "Bash"@,
        ScriptType::CargoToml => "CargoToml"@,
        ScriptType::DevboxJson => "DevboxJson"@,
        ScriptType::Gradle => "Gradle"@,
        ScriptType::Just => "Just"@,
        ScriptType::Makefile => "Makefile"@,
        ScriptType::NxJson => "NxJson"@,
        ScriptType::PackageJson => "PackageJson"@,
        ScriptType::Task => "Task"@,
        ScriptType::Terraform => "Terraform"@,
    }
}

/// The key under which the runs of an item are remembered: its kind and
/// name, `Bash:deploy`.
pub fn history_key(func: &ScriptFunction) -> (r: String)
    ensures
        r@ == script_type_name(func.script_type) + ":"@ + func.name@,
{
    let mut r = String::from_str(
        match func.script_type {
            ScriptType::Bazel => "Bazel",
            ScriptType::Bash => "Bash",
            ScriptType::CargoToml => "CargoToml",
            ScriptType::DevboxJson => "DevboxJson",
            ScriptType::Gradle => "Gradle",
            ScriptType::Just => "Just",
            ScriptType::Makefile => "Makefile",
            ScriptType::NxJson => "NxJson",
            ScriptType::PackageJson => "PackageJson",
            ScriptType::Task => "Task",
            ScriptType::Terraform => "Terraform",
        },
    );
    r.append(":");
    r.append(func.name.as_str());
    r
}

} // verus!
