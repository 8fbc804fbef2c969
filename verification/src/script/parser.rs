//! Bash functions and their comment annotations.
use crate::script::annotations::{block_annotations, scan_block, AnnView};
use crate::script::discovery::{display_name_of, format_display_name, ScriptType};
use crate::script::utils::{is_bash_identifier, is_valid_bash_identifier};
use crate::text::{
    from_chars, has_at, has_lit, ident_end, ident_end_exec, is_ident_char, is_ident_start,
    is_ident_start_exec, is_ws, is_ws_exec, lemma_ident_end, lemma_ident_end_at, lemma_ws_end,
    lemma_ws_end_at, lemma_ws_not_ident, lines, slice_to_vec, str_lines, views, ws_end, ws_end_exec,
};
use vstd::prelude::*;

verus! {

/// A runnable item shown in the script list.
#[derive(Debug, Clone)]
pub struct ScriptFunction {
    pub name: String,
    pub display_name: String,
    pub category: String,
    pub description: String,
    pub emoji: Option<String>,
    pub ignored: bool,
    pub script_type: ScriptType,
}

/// The plain-value form of a [`ScriptFunction`].
pub struct FunctionView {
    pub name: Seq<char>,
    pub display_name: Seq<char>,
    pub category: Seq<char>,
    pub description: Seq<char>,
    pub emoji: Option<Seq<char>>,
    pub ignored: bool,
    pub script_type: ScriptType,
}

impl View for ScriptFunction {
    type V = FunctionView;

    open spec fn view(&self) -> FunctionView {
        FunctionView {
            name: self.name@,
            display_name: self.display_name@,
            category: self.category@,
            description: self.description@,
            emoji: crate::script::annotations::opt_view(self.emoji),
            ignored: self.ignored,
            script_type: self.script_type,
        }
    }
}

impl ScriptFunction {
    /// A copy of the item.
    pub fn copy(&self) -> (r: ScriptFunction)
        ensures
            r@ == self@,
    {
        ScriptFunction {
            name: self.name.clone(),
            display_name: self.display_name.clone(),
            category: self.category.clone(),
            description: self.description.clone(),
            emoji: crate::script::annotations::clone_opt(&self.emoji),
            ignored: self.ignored,
            script_type: self.script_type,
        }
    }
}

pub open spec fn function_views(v: Seq<ScriptFunction>) -> Seq<FunctionView> {
    v.map_values(|f: ScriptFunction| f@)
}

/// `\s*\(\s*\)\s*\{` matches at index `n`.
pub open spec fn def_tail_at(l: Seq<char>, n: int) -> bool {
    let a = ws_end(l, n);
    &&& a < l.len()
    &&& l[a] == '('
    &&& ws_end(l, a + 1) < l.len()
    &&& l[ws_end(l, a + 1)] == ')'
    &&& ws_end(l, ws_end(l, a + 1) + 1) < l.len()
    &&& l[ws_end(l, ws_end(l, a + 1) + 1)] == '{'
}

/// `([a-zA-Z_][a-zA-Z0-9_]*)\s*\(\s*\)\s*\{` at index `p`: the name.
pub open spec fn ident_def_at(l: Seq<char>, p: int) -> Option<Seq<char>> {
    if 0 <= p < l.len() && is_ident_start(l[p]) && def_tail_at(l, ident_end(l, p)) {
        Some(l.subrange(p, ident_end(l, p)))
    } else {
        None
    }
}

/// The name defined by a line matching
/// `^(?:function\s+)?([a-zA-Z_][a-zA-Z0-9_]*)\s*\(\s*\)\s*\{`.
pub open spec fn bash_def_name(l: Seq<char>) -> Option<Seq<char>> {
    if has_at(l, 0, "function"@) && 8 < l.len() && is_ws(l[8]) {
        match ident_def_at(l, ws_end(l, 8)) {
            Some(n) => Some(n),
            None => ident_def_at(l, 0),
        }
    } else {
        ident_def_at(l, 0)
    }
}

/// A run of whitespace (possibly empty).
pub open spec fn is_ws_run(w: Seq<char>) -> bool {
    forall|k: int| 0 <= k < w.len() ==> is_ws(#[trigger] w[k])
}

/// The text `<name><w1>(<w2>)<w3>{<rest>}`.
pub open spec fn def_line(name: Seq<char>, w1: Seq<char>, w2: Seq<char>, w3: Seq<char>, rest: Seq<char>) -> Seq<char> {
    name + w1 + seq!['('] + w2 + seq![')'] + w3 + seq!['{'] + rest
}

/// After an identifier ending at `e`, whitespace, `(`, whitespace, `)`,
/// whitespace and `{` complete a definition.
proof fn lemma_def_tail(l: Seq<char>, name: Seq<char>, w1: Seq<char>, w2: Seq<char>, w3: Seq<char>, rest: Seq<char>, off: int)
    requires
        0 <= off <= l.len(),
        l.subrange(off, l.len() as int) == def_line(name, w1, w2, w3, rest),
        is_bash_identifier(name),
        is_ws_run(w1),
        is_ws_run(w2),
        is_ws_run(w3),
    ensures
        off + name.len() <= l.len(),
        ident_end(l, off) == off + name.len(),
        def_tail_at(l, off + name.len()),
        l.subrange(off, off + name.len()) == name,
        is_ident_start(l[off]),
{
    let t = def_line(name, w1, w2, w3, rest);
    let e = name.len() as int;
    let p1 = e + w1.len();
    let p2 = p1 + 1 + w2.len();
    let p3 = p2 + 1 + w3.len();
    assert(t.len() == p3 + 1 + rest.len());
    assert forall|k: int| 0 <= k < e implies #[trigger] t[k] == name[k] by {}
    assert forall|k: int| e <= k < p1 implies #[trigger] t[k] == w1[k - e] by {}
    assert(t[p1] == '(');
    assert forall|k: int| p1 + 1 <= k < p2 implies #[trigger] t[k] == w2[k - p1 - 1] by {}
    assert(t[p2] == ')');
    assert forall|k: int| p2 + 1 <= k < p3 implies #[trigger] t[k] == w3[k - p2 - 1] by {}
    assert(t[p3] == '{');
    assert forall|k: int| 0 <= k < t.len() implies #[trigger] l[off + k] == t[k] by {
        assert(l.subrange(off, l.len() as int)[k] == l[off + k]);
    }
    assert forall|k: int| off <= k < off + e implies is_ident_char(#[trigger] l[k]) by {
        assert(l[off + (k - off)] == t[k - off]);
    }
    assert(!is_ident_char(l[off + e])) by {
        assert(l[off + e] == t[e]);
        if w1.len() > 0 {
            lemma_ws_not_ident(w1[0]);
        }
    }
    lemma_ident_end_at(l, off, off + e);
    assert forall|k: int| off + e <= k < off + p1 implies is_ws(#[trigger] l[k]) by {
        assert(l[off + (k - off)] == t[k - off]);
    }
    assert(l[off + p1] == t[p1]);
    lemma_ws_end_at(l, off + e, off + p1);
    assert forall|k: int| off + p1 + 1 <= k < off + p2 implies is_ws(#[trigger] l[k]) by {
        assert(l[off + (k - off)] == t[k - off]);
    }
    assert(l[off + p2] == t[p2]);
    lemma_ws_end_at(l, off + p1 + 1, off + p2);
    assert forall|k: int| off + p2 + 1 <= k < off + p3 implies is_ws(#[trigger] l[k]) by {
        assert(l[off + (k - off)] == t[k - off]);
    }
    assert(l[off + p3] == t[p3]);
    lemma_ws_end_at(l, off + p2 + 1, off + p3);
    assert(l.subrange(off, off + e) =~= name) by {
        assert forall|k: int| 0 <= k < e implies #[trigger] l.subrange(off, off + e)[k] == name[k] by {
            assert(l[off + k] == t[k]);
        }
    }
    assert(l[off] == t[0]);
}

/// A line `<name> ( ) {` defines the function `<name>`, whatever the
/// whitespace around the parentheses and whatever follows the brace.
pub proof fn lemma_bash_def_plain(name: Seq<char>, w1: Seq<char>, w2: Seq<char>, w3: Seq<char>, rest: Seq<char>)
    requires
        is_bash_identifier(name),
        is_ws_run(w1),
        is_ws_run(w2),
        is_ws_run(w3),
    ensures
        bash_def_name(def_line(name, w1, w2, w3, rest)) == Some(name),
{
    let l = def_line(name, w1, w2, w3, rest);
    assert(l.subrange(0, l.len() as int) =~= l);
    lemma_def_tail(l, name, w1, w2, w3, rest, 0);
    reveal_strlit("function");
    if has_at(l, 0, "function"@) && 8 < l.len() && is_ws(l[8]) {
        // the name is `function` itself; what follows it is no identifier
        let e = name.len() as int;
        assert(l.subrange(0, 8)[0] == 'f');
        assert forall|k: int| 0 <= k < 8 implies is_ident_char(#[trigger] l[k]) by {
            assert(l.subrange(0, 8)[k] == l[k]);
        }
        if e < 8 {
            assert(!is_ident_char(l[e])) by {
                lemma_ident_end(l, 0);
            }
        }
        if e > 8 {
            lemma_ident_end(l, 0);
            assert(is_ident_char(l[8]));
            lemma_ws_not_ident(l[8]);
        }
        assert(e == 8);
        lemma_ws_end(l, 8);
        let a = ws_end(l, 8);
        assert(a == e + w1.len()) by {
            lemma_ws_end_at(l, 8, e + w1.len());
        }
        assert(l[a] == '(');
        assert(ident_def_at(l, a) is None);
    }
}

/// With the `function` keyword and whitespace before the name, the line
/// defines the same function.
pub proof fn lemma_bash_def_keyword(
    w0: Seq<char>,
    name: Seq<char>,
    w1: Seq<char>,
    w2: Seq<char>,
    w3: Seq<char>,
    rest: Seq<char>,
)
    requires
        w0.len() > 0,
        is_ws_run(w0),
        is_bash_identifier(name),
        is_ws_run(w1),
        is_ws_run(w2),
        is_ws_run(w3),
    ensures
        bash_def_name("function"@ + w0 + def_line(name, w1, w2, w3, rest)) == Some(name),
{
    reveal_strlit("function");
    let t = def_line(name, w1, w2, w3, rest);
    let l = "function"@ + w0 + t;
    let off: int = 8 + w0.len() as int;
    assert(l.subrange(off, l.len() as int) =~= t);
    lemma_def_tail(l, name, w1, w2, w3, rest, off);
    assert(l.subrange(0, 8) =~= "function"@);
    assert(l[8] == w0[0]);
    assert forall|k: int| 8 <= k < off implies is_ws(#[trigger] l[k]) by {
        assert(l[k] == w0[k - 8]);
    }
    assert(!is_ws(l[off])) by {
        if is_ws(l[off]) {
            lemma_ws_not_ident(l[off]);
        }
    }
    lemma_ws_end_at(l, 8, off);
}

/// The function that line `i` defines, with the annotations above it.
pub open spec fn bash_function_at(ls: Seq<Seq<char>>, i: int, category: Seq<char>) -> Option<FunctionView> {
    match bash_def_name(ls[i]) {
        Some(n) => {
            let ann: AnnView = block_annotations(ls, i, "#"@, false);
            let dn = display_name_of(n);
            Some(
                FunctionView {
                    name: n,
                    display_name: dn,
                    category: category,
                    description: match ann.description {
                        Some(d) => d,
                        None => "Execute: "@ + dn,
                    },
                    emoji: ann.emoji,
                    ignored: ann.ignored,
                    script_type: ScriptType::Bash,
                },
            )
        },
        None => None,
    }
}

/// The functions defined in the first `n` lines, in order.
pub open spec fn bash_functions(ls: Seq<Seq<char>>, n: int, category: Seq<char>) -> Seq<FunctionView>
    decreases n,
{
    if n <= 0 || n > ls.len() {
        Seq::empty()
    } else {
        let prev = bash_functions(ls, n - 1, category);
        match bash_function_at(ls, n - 1, category) {
            Some(f) => prev.push(f),
            None => prev,
        }
    }
}

fn def_tail_exec(l: &[char], n: usize) -> (r: bool)
    requires
        n <= l@.len(),
    ensures
        r == def_tail_at(l@, n as int),
{
    proof {
        lemma_ws_end(l@, n as int);
    }
    let a = ws_end_exec(l, n);
    if a >= l.len() || l[a] != '(' {
        return false;
    }
    proof {
        lemma_ws_end(l@, a + 1);
    }
    let b = ws_end_exec(l, a + 1);
    if b >= l.len() || l[b] != ')' {
        return false;
    }
    proof {
        lemma_ws_end(l@, b + 1);
    }
    let c = ws_end_exec(l, b + 1);
    c < l.len() && l[c] == '{'
}

fn ident_def_exec(l: &[char], p: usize) -> (r: Option<Vec<char>>)
    requires
        p <= l@.len(),
    ensures
        match r {
            Some(n) => ident_def_at(l@, p as int) == Some(n@),
            None => ident_def_at(l@, p as int) is None,
        },
{
    if p >= l.len() || !is_ident_start_exec(l[p]) {
        return None;
    }
    proof {
        lemma_ident_end(l@, p as int);
    }
    let e = ident_end_exec(l, p);
    if def_tail_exec(l, e) {
        Some(slice_to_vec(l, p, e))
    } else {
        None
    }
}

fn bash_def_name_exec(l: &[char]) -> (r: Option<Vec<char>>)
    ensures
        match r {
            Some(n) => bash_def_name(l@) == Some(n@),
            None => bash_def_name(l@) is None,
        },
{
    if has_lit(l, 0, "function") {
        proof {
            reveal_strlit("function");
        }
        if 8 < l.len() && is_ws_exec(l[8]) {
            proof {
                lemma_ws_end(l@, 8);
            }
            let p = ws_end_exec(l, 8);
            match ident_def_exec(l, p) {
                Some(n) => {
                    return Some(n);
                },
                None => {
                    return ident_def_exec(l, 0);
                },
            }
        }
    }
    ident_def_exec(l, 0)
}

/// Extracts the bash functions defined in a script's text, with the
/// `@emoji`, `@description` and `@ignore` annotations in the comment lines
/// (and blank lines) directly above each definition.
pub fn parse_script_content(content: &str, category: &str) -> (r: Vec<ScriptFunction>)
    ensures
        function_views(r@) == bash_functions(lines(content@), lines(content@).len() as int, category@),
{
    let ls = str_lines(content);
    let ghost lv = views(ls@);
    let mut out: Vec<ScriptFunction> = Vec::new();
    let mut i: usize = 0;
    while i < ls.len()
        invariant
            i <= ls@.len(),
            lv == views(ls@),
            lv == lines(content@),
            function_views(out@) == bash_functions(lv, i as int, category@),
        decreases ls.len() - i,
    {
        let l = ls[i].as_slice();
        assert(l@ == lv[i as int]);
        match bash_def_name_exec(l) {
            Some(n) => {
                let name = from_chars(n.as_slice());
                if is_valid_bash_identifier(name.as_str()) {
                    let ann = scan_block(&ls, i, "#", false);
                    let display_name = format_display_name(name.as_str());
                    let description = match ann.description {
                        Some(d) => d,
                        None => {
                            let mut d = String::from_str("Execute: ");
                            d.append(display_name.as_str());
                            d
                        },
                    };
                    let f = ScriptFunction {
                        name,
                        display_name,
                        category: String::from_str(category),
                        description,
                        emoji: ann.emoji,
                        ignored: ann.ignored,
                        script_type: ScriptType::Bash,
                    };
                    let ghost old_out = function_views(out@);
                    out.push(f);
                    assert(function_views(out@) =~= old_out.push(f@));
                } else {
                    proof {
                        lemma_def_name_is_identifier(n@, l@);
                    }
                }
            },
            None => {},
        }
        i = i + 1;
    }
    out
}

proof fn lemma_def_name_is_identifier(n: Seq<char>, l: Seq<char>)
    requires
        bash_def_name(l) == Some(n),
    ensures
        is_bash_identifier(n),
{
    assert forall|p: int| 0 <= p < l.len() && #[trigger] ident_def_at(l, p) is Some implies is_bash_identifier(
        ident_def_at(l, p).unwrap(),
    ) by {
        lemma_ident_end(l, p);
        let m = ident_def_at(l, p).unwrap();
        assert forall|k: int| 0 <= k < m.len() implies crate::text::is_ident_char(#[trigger] m[k]) by {
            assert(m[k] == l[p + k]);
        }
    }
    if has_at(l, 0, "function"@) && 8 < l.len() && is_ws(l[8]) && ident_def_at(l, ws_end(l, 8)) is Some {
        lemma_ws_end(l, 8);
    }
}

} // verus!
