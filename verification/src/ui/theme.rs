//! The built-in color themes of the interface.
use crate::text::{to_chars};
use crate::ui::config::default_theme_spec;
use vstd::prelude::*;

verus! {

/// A 24-bit color.
#[derive(Debug, Clone, Copy, PartialEq, Eq, Structural)]
pub struct Rgb {
    pub r: u8,
    pub g: u8,
    pub b: u8,
}

/// The colors of the interface, by role.
#[derive(Debug, Clone)]
pub struct Theme {
    /// The name shown in the theme picker.
    pub name: String,
    /// Background of panels and modals.
    pub bg: Rgb,
    /// Primary text.
    pub fg: Rgb,
    /// Muted text: separators, hints, footer.
    pub fg_dim: Rgb,
    /// Branding, focused borders, selected item.
    pub accent: Rgb,
    /// Highlighted names, search text, running borders.
    pub secondary: Rgb,
    pub success: Rgb,
    pub error: Rgb,
    /// Background of selected text in the output.
    pub selection_bg: Rgb,
}

/// The plain-value form of a [`Theme`].
pub struct ThemeView {
    pub name: Seq<char>,
    pub bg: Rgb,
    pub fg: Rgb,
    pub fg_dim: Rgb,
    pub accent: Rgb,
    pub secondary: Rgb,
    pub success: Rgb,
    pub error: Rgb,
    pub selection_bg: Rgb,
}

impl View for Theme {
    type V = ThemeView;

    open spec fn view(&self) -> ThemeView {
        ThemeView {
            name: self.name@,
            bg: self.bg,
            fg: self.fg,
            fg_dim: self.fg_dim,
            accent: self.accent,
            secondary: self.secondary,
            success: self.success,
            error: self.error,
            selection_bg: self.selection_bg,
        }
    }
}

pub open spec fn theme_views(v: Seq<Theme>) -> Seq<ThemeView> {
    v.map_values(|t: Theme| t@)
}

/// The built-in themes, in the order the picker shows them; the first is
/// the default.
pub open spec fn built_in_themes() -> Seq<ThemeView> {
    seq![
        ThemeView { name: "Catppuccin Mocha"@, bg: Rgb { r: 30, g: 30, b: 46 }, fg: Rgb { r: 205, g: 214, b: 244 }, fg_dim: Rgb { r: 108, g: 112, b: 134 }, accent: Rgb { r: 137, g: 180, b: 250 }, secondary: Rgb { r: 249, g: 226, b: 175 }, success: Rgb { r: 166, g: 227, b: 161 }, error: Rgb { r: 243, g: 139, b: 168 }, selection_bg: Rgb { r: 69, g: 71, b: 90 } },
        ThemeView { name: "Catppuccin Macchiato"@, bg: Rgb { r: 36, g: 39, b: 58 }, fg: Rgb { r: 202, g: 211, b: 245 }, fg_dim: Rgb { r: 110, g: 115, b: 141 }, accent: Rgb { r: 138, g: 173, b: 244 }, secondary: Rgb { r: 238, g: 212, b: 159 }, success: Rgb { r: 166, g: 218, b: 149 }, error: Rgb { r: 237, g: 135, b: 150 }, selection_bg: Rgb { r: 73, g: 77, b: 100 } },
        ThemeView { name: "Catppuccin Frappe"@, bg: Rgb { r: 48, g: 52, b: 70 }, fg: Rgb { r: 198, g: 208, b: 245 }, fg_dim: Rgb { r: 115, g: 121, b: 148 }, accent: Rgb { r: 140, g: 170, b: 238 }, secondary: Rgb { r: 229, g: 200, b: 144 }, success: Rgb { r: 166, g: 209, b: 137 }, error: Rgb { r: 231, g: 130, b: 132 }, selection_bg: Rgb { r: 81, g: 87, b: 109 } },
        ThemeView { name: "Dracula"@, bg: Rgb { r: 40, g: 42, b: 54 }, fg: Rgb { r: 248, g: 248, b: 242 }, fg_dim: Rgb { r: 98, g: 114, b: 164 }, accent: Rgb { r: 139, g: 233, b: 253 }, secondary: Rgb { r: 241, g: 250, b: 140 }, success: Rgb { r: 80, g: 250, b: 123 }, error: Rgb { r: 255, g: 85, b: 85 }, selection_bg: Rgb { r: 68, g: 71, b: 90 } },
        ThemeView { name: "Nord"@, bg: Rgb { r: 46, g: 52, b: 64 }, fg: Rgb { r: 216, g: 222, b: 233 }, fg_dim: Rgb { r: 76, g: 86, b: 106 }, accent: Rgb { r: 136, g: 192, b: 208 }, secondary: Rgb { r: 235, g: 203, b: 139 }, success: Rgb { r: 163, g: 190, b: 140 }, error: Rgb { r: 191, g: 97, b: 106 }, selection_bg: Rgb { r: 67, g: 76, b: 94 } },
        ThemeView { name: "Tokyo Night"@, bg: Rgb { r: 26, g: 27, b: 38 }, fg: Rgb { r: 169, g: 177, b: 214 }, fg_dim: Rgb { r: 86, g: 95, b: 137 }, accent: Rgb { r: 122, g: 162, b: 247 }, secondary: Rgb { r: 224, g: 175, b: 104 }, success: Rgb { r: 115, g: 218, b: 202 }, error: Rgb { r: 247, g: 118, b: 142 }, selection_bg: Rgb { r: 41, g: 46, b: 66 } },
        ThemeView { name: "Solarized Dark"@, bg: Rgb { r: 0, g: 43, b: 54 }, fg: Rgb { r: 131, g: 148, b: 150 }, fg_dim: Rgb { r: 88, g: 110, b: 117 }, accent: Rgb { r: 38, g: 139, b: 210 }, secondary: Rgb { r: 181, g: 137, b: 0 }, success: Rgb { r: 133, g: 153, b: 0 }, error: Rgb { r: 220, g: 50, b: 47 }, selection_bg: Rgb { r: 7, g: 54, b: 66 } },
        ThemeView { name: "Gruvbox Dark"@, bg: Rgb { r: 40, g: 40, b: 40 }, fg: Rgb { r: 235, g: 219, b: 178 }, fg_dim: Rgb { r: 146, g: 131, b: 116 }, accent: Rgb { r: 131, g: 165, b: 152 }, secondary: Rgb { r: 250, g: 189, b: 47 }, success: Rgb { r: 184, g: 187, b: 38 }, error: Rgb { r: 251, g: 73, b: 52 }, selection_bg: Rgb { r: 80, g: 73, b: 69 } },
        ThemeView { name: "One Dark"@, bg: Rgb { r: 40, g: 44, b: 52 }, fg: Rgb { r: 171, g: 178, b: 191 }, fg_dim: Rgb { r: 92, g: 99, b: 112 }, accent: Rgb { r: 97, g: 175, b: 239 }, secondary: Rgb { r: 229, g: 192, b: 123 }, success: Rgb { r: 152, g: 195, b: 121 }, error: Rgb { r: 224, g: 108, b: 117 }, selection_bg: Rgb { r: 62, g: 68, b: 82 } },
        ThemeView { name: "Monokai"@, bg: Rgb { r: 39, g: 40, b: 34 }, fg: Rgb { r: 232, g: 232, b: 227 }, fg_dim: Rgb { r: 117, g: 113, b: 94 }, accent: Rgb { r: 102, g: 217, b: 239 }, secondary: Rgb { r: 230, g: 219, b: 116 }, success: Rgb { r: 166, g: 226, b: 45 }, error: Rgb { r: 249, g: 39, b: 114 }, selection_bg: Rgb { r: 73, g: 72, b: 62 } },
        ThemeView { name: "Rose Pine"@, bg: Rgb { r: 25, g: 23, b: 36 }, fg: Rgb { r: 224, g: 222, b: 244 }, fg_dim: Rgb { r: 110, g: 106, b: 134 }, accent: Rgb { r: 156, g: 207, b: 216 }, secondary: Rgb { r: 246, g: 193, b: 119 }, success: Rgb { r: 156, g: 207, b: 216 }, error: Rgb { r: 235, g: 111, b: 146 }, selection_bg: Rgb { r: 38, g: 35, b: 58 } },
    ]
}

impl Theme {
    /// All built-in themes, in display order.
    pub fn all() -> (r: Vec<Theme>)
        ensures
            theme_views(r@) == built_in_themes(),
    {
        let mut v: Vec<Theme> = Vec::new();
    v.push(Theme { name: String::from_str("Catppuccin Mocha"), bg: Rgb { r: 30, g: 30, b: 46 }, fg: Rgb { r: 205, g: 214, b: 244 }, fg_dim: Rgb { r: 108, g: 112, b: 134 }, accent: Rgb { r: 137, g: 180, b: 250 }, secondary: Rgb { r: 249, g: 226, b: 175 }, success: Rgb { r: 166, g: 227, b: 161 }, error: Rgb { r: 243, g: 139, b: 168 }, selection_bg: Rgb { r: 69, g: 71, b: 90 } });
    v.push(Theme { name: String::from_str("Catppuccin Macchiato"), bg: Rgb { r: 36, g: 39, b: 58 }, fg: Rgb { r: 202, g: 211, b: 245 }, fg_dim: Rgb { r: 110, g: 115, b: 141 }, accent: Rgb { r: 138, g: 173, b: 244 }, secondary: Rgb { r: 238, g: 212, b: 159 }, success: Rgb { r: 166, g: 218, b: 149 }, error: Rgb { r: 237, g: 135, b: 150 }, selection_bg: Rgb { r: 73, g: 77, b: 100 } });
    v.push(Theme { name: String::from_str("Catppuccin Frappe"), bg: Rgb { r: 48, g: 52, b: 70 }, fg: Rgb { r: 198, g: 208, b: 245 }, fg_dim: Rgb { r: 115, g: 121, b: 148 }, accent: Rgb { r: 140, g: 170, b: 238 }, secondary: Rgb { r: 229, g: 200, b: 144 }, success: Rgb { r: 166, g: 209, b: 137 }, error: Rgb { r: 231, g: 130, b: 132 }, selection_bg: Rgb { r: 81, g: 87, b: 109 } });
    v.push(Theme { name: String::from_str("Dracula"), bg: Rgb { r: 40, g: 42, b: 54 }, fg: Rgb { r: 248, g: 248, b: 242 }, fg_dim: Rgb { r: 98, g: 114, b: 164 }, accent: Rgb { r: 139, g: 233, b: 253 }, secondary: Rgb { r: 241, g: 250, b: 140 }, success: Rgb { r: 80, g: 250, b: 123 }, error: Rgb { r: 255, g: 85, b: 85 }, selection_bg: Rgb { r: 68, g: 71, b: 90 } });
    v.push(Theme { name: String::from_str("Nord"), bg: Rgb { r: 46, g: 52, b: 64 }, fg: Rgb { r: 216, g: 222, b: 233 }, fg_dim: Rgb { r: 76, g: 86, b: 106 }, accent: Rgb { r: 136, g: 192, b: 208 }, secondary: Rgb { r: 235, g: 203, b: 139 }, success: Rgb { r: 163, g: 190, b: 140 }, error: Rgb { r: 191, g: 97, b: 106 }, selection_bg: Rgb { r: 67, g: 76, b: 94 } });
    v.push(Theme { name: String::from_str("Tokyo Night"), bg: Rgb { r: 26, g: 27, b: 38 }, fg: Rgb { r: 169, g: 177, b: 214 }, fg_dim: Rgb { r: 86, g: 95, b: 137 }, accent: Rgb { r: 122, g: 162, b: 247 }, secondary: Rgb { r: 224, g: 175, b: 104 }, success: Rgb { r: 115, g: 218, b: 202 }, error: Rgb { r: 247, g: 118, b: 142 }, selection_bg: Rgb { r: 41, g: 46, b: 66 } });
    v.push(Theme { name: String::from_str("Solarized Dark"), bg: Rgb { r: 0, g: 43, b: 54 }, fg: Rgb { r: 131, g: 148, b: 150 }, fg_dim: Rgb { r: 88, g: 110, b: 117 }, accent: Rgb { r: 38, g: 139, b: 210 }, secondary: Rgb { r: 181, g: 137, b: 0 }, success: Rgb { r: 133, g: 153, b: 0 }, error: Rgb { r: 220, g: 50, b: 47 }, selection_bg: Rgb { r: 7, g: 54, b: 66 } });
    v.push(Theme { name: String::from_str("Gruvbox Dark"), bg: Rgb { r: 40, g: 40, b: 40 }, fg: Rgb { r: 235, g: 219, b: 178 }, fg_dim: Rgb { r: 146, g: 131, b: 116 }, accent: Rgb { r: 131, g: 165, b: 152 }, secondary: Rgb { r: 250, g: 189, b: 47 }, success: Rgb { r: 184, g: 187, b: 38 }, error: Rgb { r: 251, g: 73, b: 52 }, selection_bg: Rgb { r: 80, g: 73, b: 69 } });
    v.push(Theme { name: String::from_str("One Dark"), bg: Rgb { r: 40, g: 44, b: 52 }, fg: Rgb { r: 171, g: 178, b: 191 }, fg_dim: Rgb { r: 92, g: 99, b: 112 }, accent: Rgb { r: 97, g: 175, b: 239 }, secondary: Rgb { r: 229, g: 192, b: 123 }, success: Rgb { r: 152, g: 195, b: 121 }, error: Rgb { r: 224, g: 108, b: 117 }, selection_bg: Rgb { r: 62, g: 68, b: 82 } });
    v.push(Theme { name: String::from_str("Monokai"), bg: Rgb { r: 39, g: 40, b: 34 }, fg: Rgb { r: 232, g: 232, b: 227 }, fg_dim: Rgb { r: 117, g: 113, b: 94 }, accent: Rgb { r: 102, g: 217, b: 239 }, secondary: Rgb { r: 230, g: 219, b: 116 }, success: Rgb { r: 166, g: 226, b: 45 }, error: Rgb { r: 249, g: 39, b: 114 }, selection_bg: Rgb { r: 73, g: 72, b: 62 } });
    v.push(Theme { name: String::from_str("Rose Pine"), bg: Rgb { r: 25, g: 23, b: 36 }, fg: Rgb { r: 224, g: 222, b: 244 }, fg_dim: Rgb { r: 110, g: 106, b: 134 }, accent: Rgb { r: 156, g: 207, b: 216 }, secondary: Rgb { r: 246, g: 193, b: 119 }, success: Rgb { r: 156, g: 207, b: 216 }, error: Rgb { r: 235, g: 111, b: 146 }, selection_bg: Rgb { r: 38, g: 35, b: 58 } });
        assert(theme_views(v@) =~= built_in_themes());
        v
    }

    /// The default theme (Catppuccin Mocha).
    pub fn default_theme() -> (r: Theme)
        ensures
            r@ == built_in_themes()[0],
    {
        let mut all = Theme::all();
        assert(built_in_themes().len() == 11);
        assert(theme_views(all@).len() == all@.len());
        assert(theme_views(all@)[0] == all@[0]@);
        all.remove(0)
    }

    /// The built-in theme at place `i` of the picker's list.
    pub fn at(i: usize) -> (r: Theme)
        requires
            i < built_in_themes().len(),
        ensures
            r@ == built_in_themes()[i as int],
    {
        let mut all = Theme::all();
        assert(theme_views(all@).len() == all@.len());
        assert(theme_views(all@)[i as int] == all@[i as int]@);
        all.remove(i)
    }

    /// A copy of the theme.
    pub fn copy(&self) -> (r: Theme)
        ensures
            r@ == self@,
    {
        Theme {
            name: self.name.clone(),
            bg: self.bg,
            fg: self.fg,
            fg_dim: self.fg_dim,
            accent: self.accent,
            secondary: self.secondary,
            success: self.success,
            error: self.error,
            selection_bg: self.selection_bg,
        }
    }

    /// The built-in theme with this name, ignoring ASCII case.
    pub fn by_name(name: &str) -> (r: Option<Theme>)
        ensures
            match r {
                Some(t) => exists|i: int|
                    0 <= i < built_in_themes().len() && ascii_eq_ignore_case(built_in_themes()[i].name, name@)
                        && (forall|j: int| 0 <= j < i ==> !ascii_eq_ignore_case(#[trigger] built_in_themes()[j].name, name@))
                        && t@ == built_in_themes()[i],
                None => forall|i: int|
                    0 <= i < built_in_themes().len() ==> !ascii_eq_ignore_case(#[trigger] built_in_themes()[i].name, name@),
            },
    {
        let mut all = Theme::all();
        let n = to_chars(name);
        let mut i: usize = 0;
        while i < all.len()
            invariant
                i <= all@.len(),
                theme_views(all@) == built_in_themes(),
                n@ == name@,
                forall|j: int| 0 <= j < i ==> !ascii_eq_ignore_case(#[trigger] built_in_themes()[j].name, name@),
            decreases all.len() - i,
        {
            let c = to_chars(all[i].name.as_str());
            assert(theme_views(all@)[i as int] == all@[i as int]@);
            if ascii_eq_ignore_case_exec(c.as_slice(), n.as_slice()) {
                return Some(all.remove(i));
            }
            i = i + 1;
        }
        None
    }
}

/// The place in the picker's list of the first built-in theme named
/// exactly `name` (from `i`), or 0 when there is none.
pub open spec fn theme_position_from(name: Seq<char>, i: int) -> int
    decreases built_in_themes().len() - i,
{
    if i < 0 || i >= built_in_themes().len() {
        0
    } else if built_in_themes()[i].name == name {
        i
    } else {
        theme_position_from(name, i + 1)
    }
}

/// The place in the picker's list of the built-in theme named exactly
/// `name`, or 0 when there is none.
pub open spec fn theme_position(name: Seq<char>) -> int {
    theme_position_from(name, 0)
}

proof fn lemma_theme_position_from(name: Seq<char>, i: int)
    ensures
        0 <= theme_position_from(name, i) < built_in_themes().len(),
    decreases built_in_themes().len() - i,
{
    if 0 <= i < built_in_themes().len() && built_in_themes()[i].name != name {
        lemma_theme_position_from(name, i + 1);
    }
}

/// The place in the picker's list of the built-in theme named exactly
/// `name`, or 0 when there is none.
pub fn theme_position_exec(name: &str) -> (r: usize)
    ensures
        r == theme_position(name@),
        r < built_in_themes().len(),
{
    let all = Theme::all();
    let n = to_chars(name);
    let mut i: usize = 0;
    proof {
        lemma_theme_position_from(name@, 0);
    }
    while i < all.len()
        invariant
            i <= all@.len(),
            theme_views(all@) == built_in_themes(),
            n@ == name@,
            theme_position_from(name@, 0) == theme_position_from(name@, i as int),
        decreases all.len() - i,
    {
        let c = to_chars(all[i].name.as_str());
        assert(theme_views(all@)[i as int] == all@[i as int]@);
        if crate::text::chars_eq(c.as_slice(), n.as_slice()) {
            return i;
        }
        i = i + 1;
    }
    0
}

/// The code of `char::to_ascii_lowercase`: ASCII capitals become small
/// letters, everything else is kept.
pub open spec fn ascii_lower_code(c: char) -> u32 {
    if 'A' <= c && c <= 'Z' {
        ((c as u32) + 32) as u32
    } else {
        c as u32
    }
}

pub fn ascii_lower_code_exec(c: char) -> (r: u32)
    ensures
        r == ascii_lower_code(c),
{
    if 'A' <= c && c <= 'Z' {
        (c as u32) + 32
    } else {
        c as u32
    }
}

/// `str::eq_ignore_ascii_case`: same length and equal characters once
/// ASCII letters are lowercased.
pub open spec fn ascii_eq_ignore_case(a: Seq<char>, b: Seq<char>) -> bool {
    a.len() == b.len() && forall|i: int| 0 <= i < a.len() ==> ascii_lower_code(#[trigger] a[i]) == ascii_lower_code(b[i])
}

fn ascii_eq_ignore_case_exec(a: &[char], b: &[char]) -> (r: bool)
    ensures
        r == ascii_eq_ignore_case(a@, b@),
{
    if a.len() != b.len() {
        return false;
    }
    let mut i: usize = 0;
    while i < a.len()
        invariant
            i <= a@.len(),
            a@.len() == b@.len(),
            forall|k: int| 0 <= k < i ==> ascii_lower_code(#[trigger] a@[k]) == ascii_lower_code(b@[k]),
        decreases a.len() - i,
    {
        if ascii_lower_code_exec(a[i]) != ascii_lower_code_exec(b[i]) {
            return false;
        }
        i = i + 1;
    }
    true
}

/// The theme of the default settings is a built-in theme: the first.
pub proof fn lemma_default_theme_built_in()
    ensures
        built_in_themes().len() > 0,
        built_in_themes()[0].name == default_theme_spec(),
{
}

/// The built-in themes have different names, so a name picks one theme.
pub proof fn lemma_theme_names_distinct()
    ensures
        forall|i: int, j: int|
            0 <= i < j < built_in_themes().len() ==> #[trigger] built_in_themes()[i].name != #[trigger] built_in_themes()[j].name,
{
    reveal_strlit("Catppuccin Mocha");
    reveal_strlit("Catppuccin Macchiato");
    reveal_strlit("Catppuccin Frappe");
    reveal_strlit("Dracula");
    reveal_strlit("Nord");
    reveal_strlit("Tokyo Night");
    reveal_strlit("Solarized Dark");
    reveal_strlit("Gruvbox Dark");
    reveal_strlit("One Dark");
    reveal_strlit("Monokai");
    reveal_strlit("Rose Pine");
    let t = built_in_themes();
    assert forall|i: int, j: int| 0 <= i < j < t.len() implies #[trigger] t[i].name != #[trigger] t[j].name by {
        if t[i].name.len() == t[j].name.len() {
            // only "Dracula" and "Monokai" share a length
            assert(t[i].name[0] != t[j].name[0]);
        }
    }
}

} // verus!
