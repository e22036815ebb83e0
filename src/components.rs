//! Launcher entries: key buttons, view shortcuts with white icons, and
//! applications read from desktop entries.

use vstd::prelude::*;
use vstd::utf8::encode_utf8;
use pretty_ini::ini::Ini;
use pretty_ini::ini_file::IniFile;
use crate::svg::{filled, lossy_of, set_svg_fill};

verus! {

/// A labelled key of the keyboard.
#[derive(Debug)]
pub struct KeyButton {
    pub label: String,
}

impl KeyButton {
    pub fn new(label: String) -> (b: KeyButton)
        ensures
            b.label == label,
    {
        KeyButton { label }
    }
}

pub open spec fn white() -> Seq<char> {
    seq!['W', 'h', 'i', 't', 'e']
}

/// A shortcut to a view: its name, its icon drawn in white, and an action.
#[derive(Debug)]
pub struct Shortcut {
    pub name: String,
    pub icon: Vec<u8>,
    pub action: Option<String>,
}

impl Shortcut {
    /// A shortcut whose icon has its first path filled in white.
    pub fn new(name: String, icon: &[u8], action: Option<String>) -> (s: Shortcut)
        ensures
            s.name == name,
            s.icon@ == filled(lossy_of(icon@), encode_utf8(white())),
            s.action == action,
    {
        proof {
            reveal_strlit("White");
        }
        let color = String::from_str("White");
        assert(color@ =~= white());
        let icon = set_svg_fill(icon, color);
        Shortcut { name, icon, action }
    }
}

// ---------------------------------------------------------------------------
// Desktop entries
// ---------------------------------------------------------------------------
#[verifier::external_type_specification]
#[verifier::external_body]
pub struct ExIni(Ini);

/// The values of a parsed INI document, by table name and key.
pub uninterp spec fn ini_values(ini: Ini) -> Map<(Seq<char>, Seq<char>), Seq<char>>;

/// The values that `pretty_ini` reads from the lines of a document.
pub uninterp spec fn parsed_values(lines: Seq<Seq<char>>) -> Map<(Seq<char>, Seq<char>), Seq<char>>;

/// Relies on `pretty_ini::ini::Ini::load` reading an `IniFile` whose buffer
/// is already filled: it parses those lines and touches no file. It fails
/// exactly when a line opens a table whose title, without brackets and
/// trimmed, is `root`.
#[verifier::external_body]
fn parse_ini(lines: Vec<String>) -> (r: Result<Ini, String>)
    ensures
        r is Err <==> has_root_title(lines@.map_values(|l: String| l@)),
        r matches Ok(ini) ==> ini_values(ini) == parsed_values(lines@.map_values(|l: String| l@)),
{
    let mut file = IniFile::default();
    file.set_buffer(lines);
    let mut ini = Ini::default();
    ini.load(&mut file).map(|_| ini)
}

/// Relies on `pretty_ini::ini::Ini::get`: the value under `key` in the table
/// `table`, if both exist.
#[verifier::external_body]
fn ini_get(ini: &Ini, table: &str, key: &str) -> (r: Option<String>)
    ensures
        match r {
            Some(v) => ini_values(*ini).contains_key((table@, key@)) && v@ == ini_values(
                *ini,
            )[(table@, key@)],
            None => !ini_values(*ini).contains_key((table@, key@)),
        },
{
    ini.get(table, key).ok().map(|v| v.value)
}

/// White space as `str::trim` sees it: the Unicode `White_Space` characters.
pub open spec fn is_white(c: char) -> bool {
    ('\u{9}' <= c && c <= '\u{d}') || c == ' ' || c == '\u{85}' || c == '\u{a0}' || c == '\u{1680}'
        || ('\u{2000}' <= c && c <= '\u{200a}') || c == '\u{2028}' || c == '\u{2029}' || c
        == '\u{202f}' || c == '\u{205f}' || c == '\u{3000}'
}

/// The line without its square brackets.
pub open spec fn unbracketed(line: Seq<char>) -> Seq<char> {
    line.filter(|c: char| c != '[' && c != ']')
}

/// `s` without its leading white space.
pub open spec fn trim_start(s: Seq<char>) -> Seq<char>
    decreases s.len(),
{
    if s.len() > 0 && is_white(s[0]) {
        trim_start(s.drop_first())
    } else {
        s
    }
}

/// `s` without its trailing white space.
pub open spec fn trim_end(s: Seq<char>) -> Seq<char>
    decreases s.len(),
{
    if s.len() > 0 && is_white(s.last()) {
        trim_end(s.drop_last())
    } else {
        s
    }
}

/// `s` is `root` with white space around it.
pub open spec fn trims_to_root(s: Seq<char>) -> bool {
    trim_end(trim_start(s)) == seq!['r', 'o', 'o', 't']
}

/// The line opens a table named `root`.
pub open spec fn is_root_title(line: Seq<char>) -> bool {
    line.len() > 0 && line[0] == '[' && trims_to_root(unbracketed(line))
}

/// Some line opens a table named `root`.
pub open spec fn has_root_title(lines: Seq<Seq<char>>) -> bool {
    exists|k: int| 0 <= k < lines.len() && is_root_title(#[trigger] lines[k])
}

pub open spec fn desktop_entry() -> Seq<char> {
    seq!['D', 'e', 's', 'k', 't', 'o', 'p', ' ', 'E', 'n', 't', 'r', 'y']
}

/// The value under `key` in the `Desktop Entry` table.
pub open spec fn entry_value(values: Map<(Seq<char>, Seq<char>), Seq<char>>, key: Seq<char>) -> Option<Seq<char>> {
    if values.contains_key((desktop_entry(), key)) {
        Some(values[(desktop_entry(), key)])
    } else {
        None
    }
}

/// The first space in `s` at or after `from`.
pub open spec fn space_from(s: Seq<char>, from: int) -> Option<int>
    decreases s.len() - from,
{
    if from < 0 || from >= s.len() {
        None
    } else if s[from] == ' ' {
        Some(from)
    } else {
        space_from(s, from + 1)
    }
}

/// The command of an `Exec` line: everything before the first space, which
/// drops the field codes such as `%U`.
pub open spec fn command_of(exec: Seq<char>) -> Seq<char> {
    match space_from(exec, 0) {
        Some(i) => exec.subrange(0, i),
        None => exec,
    }
}

/// Whether an icon value is a path rather than a theme icon name.
pub open spec fn is_icon_path(icon: Seq<char>) -> bool {
    exists|i: int| 0 <= i < icon.len() && icon[i] == '/'
}

/// An application found through a desktop entry.
#[derive(Debug)]
pub struct App {
    pub name: String,
    /// The icon's file, once known.
    pub icon: Option<String>,
    /// The icon's theme name, still to be looked up in the icon themes.
    pub icon_name: Option<String>,
    pub executable: Option<String>,
    /// The desktop entry the application was read from.
    pub desktop: String,
}

fn first_word(s: &String) -> (r: String)
    ensures
        r@ == command_of(s@),
{
    let n = s.as_str().unicode_len();
    let mut i: usize = 0;
    while i < n
        invariant
            n == s@.len(),
            i <= n,
            space_from(s@, 0) == space_from(s@, i as int),
        decreases n - i,
    {
        if s.as_str().get_char(i) == ' ' {
            let r = s.as_str().substring_char(0, i);
            return String::from_str(r);
        }
        i = i + 1;
    }
    s.clone()
}

/// The characters of `line` other than square brackets.
fn strip_brackets(line: &String) -> (r: Vec<char>)
    ensures
        r@ == unbracketed(line@),
{
    let n = line.as_str().unicode_len();
    let ghost orig = line@;
    let mut kept: Vec<char> = Vec::new();
    let mut i: usize = 0;
    assert(orig.subrange(0, 0) =~= Seq::<char>::empty());
    while i < n
        invariant
            orig == line@,
            n == orig.len(),
            i <= n,
            kept@ == unbracketed(orig.subrange(0, i as int)),
        decreases n - i,
    {
        let c = line.as_str().get_char(i);
        proof {
            let t = orig.subrange(0, i + 1);
            assert(t.drop_last() =~= orig.subrange(0, i as int));
            assert(t.last() == c);
            assert(unbracketed(t) == if c != '[' && c != ']' {
                unbracketed(orig.subrange(0, i as int)).push(c)
            } else {
                unbracketed(orig.subrange(0, i as int))
            }) by {
                reveal(Seq::filter);
            }
        }
        if c != '[' && c != ']' {
            kept.push(c);
        }
        i = i + 1;
    }
    proof {
        assert(orig.subrange(0, n as int) =~= orig);
    }
    kept
}

fn white_space(c: char) -> (r: bool)
    ensures
        r == is_white(c),
{
    ('\u{9}' <= c && c <= '\u{d}') || c == ' ' || c == '\u{85}' || c == '\u{a0}' || c == '\u{1680}'
        || ('\u{2000}' <= c && c <= '\u{200a}') || c == '\u{2028}' || c == '\u{2029}' || c
        == '\u{202f}' || c == '\u{205f}' || c == '\u{3000}'
}

proof fn lemma_trim_start_step(s: Seq<char>, i: int)
    requires
        0 <= i < s.len(),
        is_white(s[i]),
    ensures
        trim_start(s.subrange(i, s.len() as int)) == trim_start(s.subrange(i + 1, s.len() as int)),
{
    assert(s.subrange(i, s.len() as int).drop_first() =~= s.subrange(i + 1, s.len() as int));
}

/// Whether the line opens a table named `root`.
fn root_title(line: &String) -> (r: bool)
    ensures
        r == is_root_title(line@),
{
    let n = line.as_str().unicode_len();
    if n == 0 || line.as_str().get_char(0) != '[' {
        return false;
    }
    let s = strip_brackets(line);
    let len = s.len();
    let mut i: usize = 0;
    assert(s@.subrange(0, len as int) =~= s@);
    while i < len && white_space(s[i])
        invariant
            len == s@.len(),
            i <= len,
            trim_start(s@) == trim_start(s@.subrange(i as int, len as int)),
        decreases len - i,
    {
        proof {
            lemma_trim_start_step(s@, i as int);
        }
        i = i + 1;
    }
    let ghost t = s@.subrange(i as int, len as int);
    assert(trim_start(t) == t);
    let mut j: usize = len;
    assert(t.subrange(0, t.len() as int) =~= t);
    while j > i && white_space(s[j - 1])
        invariant
            len == s@.len(),
            i <= j <= len,
            t == s@.subrange(i as int, len as int),
            trim_end(t) == trim_end(s@.subrange(i as int, j as int)),
        decreases j,
    {
        proof {
            let u = s@.subrange(i as int, j as int);
            assert(u.drop_last() =~= s@.subrange(i as int, j - 1));
        }
        j = j - 1;
    }
    let ghost v = s@.subrange(i as int, j as int);
    assert(trim_end(v) == v);
    if j - i != 4 {
        return false;
    }
    let r = s[i] == 'r' && s[i + 1] == 'o' && s[i + 2] == 'o' && s[i + 3] == 't';
    proof {
        if r {
            assert(v =~= seq!['r', 'o', 'o', 't']);
        } else {
            assert(v != seq!['r', 'o', 'o', 't']) by {
                if v == seq!['r', 'o', 'o', 't'] {
                    assert(v[0] == 'r' && v[1] == 'o' && v[2] == 'o' && v[3] == 't');
                }
            }
        }
    }
    r
}

/// Whether some line opens a table named `root`, which desktop entries
/// may not hold.
pub fn has_root_table(lines: &Vec<String>) -> (r: bool)
    ensures
        r == has_root_title(lines@.map_values(|l: String| l@)),
{
    let ghost views = lines@.map_values(|l: String| l@);
    let mut i: usize = 0;
    while i < lines.len()
        invariant
            views == lines@.map_values(|l: String| l@),
            i <= lines@.len(),
            forall|k: int| 0 <= k < i ==> !is_root_title(#[trigger] views[k]),
        decreases lines@.len() - i,
    {
        if root_title(&lines[i]) {
            assert(is_root_title(views[i as int]));
            return true;
        }
        i = i + 1;
    }
    false
}

fn has_slash(s: &String) -> (r: bool)
    ensures
        r == is_icon_path(s@),
{
    let n = s.as_str().unicode_len();
    let mut i: usize = 0;
    while i < n
        invariant
            n == s@.len(),
            i <= n,
            forall|j: int| 0 <= j < i ==> s@[j] != '/',
        decreases n - i,
    {
        if s.as_str().get_char(i) == '/' {
            return true;
        }
        i = i + 1;
    }
    false
}

impl App {
    /// Reads an application from the lines of its desktop entry at
    /// `app_path`: the `Name`, `Icon` and `Exec` values of the
    /// `Desktop Entry` table. An icon given as a path is kept as the icon's
    /// file; any other is a theme icon name. The executable is the `Exec`
    /// value up to its first space. Desktop entries hold no table named
    /// `root`.
    pub fn new(app_path: String, lines: Vec<String>) -> (app: App)
        requires
            !has_root_title(lines@.map_values(|l: String| l@)),
        ensures
            app.desktop == app_path,
            ({
                let values = parsed_values(lines@.map_values(|l: String| l@));
                {
                    &&& app.name@ == match entry_value(values, seq!['N', 'a', 'm', 'e']) {
                        Some(v) => v,
                        None => Seq::empty(),
                    }
                    &&& match entry_value(values, seq!['I', 'c', 'o', 'n']) {
                        Some(v) => if is_icon_path(v) {
                            (app.icon matches Some(p) && p@ == v) && app.icon_name is None
                        } else {
                            app.icon is None && (app.icon_name matches Some(n) && n@ == v)
                        },
                        None => app.icon is None && app.icon_name is None,
                    }
                    &&& match entry_value(values, seq!['E', 'x', 'e', 'c']) {
                        Some(v) => app.executable matches Some(e) && e@ == command_of(v),
                        None => app.executable is None,
                    }
                }
            }),
    {
        let mut app = App {
            name: String::new(),
            icon: None,
            icon_name: None,
            executable: None,
            desktop: app_path,
        };
        let ini = match parse_ini(lines) {
            Ok(ini) => ini,
            Err(_) => {
                return app;
            },
        };
        proof {
            reveal_strlit("Desktop Entry");
            reveal_strlit("Name");
            reveal_strlit("Icon");
            reveal_strlit("Exec");
            assert("Desktop Entry"@ =~= desktop_entry());
            assert("Name"@ =~= seq!['N', 'a', 'm', 'e']);
            assert("Icon"@ =~= seq!['I', 'c', 'o', 'n']);
            assert("Exec"@ =~= seq!['E', 'x', 'e', 'c']);
        }
        if let Some(name) = ini_get(&ini, "Desktop Entry", "Name") {
            app.name = name;
        }
        if let Some(icon) = ini_get(&ini, "Desktop Entry", "Icon") {
            if has_slash(&icon) {
                app.icon = Some(icon);
            } else {
                app.icon_name = Some(icon);
            }
        }
        if let Some(exec) = ini_get(&ini, "Desktop Entry", "Exec") {
            app.executable = Some(first_word(&exec));
        }
        app
    }
}

} // verus!
