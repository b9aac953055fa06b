//! The configuration: settings, the trigger-name to action-text bindings, and
//! the built-in defaults.
use vstd::prelude::*;
use std::path::PathBuf;

verus! {

/// The text view of a list of name/action pairs.
pub open spec fn pair_views(v: Seq<(String, String)>) -> Seq<(Seq<char>, Seq<char>)> {
    v.map_values(|e: (String, String)| (e.0@, e.1@))
}

/// Whether no name occurs twice among the pairs.
pub open spec fn names_distinct(s: Seq<(Seq<char>, Seq<char>)>) -> bool {
    forall|i: int, j: int| 0 <= i < j < s.len() ==> s[i].0 != s[j].0
}

/// Trigger key names bound to action texts, each name at most once, in the
/// order in which the names were first bound.
#[derive(Debug)]
pub struct CursorMap {
    entries: Vec<(String, String)>,
}

impl View for CursorMap {
    type V = Seq<(Seq<char>, Seq<char>)>;

    closed spec fn view(&self) -> Seq<(Seq<char>, Seq<char>)> {
        pair_views(self.entries@)
    }
}

/// The map after binding `name` to `action`: an existing binding of the name
/// takes the new action in its place, otherwise the pair is appended.
pub open spec fn bind(s: Seq<(Seq<char>, Seq<char>)>, name: Seq<char>, action: Seq<char>) -> Seq<(Seq<char>, Seq<char>)> {
    if exists|i: int| 0 <= i < s.len() && s[i].0 == name {
        let i = choose|i: int| 0 <= i < s.len() && s[i].0 == name;
        s.update(i, (name, action))
    } else {
        s.push((name, action))
    }
}

proof fn lemma_bind_new(s: Seq<(Seq<char>, Seq<char>)>, name: Seq<char>, action: Seq<char>)
    requires
        forall|j: int| 0 <= j < s.len() ==> s[j].0 != name,
    ensures
        bind(s, name, action) == s.push((name, action)),
{
}

impl Clone for CursorMap {
    fn clone(&self) -> (r: CursorMap)
        ensures
            r@ == self@,
    {
        proof {
            use_type_invariant(self);
        }
        let mut out: Vec<(String, String)> = Vec::new();
        let mut i: usize = 0;
        while i < self.entries.len()
            invariant
                i <= self.entries@.len(),
                pair_views(out@) == pair_views(self.entries@).take(i as int),
                names_distinct(pair_views(self.entries@)),
            decreases self.entries@.len() - i,
        {
            let name = self.entries[i].0.clone();
            let action = self.entries[i].1.clone();
            let ghost prev = out@;
            let ghost pair = (name, action);
            assert(pair_views(prev.push(pair)) =~= pair_views(prev).push((pair.0@, pair.1@)));
            out.push((name, action));
            assert(out@ == prev.push(pair));
            assert(pair_views(out@) =~= pair_views(self.entries@).take(i + 1));
            i = i + 1;
        }
        assert(pair_views(self.entries@).take(i as int) =~= pair_views(self.entries@));
        CursorMap { entries: out }
    }
}

impl CursorMap {
    #[verifier::type_invariant]
    spec fn distinct(&self) -> bool {
        names_distinct(pair_views(self.entries@))
    }

    /// An empty map.
    pub fn new() -> (r: CursorMap)
        ensures
            r@ == Seq::<(Seq<char>, Seq<char>)>::empty(),
    {
        let r = CursorMap { entries: Vec::new() };
        assert(pair_views(r.entries@) =~= Seq::<(Seq<char>, Seq<char>)>::empty());
        r
    }

    /// The number of bound names.
    pub fn len(&self) -> (r: usize)
        ensures
            r == self@.len(),
    {
        self.entries.len()
    }

    /// The name/action pairs, in order.
    pub fn entries(&self) -> (r: &Vec<(String, String)>)
        ensures
            pair_views(r@) == self@,
    {
        &self.entries
    }

    /// Binds `name` to `action`, replacing the action of an existing binding
    /// of the same name.
    pub fn insert(&mut self, name: String, action: String)
        ensures
            final(self)@ == bind(old(self)@, name@, action@),
            names_distinct(final(self)@),
    {
        proof {
            use_type_invariant(&*self);
        }
        let ghost before = self@;
        let mut e: Vec<(String, String)> = Vec::new();
        std::mem::swap(&mut e, &mut self.entries);
        assert(pair_views(e@) == before);
        let mut i: usize = 0;
        while i < e.len()
            invariant
                i <= e@.len(),
                pair_views(e@) == before,
                before == old(self)@,
                names_distinct(before),
                forall|j: int| 0 <= j < i ==> before[j].0 != name@,
            decreases e@.len() - i,
        {
            if e[i].0 == name {
                assert(before[i as int].0 == name@);
                e.set(i, (name, action));
                proof {
                    assert(pair_views(e@) =~= before.update(i as int, (name@, action@)));
                    let k = choose|k: int| 0 <= k < before.len() && before[k].0 == name@;
                    assert(k == i);
                }
                *self = CursorMap { entries: e };
                return ;
            }
            i = i + 1;
        }
        let ghost nm = name@;
        let ghost ac = action@;
        e.push((name, action));
        assert(pair_views(e@) =~= before.push((nm, ac)));
        *self = CursorMap { entries: e };
    }
}


/// The default hold threshold in milliseconds.
pub fn default_hold_threshold() -> (r: u64)
    ensures
        r == 200,
{
    200
}

/// The default of `tap_to_toggle`.
pub fn default_true() -> (r: bool)
    ensures
        r,
{
    true
}

/// How Caps Lock presses are told apart.
#[derive(Debug, Clone, Copy, PartialEq, Eq, Structural)]
pub struct Settings {
    /// A press at least this long (in milliseconds) is a hold, not a tap.
    pub hold_threshold_ms: u64,
    /// Whether a tap flips Caps Lock.
    pub tap_to_toggle: bool,
}

impl Default for Settings {
    fn default() -> (r: Settings)
        ensures
            r.hold_threshold_ms == 200,
            r.tap_to_toggle,
    {
        Settings { hold_threshold_ms: default_hold_threshold(), tap_to_toggle: default_true() }
    }
}

/// The bindings of trigger key names to action texts.
#[derive(Debug, Clone)]
pub struct Mappings {
    pub cursor: CursorMap,
}

impl Default for Mappings {
    fn default() -> (r: Mappings)
        ensures
            r.cursor@ == Seq::<(Seq<char>, Seq<char>)>::empty(),
    {
        Mappings { cursor: CursorMap::new() }
    }
}

/// The whole configuration.
#[derive(Debug, Clone)]
pub struct Config {
    pub settings: Settings,
    pub mappings: Mappings,
}

impl Default for Config {
    fn default() -> (r: Config)
        ensures
            r.settings.hold_threshold_ms == 200,
            r.settings.tap_to_toggle,
            r.mappings.cursor@ == Seq::<(Seq<char>, Seq<char>)>::empty(),
    {
        Config { settings: Settings::default(), mappings: Mappings::default() }
    }
}

/// The built-in bindings: ESDF cursor movement, Home/End, selection,
/// deletion, selecting the line and opening new lines.
pub open spec fn default_bindings() -> Seq<(Seq<char>, Seq<char>)> {
    seq![
        ("e"@, "Up"@),
        ("s"@, "Left"@),
        ("d"@, "Down"@),
        ("f"@, "Right"@),
        ("w"@, "Home"@),
        ("r"@, "End"@),
        ("i"@, "Shift+Up"@),
        ("j"@, "Shift+Left"@),
        ("k"@, "Shift+Down"@),
        ("l"@, "Shift+Right"@),
        ("u"@, "Shift+Home"@),
        ("o"@, "Shift+End"@),
        ("n"@, "Backspace"@),
        ("m"@, "Delete"@),
        ("y"@, "Shift+Home, Delete"@),
        ("h"@, "Shift+End, Delete"@),
        ("backspace"@, "Home, Shift+End, Delete"@),
        ("space"@, "Home, Shift+End"@),
        ("alt+enter"@, "Home, Enter, Up"@),
        ("enter"@, "End, Enter"@),
    ]
}

/// The configuration file that a first run writes: the default settings and
/// the built-in bindings.
pub const DEFAULT_TOML: &'static str = "[settings]
hold_threshold_ms = 200
tap_to_toggle = true

[mappings.cursor]
# Cursor movement (ESDF)
e = \"Up\"
s = \"Left\"
d = \"Down\"
f = \"Right\"
w = \"Home\"
r = \"End\"
# Selection
i = \"Shift+Up\"
j = \"Shift+Left\"
k = \"Shift+Down\"
l = \"Shift+Right\"
u = \"Shift+Home\"
o = \"Shift+End\"
# Deletion
n = \"Backspace\"
m = \"Delete\"
y = \"Shift+Home, Delete\"
h = \"Shift+End, Delete\"
backspace = \"Home, Shift+End, Delete\"
# Select the whole line
space = \"Home, Shift+End\"
# New lines
\"alt+enter\" = \"Home, Enter, Up\"
enter = \"End, Enter\"
";

proof fn lemma_default_names_distinct()
    ensures
        names_distinct(default_bindings()),
{
    reveal_strlit("e");
    reveal_strlit("s");
    reveal_strlit("d");
    reveal_strlit("f");
    reveal_strlit("w");
    reveal_strlit("r");
    reveal_strlit("i");
    reveal_strlit("j");
    reveal_strlit("k");
    reveal_strlit("l");
    reveal_strlit("u");
    reveal_strlit("o");
    reveal_strlit("n");
    reveal_strlit("m");
    reveal_strlit("y");
    reveal_strlit("h");
    reveal_strlit("backspace");
    reveal_strlit("space");
    reveal_strlit("alt+enter");
    reveal_strlit("enter");
    let d = default_bindings();
    assert(d[0].0 == "e"@);
    assert(d[1].0 == "s"@);
    assert(d[2].0 == "d"@);
    assert(d[3].0 == "f"@);
    assert(d[4].0 == "w"@);
    assert(d[5].0 == "r"@);
    assert(d[6].0 == "i"@);
    assert(d[7].0 == "j"@);
    assert(d[8].0 == "k"@);
    assert(d[9].0 == "l"@);
    assert(d[10].0 == "u"@);
    assert(d[11].0 == "o"@);
    assert(d[12].0 == "n"@);
    assert(d[13].0 == "m"@);
    assert(d[14].0 == "y"@);
    assert(d[15].0 == "h"@);
    assert(d[16].0 == "backspace"@);
    assert(d[17].0 == "space"@);
    assert(d[18].0 == "alt+enter"@);
    assert(d[19].0 == "enter"@);
    assert forall|i: int, j: int| 0 <= i < j < d.len() implies d[i].0 != d[j].0 by {
        assert(i == 0 || i == 1 || i == 2 || i == 3 || i == 4 || i == 5 || i == 6 || i == 7 || i == 8 || i == 9 || i == 10 || i == 11 || i == 12 || i == 13 || i == 14 || i == 15 || i == 16 || i == 17 || i == 18 || i == 19);
        assert(j == 0 || j == 1 || j == 2 || j == 3 || j == 4 || j == 5 || j == 6 || j == 7 || j == 8 || j == 9 || j == 10 || j == 11 || j == 12 || j == 13 || j == 14 || j == 15 || j == 16 || j == 17 || j == 18 || j == 19);
        assert(d[i].0.len() != d[j].0.len() || d[i].0[0] != d[j].0[0]);
    }
}

impl Config {
    /// The built-in configuration: default settings and the built-in
    /// bindings, in that order.
    pub fn default_config() -> (r: Config)
        ensures
            r.settings.hold_threshold_ms == 200,
            r.settings.tap_to_toggle,
            r.mappings.cursor@ == default_bindings(),
    {
        proof {
            lemma_default_names_distinct();
        }
        let pairs: Vec<(&str, &str)> = vec![
            ("e", "Up"),
            ("s", "Left"),
            ("d", "Down"),
            ("f", "Right"),
            ("w", "Home"),
            ("r", "End"),
            ("i", "Shift+Up"),
            ("j", "Shift+Left"),
            ("k", "Shift+Down"),
            ("l", "Shift+Right"),
            ("u", "Shift+Home"),
            ("o", "Shift+End"),
            ("n", "Backspace"),
            ("m", "Delete"),
            ("y", "Shift+Home, Delete"),
            ("h", "Shift+End, Delete"),
            ("backspace", "Home, Shift+End, Delete"),
            ("space", "Home, Shift+End"),
            ("alt+enter", "Home, Enter, Up"),
            ("enter", "End, Enter"),
        ];
        let ghost d = default_bindings();
        assert(pairs@.len() == d.len());
        assert(forall|i: int| 0 <= i < d.len() ==> (#[trigger] pairs@[i]).0@ == d[i].0 && pairs@[i].1@ == d[i].1);
        let mut cursor = CursorMap::new();
        let mut i: usize = 0;
        assert(d.take(0) =~= Seq::<(Seq<char>, Seq<char>)>::empty());
        while i < pairs.len()
            invariant
                i <= pairs@.len() == d.len(),
                d == default_bindings(),
                names_distinct(d),
                forall|j: int| 0 <= j < d.len() ==> (#[trigger] pairs@[j]).0@ == d[j].0 && pairs@[j].1@ == d[j].1,
                cursor@ == d.take(i as int),
            decreases pairs@.len() - i,
        {
            let (name, action) = pairs[i];
            let ghost prev = cursor@;
            cursor.insert(name.to_owned(), action.to_owned());
            proof {
                assert(forall|j: int| 0 <= j < prev.len() ==> prev[j].0 != name@);
                lemma_bind_new(prev, name@, action@);
                assert(d.take(i as int + 1) =~= prev.push((name@, action@)));
            }
            i = i + 1;
        }
        assert(d.take(d.len() as int) =~= d);
        Config { settings: Settings::default(), mappings: Mappings { cursor } }
    }

    /// The text of the configuration file that a first run writes.
    pub fn default_toml_content() -> (r: &'static str)
        ensures
            r@ == DEFAULT_TOML@,
    {
        DEFAULT_TOML
    }
}

#[verifier::external_type_specification]
#[verifier::external_body]
pub struct ExPathBuf(PathBuf);

/// `Clone::clone` on std's `PathBuf`, which the derived `Clone` of
/// `AppConfig` calls. A `PathBuf` is opaque here, so nothing is claimed of
/// the copy; the call does not panic.
pub assume_specification [<std::path::PathBuf as std::clone::Clone>::clone] (_0: &PathBuf) -> PathBuf;

/// The configuration in use and the file it comes from.
#[derive(Debug, Clone)]
pub struct AppConfig {
    pub config: Config,
    pub config_path: PathBuf,
}

impl AppConfig {
    pub fn new(config: Config, config_path: PathBuf) -> (r: AppConfig)
        ensures
            r.config == config,
            r.config_path == config_path,
    {
        AppConfig { config, config_path }
    }

    /// Takes a freshly loaded configuration in place of the current one; a
    /// failed load (`None`) keeps the current configuration.
    pub fn reload(&mut self, loaded: Option<Config>)
        ensures
            final(self).config_path == old(self).config_path,
            match loaded {
                Some(c) => final(self).config == c,
                None => final(self).config == old(self).config,
            },
    {
        if let Some(c) = loaded {
            self.config = c;
        }
    }
}

} // verus!
