//! Colour themes: five that are built in, and a manager that holds them
//! under their keys together with those that were added.

use crate::store::{lemma_place_of_is, place_of};
use crate::text::{chars_of, is_word, push_range, string_of};
use vstd::prelude::*;

verus! {

/// A colour as red, green and blue.
#[derive(Clone, Copy, Debug, PartialEq, Eq, Structural)]
pub struct SerializableColor {
    pub r: u8,
    pub g: u8,
    pub b: u8,
}

/// The colour of the three parts.
pub open spec fn rgb(r: u8, g: u8, b: u8) -> SerializableColor {
    SerializableColor { r, g, b }
}

/// A theme as it is written to a file.
#[derive(Clone, Debug, PartialEq, Eq)]
pub struct SerializableTheme {
    pub name: String,
    pub background: SerializableColor,
    pub foreground: SerializableColor,
    pub primary: SerializableColor,
    pub secondary: SerializableColor,
    pub accent: SerializableColor,
    pub surface0: SerializableColor,
    pub surface1: SerializableColor,
    pub surface2: SerializableColor,
    pub text: SerializableColor,
    pub subtext: SerializableColor,
    pub red: SerializableColor,
    pub yellow: SerializableColor,
    pub green: SerializableColor,
    pub blue: SerializableColor,
    pub mauve: SerializableColor,
    pub lavender: SerializableColor,
}

/// A theme: a name and the colours of the parts of the picture.
#[derive(Clone, Debug, PartialEq, Eq)]
pub struct Theme {
    pub name: String,
    pub background: SerializableColor,
    pub foreground: SerializableColor,
    pub primary: SerializableColor,
    pub secondary: SerializableColor,
    pub accent: SerializableColor,
    pub surface0: SerializableColor,
    pub surface1: SerializableColor,
    pub surface2: SerializableColor,
    pub text: SerializableColor,
    pub subtext: SerializableColor,
    pub red: SerializableColor,
    pub yellow: SerializableColor,
    pub green: SerializableColor,
    pub blue: SerializableColor,
    pub mauve: SerializableColor,
    pub lavender: SerializableColor,
}

/// A theme as a value of mathematics.
pub struct ThemeModel {
    pub name: Seq<char>,
    pub background: SerializableColor,
    pub foreground: SerializableColor,
    pub primary: SerializableColor,
    pub secondary: SerializableColor,
    pub accent: SerializableColor,
    pub surface0: SerializableColor,
    pub surface1: SerializableColor,
    pub surface2: SerializableColor,
    pub text: SerializableColor,
    pub subtext: SerializableColor,
    pub red: SerializableColor,
    pub yellow: SerializableColor,
    pub green: SerializableColor,
    pub blue: SerializableColor,
    pub mauve: SerializableColor,
    pub lavender: SerializableColor,
}

impl View for SerializableTheme {
    type V = ThemeModel;

    open spec fn view(&self) -> ThemeModel {
        ThemeModel {
            name: self.name@,
            background: self.background,
            foreground: self.foreground,
            primary: self.primary,
            secondary: self.secondary,
            accent: self.accent,
            surface0: self.surface0,
            surface1: self.surface1,
            surface2: self.surface2,
            text: self.text,
            subtext: self.subtext,
            red: self.red,
            yellow: self.yellow,
            green: self.green,
            blue: self.blue,
            mauve: self.mauve,
            lavender: self.lavender,
        }
    }
}

impl View for Theme {
    type V = ThemeModel;

    open spec fn view(&self) -> ThemeModel {
        ThemeModel {
            name: self.name@,
            background: self.background,
            foreground: self.foreground,
            primary: self.primary,
            secondary: self.secondary,
            accent: self.accent,
            surface0: self.surface0,
            surface1: self.surface1,
            surface2: self.surface2,
            text: self.text,
            subtext: self.subtext,
            red: self.red,
            yellow: self.yellow,
            green: self.green,
            blue: self.blue,
            mauve: self.mauve,
            lavender: self.lavender,
        }
    }
}

impl vstd::std_specs::convert::FromSpecImpl<SerializableTheme> for Theme {
    open spec fn obeys_from_spec() -> bool {
        true
    }

    open spec fn from_spec(theme: SerializableTheme) -> Theme {
        Theme {
            name: theme.name,
            background: theme.background,
            foreground: theme.foreground,
            primary: theme.primary,
            secondary: theme.secondary,
            accent: theme.accent,
            surface0: theme.surface0,
            surface1: theme.surface1,
            surface2: theme.surface2,
            text: theme.text,
            subtext: theme.subtext,
            red: theme.red,
            yellow: theme.yellow,
            green: theme.green,
            blue: theme.blue,
            mauve: theme.mauve,
            lavender: theme.lavender,
        }
    }
}

impl From<SerializableTheme> for Theme {
    fn from(theme: SerializableTheme) -> (r: Theme) {
        Theme {
            name: theme.name,
            background: theme.background,
            foreground: theme.foreground,
            primary: theme.primary,
            secondary: theme.secondary,
            accent: theme.accent,
            surface0: theme.surface0,
            surface1: theme.surface1,
            surface2: theme.surface2,
            text: theme.text,
            subtext: theme.subtext,
            red: theme.red,
            yellow: theme.yellow,
            green: theme.green,
            blue: theme.blue,
            mauve: theme.mauve,
            lavender: theme.lavender,
        }
    }
}

impl vstd::std_specs::convert::FromSpecImpl<Theme> for SerializableTheme {
    open spec fn obeys_from_spec() -> bool {
        true
    }

    open spec fn from_spec(theme: Theme) -> SerializableTheme {
        SerializableTheme {
            name: theme.name,
            background: theme.background,
            foreground: theme.foreground,
            primary: theme.primary,
            secondary: theme.secondary,
            accent: theme.accent,
            surface0: theme.surface0,
            surface1: theme.surface1,
            surface2: theme.surface2,
            text: theme.text,
            subtext: theme.subtext,
            red: theme.red,
            yellow: theme.yellow,
            green: theme.green,
            blue: theme.blue,
            mauve: theme.mauve,
            lavender: theme.lavender,
        }
    }
}

impl From<Theme> for SerializableTheme {
    fn from(theme: Theme) -> (r: SerializableTheme) {
        SerializableTheme {
            name: theme.name,
            background: theme.background,
            foreground: theme.foreground,
            primary: theme.primary,
            secondary: theme.secondary,
            accent: theme.accent,
            surface0: theme.surface0,
            surface1: theme.surface1,
            surface2: theme.surface2,
            text: theme.text,
            subtext: theme.subtext,
            red: theme.red,
            yellow: theme.yellow,
            green: theme.green,
            blue: theme.blue,
            mauve: theme.mauve,
            lavender: theme.lavender,
        }
    }
}

/// The theme Catppuccin Mocha.
pub open spec fn catppuccin_mocha_model() -> ThemeModel {
    ThemeModel {
        name: "Catppuccin Mocha"@,
        background: rgb(17, 17, 27),
        foreground: rgb(205, 214, 244),
        primary: rgb(203, 166, 247),
        secondary: rgb(180, 190, 254),
        accent: rgb(137, 220, 235),
        surface0: rgb(49, 50, 68),
        surface1: rgb(69, 71, 90),
        surface2: rgb(88, 91, 112),
        text: rgb(205, 214, 244),
        subtext: rgb(186, 194, 222),
        red: rgb(243, 139, 168),
        yellow: rgb(250, 179, 135),
        green: rgb(166, 227, 161),
        blue: rgb(137, 220, 235),
        mauve: rgb(203, 166, 247),
        lavender: rgb(180, 190, 254),
    }
}

/// The theme Catppuccin Latte.
pub open spec fn catppuccin_latte_model() -> ThemeModel {
    ThemeModel {
        name: "Catppuccin Latte"@,
        background: rgb(239, 241, 245),
        foreground: rgb(76, 79, 105),
        primary: rgb(136, 57, 239),
        secondary: rgb(114, 135, 253),
        accent: rgb(4, 165, 229),
        surface0: rgb(204, 208, 218),
        surface1: rgb(188, 192, 204),
        surface2: rgb(172, 176, 190),
        text: rgb(76, 79, 105),
        subtext: rgb(92, 95, 119),
        red: rgb(210, 15, 57),
        yellow: rgb(254, 100, 11),
        green: rgb(64, 160, 43),
        blue: rgb(4, 165, 229),
        mauve: rgb(136, 57, 239),
        lavender: rgb(114, 135, 253),
    }
}

/// The theme Dracula.
pub open spec fn dracula_model() -> ThemeModel {
    ThemeModel {
        name: "Dracula"@,
        background: rgb(40, 42, 54),
        foreground: rgb(248, 248, 242),
        primary: rgb(189, 147, 249),
        secondary: rgb(80, 250, 123),
        accent: rgb(255, 184, 108),
        surface0: rgb(68, 71, 90),
        surface1: rgb(98, 114, 164),
        surface2: rgb(139, 233, 253),
        text: rgb(248, 248, 242),
        subtext: rgb(98, 114, 164),
        red: rgb(255, 85, 85),
        yellow: rgb(241, 250, 140),
        green: rgb(80, 250, 123),
        blue: rgb(139, 233, 253),
        mauve: rgb(189, 147, 249),
        lavender: rgb(139, 233, 253),
    }
}

/// The theme Gruvbox Dark.
pub open spec fn gruvbox_dark_model() -> ThemeModel {
    ThemeModel {
        name: "Gruvbox Dark"@,
        background: rgb(40, 40, 40),
        foreground: rgb(235, 219, 178),
        primary: rgb(211, 134, 155),
        secondary: rgb(142, 192, 124),
        accent: rgb(254, 128, 25),
        surface0: rgb(60, 56, 54),
        surface1: rgb(80, 73, 69),
        surface2: rgb(102, 92, 84),
        text: rgb(235, 219, 178),
        subtext: rgb(168, 153, 132),
        red: rgb(251, 73, 52),
        yellow: rgb(250, 189, 47),
        green: rgb(142, 192, 124),
        blue: rgb(131, 165, 152),
        mauve: rgb(211, 134, 155),
        lavender: rgb(131, 165, 152),
    }
}

/// The theme Nord.
pub open spec fn nord_model() -> ThemeModel {
    ThemeModel {
        name: "Nord"@,
        background: rgb(46, 52, 64),
        foreground: rgb(236, 239, 244),
        primary: rgb(129, 161, 193),
        secondary: rgb(136, 192, 208),
        accent: rgb(163, 190, 140),
        surface0: rgb(59, 66, 82),
        surface1: rgb(67, 76, 94),
        surface2: rgb(76, 86, 106),
        text: rgb(236, 239, 244),
        subtext: rgb(229, 233, 240),
        red: rgb(191, 97, 106),
        yellow: rgb(235, 203, 139),
        green: rgb(163, 190, 140),
        blue: rgb(129, 161, 193),
        mauve: rgb(180, 142, 173),
        lavender: rgb(136, 192, 208),
    }
}

/// The keys of the built-in themes, in the order in which they are held.
pub open spec fn builtin_keys() -> Seq<Seq<char>> {
    seq!["catppuccin-mocha"@, "catppuccin-latte"@, "dracula"@, "gruvbox-dark"@, "nord"@]
}

/// The built-in themes, in the order of their keys.
pub open spec fn builtin_models() -> Seq<ThemeModel> {
    seq![
        catppuccin_mocha_model(),
        catppuccin_latte_model(),
        dracula_model(),
        gruvbox_dark_model(),
        nord_model(),
    ]
}

/// The colour of the three parts.
pub fn color(r: u8, g: u8, b: u8) -> (c: SerializableColor)
    ensures
        c == rgb(r, g, b),
{
    SerializableColor { r, g, b }
}

impl Default for Theme {
    fn default() -> (r: Theme)
        ensures
            r@ == catppuccin_mocha_model(),
    {
        Theme::catppuccin_mocha()
    }
}

impl Theme {
    /// The theme Catppuccin Mocha.
    pub fn catppuccin_mocha() -> (r: Theme)
        ensures
            r@ == catppuccin_mocha_model(),
    {
        Theme {
            name: "Catppuccin Mocha".to_string(),
            background: color(17, 17, 27),
            foreground: color(205, 214, 244),
            primary: color(203, 166, 247),
            secondary: color(180, 190, 254),
            accent: color(137, 220, 235),
            surface0: color(49, 50, 68),
            surface1: color(69, 71, 90),
            surface2: color(88, 91, 112),
            text: color(205, 214, 244),
            subtext: color(186, 194, 222),
            red: color(243, 139, 168),
            yellow: color(250, 179, 135),
            green: color(166, 227, 161),
            blue: color(137, 220, 235),
            mauve: color(203, 166, 247),
            lavender: color(180, 190, 254),
        }
    }

    /// The theme Catppuccin Latte.
    pub fn catppuccin_latte() -> (r: Theme)
        ensures
            r@ == catppuccin_latte_model(),
    {
        Theme {
            name: "Catppuccin Latte".to_string(),
            background: color(239, 241, 245),
            foreground: color(76, 79, 105),
            primary: color(136, 57, 239),
            secondary: color(114, 135, 253),
            accent: color(4, 165, 229),
            surface0: color(204, 208, 218),
            surface1: color(188, 192, 204),
            surface2: color(172, 176, 190),
            text: color(76, 79, 105),
            subtext: color(92, 95, 119),
            red: color(210, 15, 57),
            yellow: color(254, 100, 11),
            green: color(64, 160, 43),
            blue: color(4, 165, 229),
            mauve: color(136, 57, 239),
            lavender: color(114, 135, 253),
        }
    }

    /// The theme Dracula.
    pub fn dracula() -> (r: Theme)
        ensures
            r@ == dracula_model(),
    {
        Theme {
            name: "Dracula".to_string(),
            background: color(40, 42, 54),
            foreground: color(248, 248, 242),
            primary: color(189, 147, 249),
            secondary: color(80, 250, 123),
            accent: color(255, 184, 108),
            surface0: color(68, 71, 90),
            surface1: color(98, 114, 164),
            surface2: color(139, 233, 253),
            text: color(248, 248, 242),
            subtext: color(98, 114, 164),
            red: color(255, 85, 85),
            yellow: color(241, 250, 140),
            green: color(80, 250, 123),
            blue: color(139, 233, 253),
            mauve: color(189, 147, 249),
            lavender: color(139, 233, 253),
        }
    }

    /// The theme Gruvbox Dark.
    pub fn gruvbox_dark() -> (r: Theme)
        ensures
            r@ == gruvbox_dark_model(),
    {
        Theme {
            name: "Gruvbox Dark".to_string(),
            background: color(40, 40, 40),
            foreground: color(235, 219, 178),
            primary: color(211, 134, 155),
            secondary: color(142, 192, 124),
            accent: color(254, 128, 25),
            surface0: color(60, 56, 54),
            surface1: color(80, 73, 69),
            surface2: color(102, 92, 84),
            text: color(235, 219, 178),
            subtext: color(168, 153, 132),
            red: color(251, 73, 52),
            yellow: color(250, 189, 47),
            green: color(142, 192, 124),
            blue: color(131, 165, 152),
            mauve: color(211, 134, 155),
            lavender: color(131, 165, 152),
        }
    }

    /// The theme Nord.
    pub fn nord() -> (r: Theme)
        ensures
            r@ == nord_model(),
    {
        Theme {
            name: "Nord".to_string(),
            background: color(46, 52, 64),
            foreground: color(236, 239, 244),
            primary: color(129, 161, 193),
            secondary: color(136, 192, 208),
            accent: color(163, 190, 140),
            surface0: color(59, 66, 82),
            surface1: color(67, 76, 94),
            surface2: color(76, 86, 106),
            text: color(236, 239, 244),
            subtext: color(229, 233, 240),
            red: color(191, 97, 106),
            yellow: color(235, 203, 139),
            green: color(163, 190, 140),
            blue: color(129, 161, 193),
            mauve: color(180, 142, 173),
            lavender: color(136, 192, 208),
        }
    }

    /// A copy of the theme.
    pub fn copy(&self) -> (r: Theme)
        ensures
            r@ == self@,
    {
        Theme {
            name: self.name.clone(),
            background: self.background,
            foreground: self.foreground,
            primary: self.primary,
            secondary: self.secondary,
            accent: self.accent,
            surface0: self.surface0,
            surface1: self.surface1,
            surface2: self.surface2,
            text: self.text,
            subtext: self.subtext,
            red: self.red,
            yellow: self.yellow,
            green: self.green,
            blue: self.blue,
            mauve: self.mauve,
            lavender: self.lavender,
        }
    }

    /// The built-in themes, each under its key.
    pub fn get_builtin_themes() -> (r: Vec<(String, Theme)>)
        ensures
            entry_keys(r@) == builtin_keys(),
            entry_models(r@) == builtin_models(),
    {
        let mut themes: Vec<(String, Theme)> = Vec::new();
        themes.push(("catppuccin-mocha".to_string(), Theme::catppuccin_mocha()));
        themes.push(("catppuccin-latte".to_string(), Theme::catppuccin_latte()));
        themes.push(("dracula".to_string(), Theme::dracula()));
        themes.push(("gruvbox-dark".to_string(), Theme::gruvbox_dark()));
        themes.push(("nord".to_string(), Theme::nord()));
        assert(entry_keys(themes@) =~= builtin_keys());
        assert(entry_models(themes@) =~= builtin_models());
        themes
    }
}

/// The keys of themes held under keys.
pub open spec fn entry_keys(entries: Seq<(String, Theme)>) -> Seq<Seq<char>> {
    Seq::new(entries.len(), |i: int| entries[i].0@)
}

/// The themes held under keys.
pub open spec fn entry_models(entries: Seq<(String, Theme)>) -> Seq<ThemeModel> {
    Seq::new(entries.len(), |i: int| entries[i].1@)
}

/// The themes that can be shown, each under a key, and the one that is shown.
pub struct ThemeManager {
    current_theme: Theme,
    available_themes: Vec<(String, Theme)>,
}

/// A theme manager as a value of mathematics.
pub struct ManagerModel {
    /// The theme that is shown.
    pub current: ThemeModel,
    /// The keys, in the order in which they came.
    pub keys: Seq<Seq<char>>,
    /// The theme under each key.
    pub themes: Seq<ThemeModel>,
}

impl ManagerModel {
    /// Each key has a theme, and no key stands twice.
    pub open spec fn wf(self) -> bool {
        &&& self.keys.len() == self.themes.len()
        &&& forall|i: int, j: int| 0 <= i < j < self.keys.len() ==> self.keys[i] != self.keys[j]
    }

    /// The place of the key `key`.
    pub open spec fn place(self, key: Seq<char>) -> Option<int> {
        place_of(self.keys, key)
    }

    /// The theme under the key `key`.
    pub open spec fn theme(self, key: Seq<char>) -> Option<ThemeModel> {
        match self.place(key) {
            Some(at) => Some(self.themes[at]),
            None => None,
        }
    }

    /// After a theme was put under a key: it stands in place of the theme that
    /// was under the key, or comes last under a key that is new.
    pub open spec fn inserted(self, key: Seq<char>, theme: ThemeModel) -> ManagerModel {
        match self.place(key) {
            Some(at) => ManagerModel { themes: self.themes.update(at, theme), ..self },
            None => ManagerModel {
                keys: self.keys.push(key),
                themes: self.themes.push(theme),
                ..self
            },
        }
    }

    /// The place of the first theme that has the name of the theme shown.
    pub open spec fn shown_place(self) -> Option<int> {
        place_of(
            Seq::new(self.themes.len(), |i: int| self.themes[i].name),
            self.current.name,
        )
    }

    /// After the themes were cycled: the theme after the one that is shown is
    /// shown, the first after the last, and the first where the one shown is
    /// under no key. Nothing changes where there is no theme.
    pub open spec fn cycled(self) -> ManagerModel {
        if self.themes.len() == 0 {
            self
        } else {
            match self.shown_place() {
                Some(at) => ManagerModel {
                    current: self.themes[if at + 1 < self.themes.len() {
                        at + 1
                    } else {
                        0
                    }],
                    ..self
                },
                None => ManagerModel { current: self.themes[0], ..self },
            }
        }
    }
}

/// What `set_theme` says of a key that is not there.
pub open spec fn not_found(name: Seq<char>) -> Seq<char> {
    "Theme '"@ + name + "' not found"@
}

impl View for ThemeManager {
    type V = ManagerModel;

    closed spec fn view(&self) -> ManagerModel {
        ManagerModel {
            current: self.current_theme@,
            keys: entry_keys(self.available_themes@),
            themes: entry_models(self.available_themes@),
        }
    }
}

/// The built-in keys differ from one another.
proof fn lemma_builtin_keys_distinct()
    ensures
        forall|i: int, j: int|
            0 <= i < j < builtin_keys().len() ==> builtin_keys()[i] != builtin_keys()[j],
{
    reveal_strlit("catppuccin-mocha");
    reveal_strlit("catppuccin-latte");
    reveal_strlit("dracula");
    reveal_strlit("gruvbox-dark");
    reveal_strlit("nord");
    let keys = builtin_keys();
    assert(keys[0][11] == 'm' && keys[1][11] == 'l');
    assert(keys[0].len() == 16 && keys[1].len() == 16 && keys[2].len() == 7 && keys[3].len() == 12
        && keys[4].len() == 4);
}

impl Default for ThemeManager {
    fn default() -> (r: ThemeManager)
        ensures
            r.wf(),
            r@.keys == builtin_keys(),
    {
        ThemeManager::new()
    }
}

impl ThemeManager {
    /// Each key has a theme, and no key stands twice.
    pub open spec fn wf(&self) -> bool {
        self@.wf()
    }

    /// The manager of the built-in themes, Catppuccin Mocha shown.
    pub fn new() -> (r: ThemeManager)
        ensures
            r.wf(),
            r@ == (ManagerModel {
                current: catppuccin_mocha_model(),
                keys: builtin_keys(),
                themes: builtin_models(),
            }),
    {
        proof {
            lemma_builtin_keys_distinct();
        }
        ThemeManager {
            current_theme: Theme::default(),
            available_themes: Theme::get_builtin_themes(),
        }
    }

    /// The place of the key `key`.
    fn place(&self, key: &str) -> (r: Option<usize>)
        ensures
            match r {
                Some(at) => self@.place(key@) == Some(at as int) && at
                    < self.available_themes.len(),
                None => self@.place(key@) is None,
            },
    {
        let ghost keys = entry_keys(self.available_themes@);
        let mut i: usize = 0;
        while i < self.available_themes.len()
            invariant
                i <= self.available_themes.len(),
                keys == entry_keys(self.available_themes@),
                forall|j: int| 0 <= j < i ==> keys[j] != key@,
            decreases self.available_themes.len() - i,
        {
            if is_word(&chars_of(self.available_themes[i].0.as_str()), key) {
                proof {
                    lemma_place_of_is(keys, key@, i as int);
                }
                return Some(i);
            }
            i += 1;
        }
        None
    }

    /// The theme that is shown.
    pub fn get_current_theme(&self) -> (r: &Theme)
        ensures
            r@ == self@.current,
    {
        &self.current_theme
    }

    /// Shows the theme under the key `theme_name`, or says that there is none.
    pub fn set_theme(&mut self, theme_name: &str) -> (r: Result<(), String>)
        ensures
            match old(self)@.theme(theme_name@) {
                Some(theme) => r is Ok && final(self)@ == (ManagerModel {
                    current: theme,
                    ..old(self)@
                }),
                None => r matches Err(message) && message@ == not_found(theme_name@)
                    && final(self)@ == old(self)@,
            },
    {
        match self.place(theme_name) {
            Some(at) => {
                self.current_theme = self.available_themes[at].1.copy();
                Ok(())
            },
            None => {
                let mut message = chars_of("Theme '");
                let name = chars_of(theme_name);
                push_range(&mut message, &name, 0, name.len());
                let end = chars_of("' not found");
                push_range(&mut message, &end, 0, end.len());
                assert(name@.subrange(0, name@.len() as int) =~= name@);
                assert(end@.subrange(0, end@.len() as int) =~= end@);
                Err(string_of(&message))
            },
        }
    }

    /// The keys of the themes, in the order in which they came.
    pub fn get_available_themes(&self) -> (r: Vec<String>)
        ensures
            r.deep_view() == self@.keys,
    {
        let mut out: Vec<String> = Vec::new();
        let mut i: usize = 0;
        while i < self.available_themes.len()
            invariant
                i <= self.available_themes.len(),
                out.len() == i,
                forall|j: int| 0 <= j < i ==> out@[j]@ == self.available_themes@[j].0@,
            decreases self.available_themes.len() - i,
        {
            out.push(self.available_themes[i].0.clone());
            i += 1;
        }
        assert(out.deep_view() =~= entry_keys(self.available_themes@));
        out
    }

    /// The theme under the key `key`.
    pub fn get_theme_by_key(&self, key: &str) -> (r: Option<&Theme>)
        ensures
            match r {
                Some(theme) => self@.theme(key@) == Some(theme@),
                None => self@.theme(key@) is None,
            },
    {
        match self.place(key) {
            Some(at) => Some(&self.available_themes[at].1),
            None => None,
        }
    }

    /// Puts a theme under a key, in place of the theme that was there.
    pub fn insert(&mut self, key: String, theme: Theme)
        requires
            old(self).wf(),
        ensures
            final(self)@ == old(self)@.inserted(key@, theme@),
            final(self).wf(),
    {
        match self.place(key.as_str()) {
            Some(at) => {
                self.available_themes[at].1 = theme;
                assert(entry_keys(self.available_themes@) =~= old(self)@.keys);
                assert(entry_models(self.available_themes@) =~= old(self)@.themes.update(
                    at as int,
                    theme@,
                ));
            },
            None => {
                self.available_themes.push((key, theme));
                assert(entry_keys(self.available_themes@) =~= old(self)@.keys.push(key@));
                assert(entry_models(self.available_themes@) =~= old(self)@.themes.push(theme@));
            },
        }
    }

    /// Shows the theme after the one that is shown.
    pub fn cycle_theme(&mut self)
        ensures
            final(self)@ == old(self)@.cycled(),
    {
        let n = self.available_themes.len();
        if n == 0 {
            return ;
        }
        let ghost names = Seq::new(self@.themes.len(), |i: int| self@.themes[i].name);
        let shown = chars_of(self.current_theme.name.as_str());
        let mut next: usize = 0;
        let mut i: usize = 0;
        while i < n
            invariant_except_break
                next == 0,
                forall|j: int| 0 <= j < i ==> names[j] != shown@,
            invariant
                n == self.available_themes.len(),
                0 < n,
                i <= n,
                shown@ == self.current_theme.name@,
                names == Seq::new(self@.themes.len(), |i: int| self@.themes[i].name),
            ensures
                next < n,
                match self@.shown_place() {
                    Some(at) => next == if at + 1 < n {
                        at + 1
                    } else {
                        0
                    },
                    None => next == 0,
                },
            decreases n - i,
        {
            if is_word(&shown, self.available_themes[i].1.name.as_str()) {
                proof {
                    lemma_place_of_is(names, shown@, i as int);
                }
                next = if i + 1 < n {
                    i + 1
                } else {
                    0
                };
                break ;
            }
            i += 1;
        }
        self.current_theme = self.available_themes[next].1.copy();
    }
}

} // verus!
