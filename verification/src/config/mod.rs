//! Bundled colorls YAML data plus user overrides.
//!
//! Six YAML maps (`String -> String`) are bundled with the library. User
//! files of the same names, when present, are shallow-overlaid onto them:
//! user keys replace bundled keys, other bundled keys remain.

pub mod defaults;
pub mod icons;
pub mod merge;
pub mod str_map;
pub mod theme;

use vstd::prelude::*;

use crate::config::str_map::{lemma_map_of_map_values, map_of, sorted_keys, StrMap};
use crate::config::theme::ColorError;
use crate::text::{chars_of, owned, push_str};

verus! {

/// A flat YAML map from string keys to string values.
pub type YamlMap = StrMap<String>;

/// The text contents of a YAML map.
pub open spec fn text_map(m: YamlMap) -> Map<Seq<char>, Seq<char>> {
    m@.map_values(|v: String| v@)
}

/// The string map a YAML document denotes, as `serde_yml` deserializes it
/// into a `BTreeMap<String, String>`; `None` when it is not such a map.
pub uninterp spec fn yaml_string_map(text: Seq<char>) -> Option<Map<Seq<char>, Seq<char>>>;

/// `serde_yml::from_str::<BTreeMap<String, String>>`, its entries read out
/// in the map's (ascending key) order. When it returns, it has succeeded
/// exactly when the named result is `Some`, and the entries then are that
/// map, with strictly increasing keys. The error message is the parser's
/// and is not stated. Whether the parser returns on every text is not
/// stated either: its loader holds internal `expect` calls that its source
/// does not show unreachable.
#[verifier::external_body]
fn yaml_entries(text: &str) -> (r: Result<Vec<(String, String)>, String>)
    ensures
        r is Ok == yaml_string_map(text@) is Some,
        r matches Ok(v) ==> {
            let s = v@.map_values(|e: (String, String)| (e.0@, e.1@));
            &&& sorted_keys(s)
            &&& Some(map_of(s)) == yaml_string_map(text@)
        },
{
    match serde_yml::from_str::<std::collections::BTreeMap<String, String>>(text) {
        Ok(m) => Ok(m.into_iter().collect()),
        Err(e) => Err(e.to_string()),
    }
}

/// Parses a YAML document holding a flat string map. Like the parser call
/// it rests on, its contract holds when that call returns: the YAML
/// loader is not shown never to panic.
pub fn parse_yaml_map(text: &str) -> (r: Result<YamlMap, String>)
    ensures
        r is Ok == yaml_string_map(text@) is Some,
        r matches Ok(m) ==> m.wf() && Some(text_map(m)) == yaml_string_map(text@),
{
    let v = yaml_entries(text)?;
    let ghost s = v@.map_values(|e: (String, String)| (e.0@, e.1@));
    let ghost p = v@.map_values(|e: (String, String)| (e.0@, e.1));
    proof {
        let f = |x: String| x@;
        assert(sorted_keys(p)) by {
            assert forall|i: int, j: int| 0 <= i < j < p.len() implies crate::text::seq_less(
                #[trigger] p[i].0,
                #[trigger] p[j].0,
            ) by {
                assert(p[i].0 == s[i].0 && p[j].0 == s[j].0);
            }
        }
        lemma_map_of_map_values(p, f);
        assert(p.map_values(|q: (Seq<char>, String)| (q.0, f(q.1))) =~= s);
    }
    let m = StrMap::from_sorted(v);
    Ok(m)
}

/// The six configuration maps.
#[derive(Debug, Clone)]
pub struct Config {
    pub dark_colors: YamlMap,
    pub light_colors: YamlMap,
    pub files: YamlMap,
    pub folders: YamlMap,
    pub file_aliases: YamlMap,
    pub folder_aliases: YamlMap,
}

/// The contents of the user's override files that exist (`None` for a
/// file that is absent).
#[derive(Debug, Clone)]
pub struct UserConfig {
    pub dark_colors: Option<String>,
    pub light_colors: Option<String>,
    pub files: Option<String>,
    pub folders: Option<String>,
    pub file_aliases: Option<String>,
    pub folder_aliases: Option<String>,
}

/// Why configuration could not be loaded.
#[derive(Debug, Clone, PartialEq, Eq)]
pub enum ConfigError {
    /// A bundled file is not a string map (never expected).
    BundledParse { file: String, detail: String },
    /// A user override file is not a string map.
    UserParse { file: String, detail: String },
    /// An icon glyph is empty.
    EmptyGlyph { source: String, key: String },
    /// An icon glyph holds more than one code point.
    MultiGlyph { source: String, key: String, value: String },
    /// A required default glyph key is missing.
    MissingDefaultGlyph { file: String, key: String },
    /// A theme value is not a color.
    InvalidColor { source: String, key: String, value: String, cause: ColorError },
}

/// The merge of a bundled map with an optional user override, both given as
/// YAML text: `None` when either does not parse.
pub open spec fn merged_map(default: Seq<char>, user: Option<Seq<char>>) -> Option<
    Map<Seq<char>, Seq<char>>,
> {
    match yaml_string_map(default) {
        None => None,
        Some(base) => match user {
            None => Some(base),
            Some(u) => match yaml_string_map(u) {
                None => None,
                Some(over) => Some(base.union_prefer_right(over)),
            },
        },
    }
}

/// The view of an optional override text.
pub open spec fn opt_view(s: Option<String>) -> Option<Seq<char>> {
    match s {
        Some(t) => Some(t@),
        None => None,
    }
}

impl ColorError {
    /// What the error says.
    pub open spec fn message_spec(&self) -> Seq<char> {
        match self {
            ColorError::Empty => "empty color value"@,
            ColorError::Css(m) => "css parse failed: "@ + m@,
        }
    }

    /// Human-readable description of the error.
    pub fn message(&self) -> (r: String)
        ensures
            r@ == self.message_spec(),
    {
        proof {
            reveal_strlit("empty color value");
        }
        match self {
            ColorError::Empty => owned("empty color value"),
            ColorError::Css(m) => {
                let mut s = owned("css parse failed: ");
                push_str(&mut s, m.as_str());
                s
            },
        }
    }
}

impl ConfigError {
    /// The error reports that `value` under `key` in `source` is not a color.
    pub open spec fn invalid_color_at(&self, source: Seq<char>, key: Seq<char>, value: Seq<char>) -> bool {
        self matches ConfigError::InvalidColor { source: s, key: k, value: v, .. } && s@ == source
            && k@ == key && v@ == value
    }

    /// The error reports the default glyph `key` missing from `file`.
    pub open spec fn missing_glyph(&self, file: Seq<char>, key: Seq<char>) -> bool {
        self matches ConfigError::MissingDefaultGlyph { file: f, key: k } && f@ == file && k@ == key
    }

    /// What the error says.
    pub open spec fn message_spec(&self) -> Seq<char> {
        match self {
            ConfigError::BundledParse { file, detail } => "parse bundled "@ + file@ + ": "@
                + detail@,
            ConfigError::UserParse { file, detail } => "parse "@ + file@ + ": "@ + detail@,
            ConfigError::EmptyGlyph { source, key } => source@ + ": empty glyph for `"@ + key@
                + "`"@,
            ConfigError::MultiGlyph { source, key, value } => source@ + ": glyph for `"@ + key@
                + "` must be a single codepoint, got `"@ + value@ + "`"@,
            ConfigError::MissingDefaultGlyph { file, key } => file@ + " missing required `"@
                + key@ + "` default glyph"@,
            ConfigError::InvalidColor { source, key, value, cause } => source@
                + ": invalid color value for `"@ + key@ + "`: `"@ + value@ + "`: "@
                + cause.message_spec(),
        }
    }

    /// Human-readable description of the error.
    pub fn message(&self) -> (r: String)
        ensures
            r@ == self.message_spec(),
    {
        match self {
            ConfigError::BundledParse { file, detail } => {
                let mut s = owned("parse bundled ");
                push_str(&mut s, file.as_str());
                push_str(&mut s, ": ");
                push_str(&mut s, detail.as_str());
                s
            },
            ConfigError::UserParse { file, detail } => {
                let mut s = owned("parse ");
                push_str(&mut s, file.as_str());
                push_str(&mut s, ": ");
                push_str(&mut s, detail.as_str());
                s
            },
            ConfigError::EmptyGlyph { source, key } => {
                let mut s = owned(source.as_str());
                push_str(&mut s, ": empty glyph for `");
                push_str(&mut s, key.as_str());
                push_str(&mut s, "`");
                s
            },
            ConfigError::MultiGlyph { source, key, value } => {
                let mut s = owned(source.as_str());
                push_str(&mut s, ": glyph for `");
                push_str(&mut s, key.as_str());
                push_str(&mut s, "` must be a single codepoint, got `");
                push_str(&mut s, value.as_str());
                push_str(&mut s, "`");
                s
            },
            ConfigError::MissingDefaultGlyph { file, key } => {
                let mut s = owned(file.as_str());
                push_str(&mut s, " missing required `");
                push_str(&mut s, key.as_str());
                push_str(&mut s, "` default glyph");
                s
            },
            ConfigError::InvalidColor { source, key, value, cause } => {
                let mut s = owned(source.as_str());
                push_str(&mut s, ": invalid color value for `");
                push_str(&mut s, key.as_str());
                push_str(&mut s, "`: `");
                push_str(&mut s, value.as_str());
                push_str(&mut s, "`: ");
                push_str(&mut s, cause.message().as_str());
                s
            },
        }
    }
}

impl UserConfig {
    /// No override files.
    pub fn none() -> (r: Self)
        ensures
            r.dark_colors is None && r.light_colors is None && r.files is None && r.folders is None
                && r.file_aliases is None && r.folder_aliases is None,
    {
        UserConfig {
            dark_colors: None,
            light_colors: None,
            files: None,
            folders: None,
            file_aliases: None,
            folder_aliases: None,
        }
    }
}

/// Loads one map: the bundled text overlaid with the user's text, if any.
/// `name` is the file name used in errors.
pub fn load_one(default: &str, name: &str, user: &Option<String>) -> (r: Result<
    YamlMap,
    ConfigError,
>)
    ensures
        r is Ok == merged_map(default@, opt_view(*user)) is Some,
        r matches Ok(m) ==> m.wf() && Some(text_map(m)) == merged_map(default@, opt_view(*user)),
        r matches Err(e) ==> (yaml_string_map(default@) is None && e is BundledParse) || (
        yaml_string_map(default@) is Some && e is UserParse),
        r matches Err(e) ==> (e matches ConfigError::BundledParse { file, .. } && file@ == name@)
            || (e matches ConfigError::UserParse { file, .. } && file@ == name@),
{
    let mut map = match parse_yaml_map(default) {
        Ok(m) => m,
        Err(detail) => return Err(ConfigError::BundledParse { file: owned(name), detail }),
    };
    if let Some(body) = user {
        let overrides = match parse_yaml_map(body.as_str()) {
            Ok(m) => m,
            Err(detail) => return Err(ConfigError::UserParse { file: owned(name), detail }),
        };
        let ghost base_text = text_map(map);
        let ghost over_text = text_map(overrides);
        merge::overlay(&mut map, overrides);
        assert(text_map(map) =~= base_text.union_prefer_right(over_text));
    }
    Ok(map)
}

/// The user's text for the `i`-th file (dark colors, light colors, files,
/// folders, file aliases, folder aliases), if given.
pub open spec fn user_text(user: Option<&UserConfig>, i: nat) -> Option<Seq<char>> {
    match user {
        None => None,
        Some(u) => if i == 0 {
            opt_view(u.dark_colors)
        } else if i == 1 {
            opt_view(u.light_colors)
        } else if i == 2 {
            opt_view(u.files)
        } else if i == 3 {
            opt_view(u.folders)
        } else if i == 4 {
            opt_view(u.file_aliases)
        } else {
            opt_view(u.folder_aliases)
        },
    }
}

/// `rel` appended to `base` as one more path component, as `Path::join`
/// does for a relative component: a `/` goes between them unless `base` is
/// empty or already ends in one.
pub open spec fn join_path(base: Seq<char>, rel: Seq<char>) -> Seq<char> {
    if base.len() == 0 || base.last() == '/' {
        base + rel
    } else {
        base + "/"@ + rel
    }
}

/// Appends the relative component `rel` to `base`.
pub fn path_join(base: &str, rel: &str) -> (r: String)
    ensures
        r@ == join_path(base@, rel@),
{
    let cs = chars_of(base);
    let mut out = owned(base);
    if cs.len() > 0 && cs[cs.len() - 1] != '/' {
        push_str(&mut out, "/");
        proof {
            reveal_strlit("/");
        }
    }
    push_str(&mut out, rel);
    out
}

/// The user configuration directory for the given values of
/// `XDG_CONFIG_HOME` and `HOME`.
pub open spec fn user_dir_spec(xdg: Option<Seq<char>>, home: Option<Seq<char>>) -> Option<Seq<char>> {
    if xdg matches Some(x) && x.len() > 0 {
        Some(join_path(xdg->0, "lsc-utils"@))
    } else {
        match home {
            Some(h) => Some(join_path(join_path(h, ".config"@), "lsc-utils"@)),
            None => None,
        }
    }
}

/// The bundled text of the `i`-th file (dark colors, light colors, files,
/// folders, file aliases, folder aliases).
pub open spec fn default_text(i: nat) -> Seq<char> {
    if i == 0 {
        defaults::DARK_DEFAULT@
    } else if i == 1 {
        defaults::LIGHT_DEFAULT@
    } else if i == 2 {
        defaults::FILES_DEFAULT@
    } else if i == 3 {
        defaults::FOLDERS_DEFAULT@
    } else if i == 4 {
        defaults::FILE_ALIASES_DEFAULT@
    } else {
        defaults::FOLDER_ALIASES_DEFAULT@
    }
}

/// The name of the `i`-th file.
pub open spec fn file_name(i: nat) -> Seq<char> {
    if i == 0 {
        "dark_colors.yaml"@
    } else if i == 1 {
        "light_colors.yaml"@
    } else if i == 2 {
        "files.yaml"@
    } else if i == 3 {
        "folders.yaml"@
    } else if i == 4 {
        "file_aliases.yaml"@
    } else {
        "folder_aliases.yaml"@
    }
}

/// The `i`-th map cannot be built: its bundled or its user text does not
/// parse.
pub open spec fn merge_fails(user: Option<&UserConfig>, i: nat) -> bool {
    merged_map(default_text(i), user_text(user, i)) is None
}

/// The first of the six files whose map cannot be built (6 when all can).
pub open spec fn first_failing(user: Option<&UserConfig>) -> nat {
    if merge_fails(user, 0) {
        0
    } else if merge_fails(user, 1) {
        1
    } else if merge_fails(user, 2) {
        2
    } else if merge_fails(user, 3) {
        3
    } else if merge_fails(user, 4) {
        4
    } else if merge_fails(user, 5) {
        5
    } else {
        6
    }
}

/// `e` reports the `i`-th file: as a bundled-text failure when its bundled
/// text does not parse, else as a user-text failure, naming the file.
pub open spec fn reports_file(e: ConfigError, i: nat) -> bool {
    if yaml_string_map(default_text(i)) is None {
        e matches ConfigError::BundledParse { file, .. } && file@ == file_name(i)
    } else {
        e matches ConfigError::UserParse { file, .. } && file@ == file_name(i)
    }
}

impl Config {
    /// Every map is well-formed.
    pub open spec fn wf(&self) -> bool {
        &&& self.dark_colors.wf()
        &&& self.light_colors.wf()
        &&& self.files.wf()
        &&& self.folders.wf()
        &&& self.file_aliases.wf()
        &&& self.folder_aliases.wf()
    }

    /// The standard user configuration directory: `$XDG_CONFIG_HOME/lsc-utils`
    /// when `XDG_CONFIG_HOME` is set and non-empty, else
    /// `$HOME/.config/lsc-utils`, else none.
    pub fn user_dir_from(xdg: Option<String>, home: Option<String>) -> (r: Option<String>)
        ensures
            opt_view(r) == user_dir_spec(opt_view(xdg), opt_view(home)),
    {
        if let Some(x) = &xdg {
            if !x.as_str().is_empty() {
                return Some(path_join(x.as_str(), "lsc-utils"));
            }
        }
        match home {
            Some(h) => Some(path_join(path_join(h.as_str(), ".config").as_str(), "lsc-utils")),
            None => None,
        }
    }

    /// Load the bundled defaults and overlay the user files given (pass
    /// `None` to skip user overrides entirely). On failure the error names
    /// the first of the six files, in the order dark colors, light colors,
    /// files, folders, file aliases, folder aliases, whose bundled or user
    /// text does not parse, and says which of the two it was.
    pub fn load(user: Option<&UserConfig>) -> (r: Result<Self, ConfigError>)
        ensures
            r is Ok <==> {
                &&& merged_map(defaults::DARK_DEFAULT@, user_text(user, 0)) is Some
                &&& merged_map(defaults::LIGHT_DEFAULT@, user_text(user, 1)) is Some
                &&& merged_map(defaults::FILES_DEFAULT@, user_text(user, 2)) is Some
                &&& merged_map(defaults::FOLDERS_DEFAULT@, user_text(user, 3)) is Some
                &&& merged_map(defaults::FILE_ALIASES_DEFAULT@, user_text(user, 4)) is Some
                &&& merged_map(defaults::FOLDER_ALIASES_DEFAULT@, user_text(user, 5)) is Some
            },
            r matches Ok(c) ==> {
                &&& c.wf()
                &&& Some(text_map(c.dark_colors)) == merged_map(
                    defaults::DARK_DEFAULT@,
                    user_text(user, 0),
                )
                &&& Some(text_map(c.light_colors)) == merged_map(
                    defaults::LIGHT_DEFAULT@,
                    user_text(user, 1),
                )
                &&& Some(text_map(c.files)) == merged_map(defaults::FILES_DEFAULT@, user_text(user, 2))
                &&& Some(text_map(c.folders)) == merged_map(
                    defaults::FOLDERS_DEFAULT@,
                    user_text(user, 3),
                )
                &&& Some(text_map(c.file_aliases)) == merged_map(
                    defaults::FILE_ALIASES_DEFAULT@,
                    user_text(user, 4),
                )
                &&& Some(text_map(c.folder_aliases)) == merged_map(
                    defaults::FOLDER_ALIASES_DEFAULT@,
                    user_text(user, 5),
                )
            },
            r matches Err(e) ==> first_failing(user) < 6 && reports_file(e, first_failing(user)),
    {
        let none = UserConfig::none();
        let u = match user {
            Some(u) => u,
            None => &none,
        };
        Ok(Config {
            dark_colors: load_one(defaults::DARK_DEFAULT, "dark_colors.yaml", &u.dark_colors)?,
            light_colors: load_one(
                defaults::LIGHT_DEFAULT,
                "light_colors.yaml",
                &u.light_colors,
            )?,
            files: load_one(defaults::FILES_DEFAULT, "files.yaml", &u.files)?,
            folders: load_one(defaults::FOLDERS_DEFAULT, "folders.yaml", &u.folders)?,
            file_aliases: load_one(
                defaults::FILE_ALIASES_DEFAULT,
                "file_aliases.yaml",
                &u.file_aliases,
            )?,
            folder_aliases: load_one(
                defaults::FOLDER_ALIASES_DEFAULT,
                "folder_aliases.yaml",
                &u.folder_aliases,
            )?,
        })
    }
}

/// User files override the bundled maps entry by entry: when both texts
/// parse, without a user file the bundled map is kept as it is; with one,
/// every key it sets takes its value, every other bundled key keeps its
/// bundled value, and no other key appears.
pub proof fn lemma_user_overrides_entry_by_entry(default: Seq<char>, user: Seq<char>, k: Seq<char>)
    requires
        yaml_string_map(default) is Some,
        yaml_string_map(user) is Some,
    ensures
        merged_map(default, None) == yaml_string_map(default),
        merged_map(default, Some(user)) is Some,
        ({
            let m = merged_map(default, Some(user))->0;
            let base = yaml_string_map(default)->0;
            let over = yaml_string_map(user)->0;
            &&& over.contains_key(k) ==> m.contains_key(k) && m[k] == over[k]
            &&& !over.contains_key(k) ==> (m.contains_key(k) == base.contains_key(k))
            &&& !over.contains_key(k) && base.contains_key(k) ==> m[k] == base[k]
        }),
{
}

} // verus!
