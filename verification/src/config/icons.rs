//! Nerd-font icon resolution, following colorls:
//! - Directories: lowercase basename -> `folders` map; if missing, alias via
//!   `folder_aliases`; final fallback `folder`.
//! - Files: extension (without dot, lowercase) -> `files` map; if missing,
//!   alias via `file_aliases`; final fallback `file`. Only the extension is
//!   looked up: basename aliases like `gemfile` stay dormant, as in colorls.

use vstd::prelude::*;

use crate::config::str_map::{has_key, key_index, lemma_map_of_index, StrMap};
use crate::config::{text_map, Config, ConfigError, YamlMap};
use crate::path::{path_extension, path_extension_of};
use crate::text::{chars_of, lowercase, owned, to_lowercase_of};

verus! {

/// How an icon was found.
#[derive(Debug, Clone, Copy, PartialEq, Eq, Structural)]
pub enum IconKind {
    /// Directory whose name (or alias) matched `folders`.
    Folder,
    /// Directory falling back to the generic folder glyph.
    DefaultFolder,
    /// File whose extension (or alias) matched `files`.
    File,
    /// File falling back to the generic file glyph.
    DefaultFile,
}

/// A resolved icon.
#[derive(Debug, Clone, PartialEq, Eq)]
pub struct Resolved {
    pub glyph: char,
    pub kind: IconKind,
    /// The matched key in `files`/`folders` (or "file"/"folder" on fallback).
    pub key: String,
}

/// Glyph tables and alias tables.
#[derive(Debug, Clone)]
pub struct Icons {
    files: StrMap<char>,
    folders: StrMap<char>,
    file_aliases: YamlMap,
    folder_aliases: YamlMap,
    file_default: char,
    folder_default: char,
}

/// The lookup key of a file name: its extension, lower-cased (empty when
/// it has none).
pub open spec fn extension_key(name: Seq<char>) -> Seq<char> {
    match path_extension_of(name) {
        Some(e) => to_lowercase_of(e),
        None => Seq::empty(),
    }
}

/// A glyph value holds exactly one code point.
pub open spec fn glyph_ok(v: Seq<char>) -> bool {
    v.len() == 1
}

/// The glyph table parsed from `map`: each value's single character.
pub open spec fn glyphs_match(map: Seq<(Seq<char>, String)>, g: Seq<(Seq<char>, char)>) -> bool {
    &&& g.len() == map.len()
    &&& forall|i: int|
        0 <= i < map.len() ==> #[trigger] g[i].0 == map[i].0 && map[i].1@ == seq![g[i].1]
}

/// Every value of the map is a single code point.
pub open spec fn glyphs_ok(map: Seq<(Seq<char>, String)>) -> bool {
    forall|i: int| 0 <= i < map.len() ==> glyph_ok(#[trigger] map[i].1@)
}

/// `e` reports the entry `(key, value)` of `source` as not a single glyph.
pub open spec fn glyph_error_for(e: ConfigError, source: Seq<char>, key: Seq<char>, value: Seq<char>) -> bool {
    if value.len() == 0 {
        e matches ConfigError::EmptyGlyph { source: s, key: k } && s@ == source && k@ == key
    } else {
        e matches ConfigError::MultiGlyph { source: s, key: k, value: v } && s@ == source && k@
            == key && v@ == value
    }
}

/// `e` reports the first entry of `map` that is not a single glyph.
pub open spec fn glyph_error(map: Seq<(Seq<char>, String)>, source: Seq<char>, e: ConfigError) -> bool {
    exists|i: int|
        0 <= i < map.len() && (forall|j: int| 0 <= j < i ==> glyph_ok(#[trigger] map[j].1@))
            && !glyph_ok(map[i].1@) && #[trigger] glyph_error_for(e, source, map[i].0, map[i].1@)
}

/// Parses every value of `map` as a single glyph; the first value that is
/// empty or longer than one code point is reported with `source`.
pub fn parse_glyph_map(map: &YamlMap, source: &str) -> (r: Result<StrMap<char>, ConfigError>)
    requires
        map.wf(),
    ensures
        r matches Ok(g) ==> g.wf() && glyphs_match(map.pairs(), g.pairs()),
        r is Ok <==> glyphs_ok(map.pairs()),
        r matches Err(e) ==> glyph_error(map.pairs(), source@, e),
{
    let mut out: StrMap<char> = StrMap::new();
    let n = map.len();
    let mut i: usize = 0;
    while i < n
        invariant
            n == map.pairs().len(),
            i <= n,
            map.wf(),
            out.wf(),
            out.pairs().len() == i,
            forall|j: int|
                0 <= j < i ==> #[trigger] out.pairs()[j].0 == map.pairs()[j].0
                    && map.pairs()[j].1@ == seq![out.pairs()[j].1],
        decreases n - i,
    {
        let k = map.key_at(i);
        let v = map.value_at(i);
        let cs = chars_of(v.as_str());
        assert forall|j: int| 0 <= j < i implies glyph_ok(#[trigger] map.pairs()[j].1@) by {
            assert(out.pairs()[j].0 == map.pairs()[j].0);
        }
        if cs.len() == 0 {
            let e = ConfigError::EmptyGlyph { source: owned(source), key: owned(k.as_str()) };
            assert(glyph_error_for(e, source@, map.pairs()[i as int].0, map.pairs()[i as int].1@));
            return Err(e);
        }
        if cs.len() > 1 {
            let e = ConfigError::MultiGlyph {
                source: owned(source),
                key: owned(k.as_str()),
                value: owned(v.as_str()),
            };
            assert(glyph_error_for(e, source@, map.pairs()[i as int].0, map.pairs()[i as int].1@));
            return Err(e);
        }
        proof {
            if i > 0 {
                assert(crate::text::seq_less(map.pairs()[i - 1].0, map.pairs()[i as int].0));
            }
        }
        assert(v@ =~= seq![cs[0]]);
        out.push_in_order(owned(k.as_str()), cs[0]);
        i = i + 1;
    }
    assert forall|j: int| 0 <= j < n implies glyph_ok(#[trigger] map.pairs()[j].1@) by {
        assert(out.pairs()[j].0 == map.pairs()[j].0);
    }
    Ok(out)
}

impl Icons {
    /// Glyphs by file-type key.
    pub closed spec fn file_glyphs(&self) -> Map<Seq<char>, char> {
        self.files@
    }

    /// Glyphs by folder key.
    pub closed spec fn folder_glyphs(&self) -> Map<Seq<char>, char> {
        self.folders@
    }

    /// Extension aliases.
    pub closed spec fn file_alias_map(&self) -> Map<Seq<char>, Seq<char>> {
        text_map(self.file_aliases)
    }

    /// Folder-name aliases.
    pub closed spec fn folder_alias_map(&self) -> Map<Seq<char>, Seq<char>> {
        text_map(self.folder_aliases)
    }

    /// The fallback file glyph.
    pub closed spec fn file_default_glyph(&self) -> char {
        self.file_default
    }

    /// The fallback folder glyph.
    pub closed spec fn folder_default_glyph(&self) -> char {
        self.folder_default
    }

    /// Tables are well-formed.
    pub closed spec fn wf(&self) -> bool {
        &&& self.files.wf()
        &&& self.folders.wf()
        &&& self.file_aliases.wf()
        &&& self.folder_aliases.wf()
    }

    /// The icon resolved for a directory named `name`.
    pub open spec fn directory_icon(&self, name: Seq<char>) -> (char, IconKind, Seq<char>) {
        let key = to_lowercase_of(name);
        if self.folder_glyphs().contains_key(key) {
            (self.folder_glyphs()[key], IconKind::Folder, key)
        } else if self.folder_alias_map().contains_key(key) && self.folder_glyphs().contains_key(
            self.folder_alias_map()[key],
        ) {
            (
                self.folder_glyphs()[self.folder_alias_map()[key]],
                IconKind::Folder,
                self.folder_alias_map()[key],
            )
        } else {
            (self.folder_default_glyph(), IconKind::DefaultFolder, "folder"@)
        }
    }

    /// The icon resolved for a file named `name`.
    pub open spec fn file_icon(&self, name: Seq<char>) -> (char, IconKind, Seq<char>) {
        let key = extension_key(name);
        if self.file_glyphs().contains_key(key) {
            (self.file_glyphs()[key], IconKind::File, key)
        } else if self.file_alias_map().contains_key(key) && self.file_glyphs().contains_key(
            self.file_alias_map()[key],
        ) {
            (
                self.file_glyphs()[self.file_alias_map()[key]],
                IconKind::File,
                self.file_alias_map()[key],
            )
        } else {
            (self.file_default_glyph(), IconKind::DefaultFile, "file"@)
        }
    }

    /// Builds the icon tables from the configuration. Fails when a glyph is
    /// not a single code point or a default glyph (`file` in `files.yaml`,
    /// `folder` in `folders.yaml`) is missing.
    pub fn from_config(cfg: &Config) -> (r: Result<Self, ConfigError>)
        requires
            cfg.wf(),
        ensures
            r is Ok <==> {
                &&& glyphs_ok(cfg.files.pairs())
                &&& glyphs_ok(cfg.folders.pairs())
                &&& cfg.files@.contains_key("file"@)
                &&& cfg.folders@.contains_key("folder"@)
            },
            r matches Ok(icons) ==> {
                &&& icons.wf()
                &&& icons.file_alias_map() == text_map(cfg.file_aliases)
                &&& icons.folder_alias_map() == text_map(cfg.folder_aliases)
                &&& icons.file_glyphs().dom() == cfg.files@.dom()
                &&& icons.folder_glyphs().dom() == cfg.folders@.dom()
                &&& forall|k: Seq<char>| #[trigger]
                    icons.file_glyphs().contains_key(k) ==> cfg.files@[k]@ == seq![
                        icons.file_glyphs()[k],
                    ]
                &&& forall|k: Seq<char>| #[trigger]
                    icons.folder_glyphs().contains_key(k) ==> cfg.folders@[k]@ == seq![
                        icons.folder_glyphs()[k],
                    ]
                &&& icons.file_default_glyph() == icons.file_glyphs()["file"@]
                &&& icons.folder_default_glyph() == icons.folder_glyphs()["folder"@]
            },
            r matches Err(e) ==> {
                ||| !glyphs_ok(cfg.files.pairs()) && glyph_error(cfg.files.pairs(), "files.yaml"@, e)
                ||| glyphs_ok(cfg.files.pairs()) && !glyphs_ok(cfg.folders.pairs()) && glyph_error(
                    cfg.folders.pairs(),
                    "folders.yaml"@,
                    e,
                )
                ||| glyphs_ok(cfg.files.pairs()) && glyphs_ok(cfg.folders.pairs())
                    && !cfg.files@.contains_key("file"@) && e.missing_glyph("files.yaml"@, "file"@)
                ||| glyphs_ok(cfg.files.pairs()) && glyphs_ok(cfg.folders.pairs())
                    && cfg.files@.contains_key("file"@) && !cfg.folders@.contains_key("folder"@)
                    && e.missing_glyph("folders.yaml"@, "folder"@)
            },
    {
        let files = parse_glyph_map(&cfg.files, "files.yaml")?;
        let folders = parse_glyph_map(&cfg.folders, "folders.yaml")?;
        proof {
            lemma_glyph_dom(cfg.files, files);
            lemma_glyph_dom(cfg.folders, folders);
        }
        let file_default = match files.get("file") {
            Some(g) => *g,
            None => {
                return Err(
                    ConfigError::MissingDefaultGlyph { file: owned("files.yaml"), key: owned("file") },
                );
            },
        };
        let folder_default = match folders.get("folder") {
            Some(g) => *g,
            None => {
                return Err(
                    ConfigError::MissingDefaultGlyph {
                        file: owned("folders.yaml"),
                        key: owned("folder"),
                    },
                );
            },
        };
        Ok(Icons {
            files,
            folders,
            file_aliases: cfg.file_aliases.duplicate(),
            folder_aliases: cfg.folder_aliases.duplicate(),
            file_default,
            folder_default,
        })
    }

    /// Resolves the icon of a directory named `name`.
    pub fn for_directory(&self, name: &str) -> (r: Resolved)
        requires
            self.wf(),
        ensures
            (r.glyph, r.kind, r.key@) == self.directory_icon(name@),
    {
        let key = lowercase(name);
        if let Some(g) = self.folders.get(key.as_str()) {
            return Resolved { glyph: *g, kind: IconKind::Folder, key };
        }
        if let Some(canonical) = self.folder_aliases.get(key.as_str()) {
            if let Some(g) = self.folders.get(canonical.as_str()) {
                return Resolved { glyph: *g, kind: IconKind::Folder, key: canonical.clone() };
            }
        }
        proof {
            reveal_strlit("folder");
        }
        Resolved { glyph: self.folder_default, kind: IconKind::DefaultFolder, key: owned("folder") }
    }

    /// Resolves the icon of a file named `name` by its extension.
    pub fn for_file(&self, name: &str) -> (r: Resolved)
        requires
            self.wf(),
        ensures
            (r.glyph, r.kind, r.key@) == self.file_icon(name@),
    {
        let ext = file_extension_key(name);
        if let Some(g) = self.files.get(ext.as_str()) {
            return Resolved { glyph: *g, kind: IconKind::File, key: ext };
        }
        if let Some(canonical) = self.file_aliases.get(ext.as_str()) {
            if let Some(g) = self.files.get(canonical.as_str()) {
                return Resolved { glyph: *g, kind: IconKind::File, key: canonical.clone() };
            }
        }
        proof {
            reveal_strlit("file");
        }
        Resolved { glyph: self.file_default, kind: IconKind::DefaultFile, key: owned("file") }
    }
}

/// The extension of `name`, lower-cased; empty when there is none.
pub fn file_extension_key(name: &str) -> (r: String)
    ensures
        r@ == extension_key(name@),
{
    match path_extension(name) {
        Some(e) => lowercase(e.as_str()),
        None => String::new(),
    }
}

proof fn lemma_glyph_dom(map: YamlMap, g: StrMap<char>)
    requires
        map.wf(),
        g.wf(),
        glyphs_match(map.pairs(), g.pairs()),
    ensures
        g@.dom() == map@.dom(),
        forall|k: Seq<char>| #[trigger] g@.contains_key(k) ==> map@[k]@ == seq![g@[k]],
{
    let s = map.pairs();
    let t = g.pairs();
    assert forall|k: Seq<char>| #[trigger] g@.contains_key(k) == map@.contains_key(k) by {
        if has_key(t, k) {
            let i = key_index(t, k);
            assert(s[i].0 == k);
        }
        if has_key(s, k) {
            let i = key_index(s, k);
            assert(t[i].0 == k);
        }
    }
    assert(g@.dom() =~= map@.dom());
    assert forall|k: Seq<char>| #[trigger] g@.contains_key(k) implies map@[k]@ == seq![g@[k]] by {
        let i = key_index(t, k);
        lemma_map_of_index(t, i);
        assert(s[i].0 == k);
        lemma_map_of_index(s, i);
    }
}

} // verus!
