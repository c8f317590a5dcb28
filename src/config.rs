//! Configuration values and the paths derived from them.

use vstd::prelude::*;
use crate::text::string_of;

verus! {

#[derive(Clone, Debug)]
pub struct GeneralConfig {
    pub vault_path: String,
    pub scratch_file: String,
    pub auto_save_debounce_ms: u64,
    pub theme: String,
}

#[derive(Clone, Debug)]
pub struct EditorConfig {
    pub tab_width: u16,
    pub soft_wrap: bool,
    pub line_numbers: bool,
    pub scroll_off: u16,
}

#[derive(Clone, Debug)]
pub struct SearchConfig {
    pub max_results: usize,
    pub ignore_patterns: Vec<String>,
}

#[derive(Clone, Debug)]
pub struct GitSyncConfig {
    pub auto_commit: bool,
    pub auto_push: bool,
    pub commit_message_format: String,
}

#[derive(Clone, Debug)]
pub struct SyncConfig {
    pub backend: String,
    pub git: Option<GitSyncConfig>,
}

/// The whole configuration.
#[derive(Clone, Debug)]
pub struct AppConfig {
    pub general: GeneralConfig,
    pub editor: EditorConfig,
    pub search: SearchConfig,
    pub sync: SyncConfig,
}

/// `base` joined with `rest` as `Path::join` does for a relative `rest`:
/// with a separator between them unless `base` is empty or ends in one;
/// an absolute `rest` replaces `base`.
pub open spec fn join_path(base: Seq<char>, rest: Seq<char>) -> Seq<char> {
    if rest.len() > 0 && rest[0] == '/' {
        rest
    } else if base.len() == 0 || base.last() == '/' {
        base + rest
    } else {
        base + seq!['/'] + rest
    }
}

/// Joins two paths.
pub fn join(base: &String, rest: &String) -> (r: String)
    ensures
        r@ == join_path(base@, rest@),
{
    let b = crate::text::chars_of(base.as_str());
    let t = crate::text::chars_of(rest.as_str());
    if t.len() > 0 && t[0] == '/' {
        return rest.clone();
    }
    let mut v = b.clone();
    if !(b.len() == 0 || b[b.len() - 1] == '/') {
        v.push('/');
    }
    let mut i: usize = 0;
    let ghost start = v@;
    while i < t.len()
        invariant
            i <= t.len(),
            v@ == start + t@.take(i as int),
        decreases t.len() - i,
    {
        v.push(t[i]);
        assert(t@.take(i + 1) == t@.take(i as int).push(t@[i as int]));
        i = i + 1;
    }
    assert(t@.take(t.len() as int) == t@);
    string_of(&v)
}

/// A path with a leading `~` replaced by the home directory; none when it
/// starts with `~` and the home directory is unknown.
pub open spec fn expanded_path(path: Seq<char>, home: Option<Seq<char>>) -> Option<Seq<char>> {
    if path.len() > 0 && path[0] == '~' {
        match home {
            Some(h) => Some(h + path.subrange(1, path.len() as int)),
            None => None,
        }
    } else {
        Some(path)
    }
}

/// Replaces a leading `~` of `path` with `home`.
pub fn expand_tilde(path: &String, home: Option<String>) -> (r: Option<String>)
    ensures
        r is Some <==> expanded_path(path@, opt_string_view(home)) is Some,
        r matches Some(s) ==> expanded_path(path@, opt_string_view(home)) == Some(s@),
{
    let p = crate::text::chars_of(path.as_str());
    if !(p.len() > 0 && p[0] == '~') {
        return Some(path.clone());
    }
    match home {
        Some(h) => {
            let mut v = crate::text::chars_of(h.as_str());
            let ghost start = v@;
            let mut i: usize = 1;
            while i < p.len()
                invariant
                    1 <= i <= p.len(),
                    v@ == start + p@.subrange(1, i as int),
                decreases p.len() - i,
            {
                v.push(p[i]);
                assert(p@.subrange(1, i + 1) == p@.subrange(1, i as int).push(p@[i as int]));
                i = i + 1;
            }
            Some(string_of(&v))
        },
        None => None,
    }
}

/// The view of an optional string.
pub open spec fn opt_string_view(o: Option<String>) -> Option<Seq<char>> {
    match o {
        Some(s) => Some(s@),
        None => None,
    }
}

impl AppConfig {
    /// The vault directory.
    pub fn vault_path(&self) -> (r: String)
        ensures
            r@ == self.general.vault_path@,
    {
        self.general.vault_path.clone()
    }

    /// The scratch note: the scratch file inside the vault.
    pub fn scratch_path(&self) -> (r: String)
        ensures
            r@ == join_path(self.general.vault_path@, self.general.scratch_file@),
    {
        join(&self.general.vault_path, &self.general.scratch_file)
    }
}

} // verus!
