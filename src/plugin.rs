//! Plugin scaffolding: manifests that were discovered on disk, their
//! runtimes' status, and the commands they declare. No plugin code runs.

use vstd::prelude::*;
use crate::text::{chars_of, string_of};
use crate::order::{lex_le, lex_le_exec, lemma_lex_total, lemma_lex_trans};
use crate::links::vec_eq;

verus! {

broadcast use vstd::seq_lib::group_to_multiset_ensures;

/// A plugin's identity.
#[derive(Clone, Debug)]
pub struct PluginId(pub String);

impl PluginId {
    pub fn new(value: String) -> (r: PluginId)
        ensures
            r.0 == value,
    {
        PluginId(value)
    }
}

/// What a plugin may ask of the host.
#[derive(Clone, Copy, Debug, PartialEq, Eq, Structural)]
pub enum Permission {
    ReadBuffer,
    ProposeEdit,
    DrawPane,
    RegisterCommand,
    ListenEvents,
    BindKeys,
}

/// A command a plugin declares.
#[derive(Clone, Debug)]
pub struct CommandDef {
    pub name: String,
    pub description: Option<String>,
}

/// A key binding a plugin declares.
#[derive(Clone, Debug)]
pub struct KeybindingDef {
    pub mode: String,
    pub keys: String,
    pub action: String,
}

/// The contents of a plugin's `plugin.toml`.
#[derive(Clone, Debug)]
pub struct PluginManifest {
    pub name: String,
    pub version: String,
    pub entry: String,
    pub description: Option<String>,
    pub author: Option<String>,
    pub permissions: Vec<Permission>,
    pub commands: Vec<CommandDef>,
    pub keybindings: Vec<KeybindingDef>,
}

/// Where a configured plugin comes from.
#[derive(Clone, Debug)]
pub struct PluginConfig {
    pub repo: Option<String>,
    pub path: Option<String>,
    pub branch: Option<String>,
    pub enabled: bool,
}

/// A plugin's state.
#[derive(Clone, Debug)]
pub enum PluginStatus {
    Discovered,
    Loaded,
    Error(String),
}

/// Messages a plugin sends to the editor.
#[derive(Clone, Debug)]
pub enum PluginAction {
    Notify(String),
    RequestRedraw,
}

/// The host functions offered to plugins; there are none yet.
pub struct HostFunctions;

impl HostFunctions {
    /// Registers the host functions; there are none yet.
    pub fn register_all() {
    }
}

/// Fetching plugin repositories; not done yet.
pub struct PluginInstaller;

impl PluginInstaller {
    /// Syncs the configured plugin repositories; not done yet.
    pub fn sync(_plugins: &Vec<PluginConfig>) {
    }
}

/// One discovered plugin.
#[derive(Clone, Debug)]
pub struct PluginRuntime {
    pub id: PluginId,
    pub root_dir: String,
    pub manifest: Option<PluginManifest>,
    pub status: PluginStatus,
    /// Whether the manifest's entry file exists under the root directory.
    pub entry_present: bool,
}

/// Whether a manifest declares a command named `command`.
pub open spec fn declares(m: Option<PluginManifest>, command: Seq<char>) -> bool {
    match m {
        Some(man) => exists|i: int| 0 <= i < man.commands@.len() && (#[trigger] man.commands@[i]).name@ == command,
        None => false,
    }
}

/// Decimal digit `d` as a character.
pub open spec fn digit_of(d: int) -> char {
    if d == 0 { '0' } else if d == 1 { '1' } else if d == 2 { '2' } else if d == 3 { '3' } else if d
        == 4 { '4' } else if d == 5 { '5' } else if d == 6 { '6' } else if d == 7 { '7' } else if d
        == 8 { '8' } else { '9' }
}

/// The decimal numeral of `n`.
pub open spec fn decimal_of(n: nat) -> Seq<char>
    decreases n,
{
    if n < 10 {
        seq![digit_of(n as int)]
    } else {
        decimal_of(n / 10).push(digit_of((n % 10) as int))
    }
}

fn digit_char(d: usize) -> (r: char)
    ensures
        r == digit_of(d as int),
{
    if d == 0 { '0' } else if d == 1 { '1' } else if d == 2 { '2' } else if d == 3 { '3' } else if d
        == 4 { '4' } else if d == 5 { '5' } else if d == 6 { '6' } else if d == 7 { '7' } else if d
        == 8 { '8' } else { '9' }
}

/// Writes `n` in decimal.
pub fn decimal(n: usize) -> (r: Vec<char>)
    ensures
        r@ == decimal_of(n as nat),
    decreases n,
{
    if n < 10 {
        let mut v: Vec<char> = Vec::new();
        v.push(digit_char(n));
        v
    } else {
        let mut v = decimal(n / 10);
        v.push(digit_char(n % 10));
        v
    }
}

/// `a` followed by `b`.
pub fn cat(a: Vec<char>, b: &Vec<char>) -> (r: Vec<char>)
    ensures
        r@ == a@ + b@,
{
    let mut r = a;
    let ghost start = r@;
    let mut i: usize = 0;
    while i < b.len()
        invariant
            i <= b.len(),
            r@ == start + b@.take(i as int),
        decreases b.len() - i,
    {
        r.push(b[i]);
        assert(b@.take(i + 1) == b@.take(i as int).push(b@[i as int]));
        i = i + 1;
    }
    assert(b@.take(b.len() as int) == b@);
    r
}

fn text(s: &str) -> (r: Vec<char>)
    ensures
        r@ == s@,
{
    chars_of(s)
}

impl PluginRuntime {
    /// A runtime for the plugin at `root_dir`, from the result of reading its
    /// manifest: discovered with the manifest, or in error with the message.
    pub fn discover(id: PluginId, root_dir: String, manifest: Result<PluginManifest, String>, entry_present: bool) -> (r: PluginRuntime)
        ensures
            r.id == id,
            r.root_dir == root_dir,
            r.entry_present == entry_present,
            manifest is Ok ==> r.manifest == Some(manifest->Ok_0) && r.status is Discovered,
            manifest is Err ==> r.manifest is None && r.status == PluginStatus::Error(manifest->Err_0),
    {
        match manifest {
            Ok(m) => PluginRuntime { id, root_dir, manifest: Some(m), status: PluginStatus::Discovered, entry_present },
            Err(e) => PluginRuntime { id, root_dir, manifest: None, status: PluginStatus::Error(e), entry_present },
        }
    }

    pub fn status(&self) -> (r: &PluginStatus)
        ensures
            *r == self.status,
    {
        &self.status
    }

    /// Whether the manifest declares `command`.
    pub fn supports_command(&self, command: &String) -> (r: bool)
        ensures
            r == declares(self.manifest, command@),
    {
        match &self.manifest {
            Some(m) => {
                let mut i: usize = 0;
                while i < m.commands.len()
                    invariant
                        i <= m.commands@.len(),
                        self.manifest == Some(*m),
                        forall|k: int| 0 <= k < i ==> (#[trigger] m.commands@[k]).name@ != command@,
                    decreases m.commands.len() - i,
                {
                    if m.commands[i].name == *command {
                        assert(m.commands@[i as int].name@ == command@);
                        return true;
                    }
                    i = i + 1;
                }
                false
            },
            None => false,
        }
    }

    /// The manifest's name, else the plugin's id.
    pub fn display_name(&self) -> (r: String)
        ensures
            r@ == match self.manifest {
                Some(m) => m.name@,
                None => self.id.0@,
            },
    {
        match &self.manifest {
            Some(m) => m.name.clone(),
            None => self.id.0.clone(),
        }
    }

    /// Loads the plugin unless it is loaded: without a manifest, or when
    /// its entry file is missing (which puts it in error), loading fails.
    pub fn ensure_loaded(&mut self) -> (r: Result<(), String>)
        ensures
            old(self).status is Loaded ==> r is Ok && *final(self) == *old(self),
            !(old(self).status is Loaded) && old(self).manifest is None ==> (r matches Err(e) && e@ == "missing plugin manifest"@)
                && *final(self) == *old(self),
            !(old(self).status is Loaded) && old(self).manifest is Some && !old(self).entry_present ==> (r matches Err(e)
                && e@ == missing_entry(*old(self)) && final(self).status == PluginStatus::Error(e)),
            !(old(self).status is Loaded) && old(self).manifest is Some && old(self).entry_present ==> r is Ok
                && final(self).status is Loaded,
            final(self).manifest == old(self).manifest,
            final(self).id == old(self).id,
            final(self).root_dir == old(self).root_dir,
            final(self).entry_present == old(self).entry_present,
    {
        if let PluginStatus::Loaded = self.status {
            return Ok(());
        }
        let entry = match &self.manifest {
            Some(m) => m.entry.clone(),
            None => {
                return Err(string_of(&text("missing plugin manifest")));
            },
        };
        if !self.entry_present {
            let path = crate::config::join(&self.root_dir, &entry);
            let err = string_of(&cat(text("missing wasm entry: "), &chars_of(path.as_str())));
            self.status = PluginStatus::Error(err.clone());
            return Err(err);
        }
        self.status = PluginStatus::Loaded;
        Ok(())
    }

    /// Runs `command`: nothing when the plugin does not declare it; else the
    /// plugin is loaded and a message says it handled the command.
    pub fn execute_command(&mut self, command: &String) -> (r: Result<Option<String>, String>)
        ensures
            !declares(old(self).manifest, command@) ==> r == Ok::<Option<String>, String>(None) && *final(self) == *old(self),
            declares(old(self).manifest, command@) && (old(self).status is Loaded || old(self).entry_present) ==> (r matches Ok(Some(m))
                && m@ == "plugin "@ + old(self).manifest->Some_0.name@ + " handled command: "@ + command@),
            declares(old(self).manifest, command@) && (old(self).status is Loaded || old(self).entry_present)
                ==> final(self).status is Loaded,
            declares(old(self).manifest, command@) && !(old(self).status is Loaded) && !old(self).entry_present ==> (r matches Err(e)
                && e@ == missing_entry(*old(self)) && final(self).status == PluginStatus::Error(e)),
            final(self).manifest == old(self).manifest,
            final(self).id == old(self).id,
            final(self).root_dir == old(self).root_dir,
            final(self).entry_present == old(self).entry_present,
    {
        if !self.supports_command(command) {
            return Ok(None);
        }
        match self.ensure_loaded() {
            Ok(()) => {},
            Err(e) => {
                return Err(e);
            },
        }
        let name = chars_of(self.display_name().as_str());
        let msg = cat(cat(cat(text("plugin "), &name), &text(" handled command: ")), &chars_of(command.as_str()));
        Ok(Some(string_of(&msg)))
    }
}

/// The error for a plugin whose entry file is missing.
pub open spec fn missing_entry(rt: PluginRuntime) -> Seq<char> {
    "missing wasm entry: "@ + crate::config::join_path(rt.root_dir@, rt.manifest->Some_0.entry@)
}

/// A runtime's display name: the manifest's name, else the id.
pub open spec fn display_of(rt: PluginRuntime) -> Seq<char> {
    match rt.manifest {
        Some(m) => m.name@,
        None => rt.id.0@,
    }
}

/// The error lines of the first `n` runtimes, in order.
pub open spec fn error_lines(v: Seq<PluginRuntime>, n: int) -> Seq<Seq<char>>
    decreases n,
{
    if n <= 0 || n > v.len() {
        Seq::empty()
    } else {
        match v[n - 1].status {
            PluginStatus::Error(e) => error_lines(v, n - 1).push(
                "plugin "@ + display_of(v[n - 1]) + " ("@ + v[n - 1].root_dir@ + "): "@ + e@,
            ),
            _ => error_lines(v, n - 1),
        }
    }
}

/// The status word of a runtime in the plugin list.
pub open spec fn status_word(st: PluginStatus) -> Seq<char> {
    match st {
        PluginStatus::Discovered => "discovered"@,
        PluginStatus::Loaded => "loaded"@,
        PluginStatus::Error(e) => "error: "@ + e@,
    }
}

/// The list row of a runtime.
pub open spec fn list_row(rt: PluginRuntime) -> Seq<char> {
    "plugin "@ + display_of(rt) + " ["@ + status_word(rt.status) + "] ("@ + rt.root_dir@ + ")"@
}

/// `plugins: <n> discovered, <e> errors`, where `n` counts the runtimes
/// not in error.
pub open spec fn summary_line(v: Seq<PluginRuntime>) -> Seq<char> {
    "plugins: "@ + decimal_of((v.len() - errors_in(v, v.len() as int)) as nat) + " discovered, "@ + decimal_of(
        errors_in(v, v.len() as int),
    ) + " errors"@
}

/// The command names declared by the first `n` runtimes, in order.
pub open spec fn declared_names(v: Seq<PluginRuntime>, n: int) -> Seq<Seq<char>>
    decreases n,
{
    if n <= 0 || n > v.len() {
        Seq::empty()
    } else {
        declared_names(v, n - 1) + match v[n - 1].manifest {
            Some(m) => m.commands@.map_values(|c: CommandDef| c.name@),
            None => Seq::empty(),
        }
    }
}

/// A sorted sequence without its adjacent repeats.
pub open spec fn dedup(v: Seq<Seq<char>>) -> Seq<Seq<char>>
    decreases v.len(),
{
    if v.len() == 0 {
        Seq::empty()
    } else if v.len() >= 2 && v.last() == v[v.len() - 2] {
        dedup(v.drop_last())
    } else {
        dedup(v.drop_last()).push(v.last())
    }
}

/// Names joined by `, `.
pub open spec fn joined(v: Seq<Seq<char>>) -> Seq<char>
    decreases v.len(),
{
    if v.len() == 0 {
        Seq::empty()
    } else if v.len() == 1 {
        v[0]
    } else {
        joined(v.drop_last()) + ", "@ + v.last()
    }
}

/// A runtime declares no commands.
pub open spec fn no_commands(rt: PluginRuntime) -> bool {
    match rt.manifest {
        Some(m) => m.commands@.len() == 0,
        None => true,
    }
}

/// Whether runtimes have distinct ids.
pub open spec fn ids_distinct(v: Seq<PluginRuntime>) -> bool {
    forall|i: int, j: int| 0 <= i < j < v.len() ==> (#[trigger] v[i]).id.0@ != (#[trigger] v[j]).id.0@
}

/// The number of runtimes in error among the first `n`.
pub open spec fn errors_in(v: Seq<PluginRuntime>, n: int) -> nat
    decreases n,
{
    if n <= 0 || n > v.len() {
        0
    } else {
        errors_in(v, n - 1) + if v[n - 1].status is Error { 1nat } else { 0nat }
    }
}

proof fn lemma_errors_le(v: Seq<PluginRuntime>, n: int)
    requires
        0 <= n <= v.len(),
    ensures
        errors_in(v, n) <= n,
    decreases n,
{
    if n > 0 {
        lemma_errors_le(v, n - 1);
    }
}

/// The discovered plugins, one runtime per id.
#[derive(Debug)]
pub struct PluginManager {
    pub runtimes: Vec<PluginRuntime>,
}

impl PluginManager {
    /// A manager over discovered runtimes, keeping the first runtime of each id.
    pub fn new(found: Vec<PluginRuntime>) -> (r: PluginManager)
        ensures
            ids_distinct(r.runtimes@),
            r.runtimes@.len() <= found@.len(),
            forall|i: int| 0 <= i < found@.len() ==> exists|j: int| 0 <= j < r.runtimes@.len() && (#[trigger] r.runtimes@[j]).id.0@ == (#[trigger] found@[i]).id.0@,
    {
        let ghost orig = found@;
        let mut rest = found;
        let mut kept: Vec<PluginRuntime> = Vec::new();
        while rest.len() > 0
            invariant
                rest@ == orig.subrange(orig.len() - rest@.len(), orig.len() as int),
                kept@.len() <= orig.len() - rest@.len(),
                ids_distinct(kept@),
                forall|a: int| 0 <= a < orig.len() - rest@.len() ==> exists|j: int| 0 <= j < kept@.len() && (#[trigger] kept@[j]).id.0@ == (#[trigger] orig[a]).id.0@,
            decreases rest.len(),
        {
            let ghost done = orig.len() - rest@.len();
            let x = rest.remove(0);
            assert(x == orig[done]);
            let mut dup = false;
            let mut j: usize = 0;
            while j < kept.len()
                invariant
                    j <= kept@.len(),
                    dup ==> exists|t: int| 0 <= t < kept@.len() && (#[trigger] kept@[t]).id.0@ == x.id.0@,
                    !dup ==> forall|t: int| 0 <= t < j ==> (#[trigger] kept@[t]).id.0@ != x.id.0@,
                decreases kept.len() - j,
            {
                if kept[j].id.0 == x.id.0 {
                    dup = true;
                }
                j = j + 1;
            }
            let ghost before_kept = kept@;
            if !dup {
                kept.push(x);
            }
            proof {
                assert(rest@ == orig.subrange(orig.len() - rest@.len(), orig.len() as int));
                assert forall|a: int| 0 <= a < orig.len() - rest@.len() implies exists|j: int| 0 <= j < kept@.len() && (#[trigger] kept@[j]).id.0@ == (#[trigger] orig[a]).id.0@ by {
                    if a == done {
                        if !dup {
                            assert(kept@[kept@.len() - 1].id.0@ == orig[a].id.0@);
                        } else {
                            let t = choose|t: int| 0 <= t < before_kept.len() && (#[trigger] before_kept[t]).id.0@ == x.id.0@;
                            assert(kept@[t] == before_kept[t]);
                        }
                    } else {
                        let t = choose|t: int| 0 <= t < before_kept.len() && (#[trigger] before_kept[t]).id.0@ == (#[trigger] orig[a]).id.0@;
                        assert(kept@[t] == before_kept[t]);
                    }
                }
            }
        }
        assert(orig == found@);
        PluginManager { runtimes: kept }
    }

    pub fn plugin_count(&self) -> (r: usize)
        ensures
            r == self.runtimes@.len(),
    {
        self.runtimes.len()
    }

    /// The number of runtimes in error.
    pub fn error_count(&self) -> (r: usize)
        ensures
            r == errors_in(self.runtimes@, self.runtimes@.len() as int),
    {
        let mut n: usize = 0;
        let mut i: usize = 0;
        while i < self.runtimes.len()
            invariant
                i <= self.runtimes@.len(),
                n == errors_in(self.runtimes@, i as int),
            decreases self.runtimes.len() - i,
        {
            proof {
                lemma_errors_le(self.runtimes@, i as int);
            }
            if let PluginStatus::Error(_) = self.runtimes[i].status {
                n = n + 1;
            }
            i = i + 1;
        }
        n
    }
}

/// Whether character sequences are in order.
pub open spec fn strings_sorted(v: Seq<Seq<char>>) -> bool {
    forall|i: int, j: int| 0 <= i < j < v.len() ==> lex_le(#[trigger] v[i], #[trigger] v[j], false)
}

/// Sorts character sequences.
pub fn sort_strings(v: Vec<Vec<char>>) -> (r: Vec<Vec<char>>)
    ensures
        strings_sorted(r@.map_values(|x: Vec<char>| x@)),
        r@.map_values(|x: Vec<char>| x@).to_multiset() == v@.map_values(|x: Vec<char>| x@).to_multiset(),
{
    let ghost orig = v@.map_values(|x: Vec<char>| x@);
    let mut v = v;
    let mut r: Vec<Vec<char>> = Vec::new();
    assert(r@.map_values(|x: Vec<char>| x@) == Seq::<Seq<char>>::empty());
    while v.len() > 0
        invariant
            strings_sorted(r@.map_values(|x: Vec<char>| x@)),
            r@.map_values(|x: Vec<char>| x@).to_multiset().add(v@.map_values(|x: Vec<char>| x@).to_multiset())
                == orig.to_multiset(),
        decreases v.len(),
    {
        let ghost old_v = v@.map_values(|x: Vec<char>| x@);
        let ghost old_r = r@.map_values(|x: Vec<char>| x@);
        let x = v.pop().unwrap();
        assert(old_v == v@.map_values(|x: Vec<char>| x@).push(x@));
        let mut j: usize = 0;
        while j < r.len() && lex_le_exec(&r[j], &x, false)
            invariant
                j <= r.len(),
                old_r == r@.map_values(|x: Vec<char>| x@),
                forall|k: int| 0 <= k < j ==> lex_le(#[trigger] old_r[k], x@, false),
            decreases r.len() - j,
        {
            j = j + 1;
        }
        proof {
            if j < r.len() {
                lemma_lex_total(old_r[j as int], x@, false);
                assert forall|k: int| j <= k < old_r.len() implies lex_le(x@, #[trigger] old_r[k], false) by {
                    if k > j {
                        assert(lex_le(old_r[j as int], old_r[k], false));
                        lemma_lex_trans(x@, old_r[j as int], old_r[k], false);
                    }
                }
            }
        }
        r.insert(j, x);
        proof {
            let nr = r@.map_values(|x: Vec<char>| x@);
            assert(nr == old_r.insert(j as int, x@));
            assert forall|a: int, b: int| 0 <= a < b < nr.len() implies lex_le(#[trigger] nr[a], #[trigger] nr[b], false) by {
                if a < j && b > j {
                    lemma_lex_trans(old_r[a], x@, old_r[b - 1], false);
                } else if a > j {
                    assert(nr[a] == old_r[a - 1] && nr[b] == old_r[b - 1]);
                }
            }
            assert(nr.to_multiset() == old_r.to_multiset().insert(x@));
            assert(old_v.to_multiset() == v@.map_values(|x: Vec<char>| x@).to_multiset().insert(x@));
            assert(nr.to_multiset().add(v@.map_values(|x: Vec<char>| x@).to_multiset()) =~= old_r.to_multiset().add(
                old_v.to_multiset(),
            ));
        }
    }
    assert(v@.map_values(|x: Vec<char>| x@) == Seq::<Seq<char>>::empty());
    assert(r@.map_values(|x: Vec<char>| x@).to_multiset().add(v@.map_values(|x: Vec<char>| x@).to_multiset())
        =~= r@.map_values(|x: Vec<char>| x@).to_multiset());
    r
}

impl PluginManager {
    /// `plugins: <n> discovered, <e> errors`, where `n` counts the runtimes
    /// not in error.
    pub fn summary_notification(&self) -> (r: String)
        ensures
            r@ == summary_line(self.runtimes@),
    {
        let errors = self.error_count();
        proof {
            lemma_errors_le(self.runtimes@, self.runtimes@.len() as int);
        }
        let discovered = self.plugin_count() - errors;
        let v = cat(cat(cat(cat(text("plugins: "), &decimal(discovered)), &text(" discovered, ")), &decimal(errors)), &text(" errors"));
        string_of(&v)
    }

    /// One `plugin <name> (<root>): <error>` line per runtime in error.
    pub fn error_notifications(&self) -> (r: Vec<String>)
        ensures
            r@.len() == errors_in(self.runtimes@, self.runtimes@.len() as int),
            r@.map_values(|x: String| x@) == error_lines(self.runtimes@, self.runtimes@.len() as int),
    {
        let mut out: Vec<String> = Vec::new();
        let mut i: usize = 0;
        while i < self.runtimes.len()
            invariant
                i <= self.runtimes@.len(),
                out@.len() == errors_in(self.runtimes@, i as int),
                out@.map_values(|x: String| x@) == error_lines(self.runtimes@, i as int),
            decreases self.runtimes.len() - i,
        {
            let rt = &self.runtimes[i];
            if let PluginStatus::Error(err) = &rt.status {
                let name = chars_of(rt.display_name().as_str());
                let v = cat(cat(cat(cat(cat(text("plugin "), &name), &text(" (")), &chars_of(rt.root_dir.as_str())), &text("): ")), &chars_of(err.as_str()));
                let ghost before = out@.map_values(|x: String| x@);
                out.push(string_of(&v));
                proof {
                    assert(out@.map_values(|x: String| x@) == before.push(v@));
                }
            }
            i = i + 1;
        }
        out
    }

    /// Nothing without plugins; else the summary followed by the errors.
    pub fn startup_notifications(&self) -> (r: Vec<String>)
        ensures
            self.runtimes@.len() == 0 ==> r@.len() == 0,
            self.runtimes@.len() > 0 ==> r@.len() == 1 + errors_in(self.runtimes@, self.runtimes@.len() as int),
            self.runtimes@.len() > 0 ==> r@.map_values(|x: String| x@) == seq![summary_line(self.runtimes@)] + error_lines(
                self.runtimes@,
                self.runtimes@.len() as int,
            ),
    {
        if self.runtimes.len() == 0 {
            return Vec::new();
        }
        let mut out: Vec<String> = Vec::new();
        let summary = self.summary_notification();
        out.push(summary);
        let errs = self.error_notifications();
        let ghost ev = errs@.map_values(|x: String| x@);
        let mut i: usize = 0;
        while i < errs.len()
            invariant
                i <= errs@.len(),
                out@.len() == 1 + i,
                ev == errs@.map_values(|x: String| x@),
                out@.map_values(|x: String| x@) == seq![summary@] + ev.take(i as int),
            decreases errs.len() - i,
        {
            let ghost before = out@.map_values(|x: String| x@);
            out.push(errs[i].clone());
            proof {
                assert(out@.map_values(|x: String| x@) == before.push(ev[i as int]));
                assert(ev.take(i + 1) == ev.take(i as int).push(ev[i as int]));
            }
            i = i + 1;
        }
        proof {
            assert(ev.take(errs@.len() as int) == ev);
        }
        out
    }

    /// One line per plugin with its status, sorted; a single line when
    /// there are no plugins.
    pub fn list_notifications(&self) -> (r: Vec<String>)
        ensures
            self.runtimes@.len() == 0 ==> r@.len() == 1 && r@[0]@ == "plugins: none configured"@,
            self.runtimes@.len() > 0 ==> r@.len() == self.runtimes@.len(),
            self.runtimes@.len() > 0 ==> strings_sorted(r@.map_values(|x: String| x@)),
            self.runtimes@.len() > 0 ==> r@.map_values(|x: String| x@).to_multiset()
                == self.runtimes@.map_values(|rt: PluginRuntime| list_row(rt)).to_multiset(),
    {
        if self.runtimes.len() == 0 {
            let mut v: Vec<String> = Vec::new();
            v.push(string_of(&text("plugins: none configured")));
            return v;
        }
        let mut rows: Vec<Vec<char>> = Vec::new();
        let mut i: usize = 0;
        while i < self.runtimes.len()
            invariant
                i <= self.runtimes@.len(),
                rows@.len() == i,
                rows@.map_values(|x: Vec<char>| x@) == self.runtimes@.map_values(|rt: PluginRuntime| list_row(rt)).take(i as int),
            decreases self.runtimes.len() - i,
        {
            let rt = &self.runtimes[i];
            let status = match &rt.status {
                PluginStatus::Discovered => text("discovered"),
                PluginStatus::Loaded => text("loaded"),
                PluginStatus::Error(err) => cat(text("error: "), &chars_of(err.as_str())),
            };
            let name = chars_of(rt.display_name().as_str());
            let row = cat(cat(cat(cat(cat(cat(text("plugin "), &name), &text(" [")), &status), &text("] (")), &chars_of(rt.root_dir.as_str())), &text(")"));
            let ghost before = rows@.map_values(|x: Vec<char>| x@);
            rows.push(row);
            proof {
                let all = self.runtimes@.map_values(|rt: PluginRuntime| list_row(rt));
                assert(rows@.map_values(|x: Vec<char>| x@) == before.push(row@));
                assert(all.take(i + 1) == all.take(i as int).push(all[i as int]));
            }
            i = i + 1;
        }
        proof {
            let all = self.runtimes@.map_values(|rt: PluginRuntime| list_row(rt));
            assert(all.take(self.runtimes@.len() as int) == all);
        }
        let sorted = sort_strings(rows);
        proof {
            assert(sorted@.map_values(|x: Vec<char>| x@).len() == sorted@.map_values(|x: Vec<char>| x@).to_multiset().len());
        }
        let mut out: Vec<String> = Vec::new();
        let mut k: usize = 0;
        let ghost sv = sorted@.map_values(|x: Vec<char>| x@);
        while k < sorted.len()
            invariant
                k <= sorted@.len(),
                out@.len() == k,
                sv == sorted@.map_values(|x: Vec<char>| x@),
                out@.map_values(|x: String| x@) == sv.take(k as int),
            decreases sorted.len() - k,
        {
            let ghost before = out@.map_values(|x: String| x@);
            out.push(string_of(&sorted[k]));
            proof {
                assert(out@.map_values(|x: String| x@) == before.push(sv[k as int]));
                assert(sv.take(k + 1) == sv.take(k as int).push(sv[k as int]));
            }
            k = k + 1;
        }
        proof {
            assert(sv.take(sorted@.len() as int) == sv);
        }
        out
    }

    /// `plugin commands: ` and the declared command names, sorted and
    /// without repeats, joined by `, `; or a line saying there are none.
    pub fn command_notifications(&self) -> (r: Vec<String>)
        ensures
            r@.len() == 1,
            (forall|i: int| 0 <= i < self.runtimes@.len() ==> no_commands(#[trigger] self.runtimes@[i])) ==> r@[0]@
                == "plugin commands: none discovered"@,
            !(forall|i: int| 0 <= i < self.runtimes@.len() ==> no_commands(#[trigger] self.runtimes@[i])) ==> exists|srt: Seq<Seq<char>>|
                strings_sorted(srt) && srt.to_multiset() == declared_names(self.runtimes@, self.runtimes@.len() as int).to_multiset()
                    && r@[0]@ == "plugin commands: "@ + joined(dedup(srt)),
    {
        let mut names: Vec<Vec<char>> = Vec::new();
        let mut i: usize = 0;
        while i < self.runtimes.len()
            invariant
                i <= self.runtimes@.len(),
                names@.map_values(|x: Vec<char>| x@) == declared_names(self.runtimes@, i as int),
                names@.len() == 0 <==> forall|k: int| 0 <= k < i ==> no_commands(#[trigger] self.runtimes@[k]),
            decreases self.runtimes.len() - i,
        {
            let ghost base = names@.map_values(|x: Vec<char>| x@);
            if let Some(m) = &self.runtimes[i].manifest {
                let ghost n0 = names@.len();
                let ghost cv = m.commands@.map_values(|c: CommandDef| c.name@);
                let mut c: usize = 0;
                while c < m.commands.len()
                    invariant
                        c <= m.commands@.len(),
                        names@.len() == n0 + c,
                        cv == m.commands@.map_values(|c: CommandDef| c.name@),
                        names@.map_values(|x: Vec<char>| x@) == base + cv.take(c as int),
                    decreases m.commands.len() - c,
                {
                    let ghost before = names@.map_values(|x: Vec<char>| x@);
                    names.push(chars_of(m.commands[c].name.as_str()));
                    proof {
                        assert(names@.map_values(|x: Vec<char>| x@) == before.push(cv[c as int]));
                        assert(cv.take(c + 1) == cv.take(c as int).push(cv[c as int]));
                    }
                    c = c + 1;
                }
                proof {
                    assert(cv.take(m.commands@.len() as int) == cv);
                }
            } else {
                proof {
                    assert(base + Seq::<Seq<char>>::empty() == base);
                }
            }
            i = i + 1;
        }
        let mut out: Vec<String> = Vec::new();
        if names.len() == 0 {
            out.push(string_of(&text("plugin commands: none discovered")));
            return out;
        }
        let sorted = sort_strings(names);
        let ghost sv = sorted@.map_values(|x: Vec<char>| x@);
        let mut line = text("plugin commands: ");
        let ghost head = line@;
        let mut k: usize = 0;
        let mut first = true;
        assert(sv.take(0) == Seq::<Seq<char>>::empty());
        while k < sorted.len()
            invariant
                k <= sorted@.len(),
                sv == sorted@.map_values(|x: Vec<char>| x@),
                line@ == head + joined(dedup(sv.take(k as int))),
                first <==> dedup(sv.take(k as int)).len() == 0,
            decreases sorted.len() - k,
        {
            let repeat = k > 0 && vec_eq(&sorted[k], &sorted[k - 1]);
            let ghost d = dedup(sv.take(k as int));
            proof {
                let t = sv.take(k + 1);
                assert(t.drop_last() == sv.take(k as int));
                assert(t.last() == sv[k as int]);
                if k > 0 {
                    assert(t[t.len() - 2] == sv[k - 1]);
                }
            }
            if !repeat {
                if !first {
                    line = cat(line, &text(", "));
                }
                line = cat(line, &sorted[k]);
                first = false;
                proof {
                    assert(d.push(sv[k as int]).drop_last() == d);
                    if d.len() == 0 {
                        assert(joined(d) == Seq::<char>::empty());
                    }
                }
            }
            k = k + 1;
        }
        proof {
            assert(sv.take(sorted@.len() as int) == sv);
        }
        out.push(string_of(&line));
        out
    }

    /// Runs a plugin command: it must be declared by exactly one plugin;
    /// the result is one notification line.
    pub fn execute_command(&mut self, command: &String) -> (r: Vec<String>)
        ensures
            r@.len() == 1,
            (forall|i: int| 0 <= i < old(self).runtimes@.len() ==> !declares((#[trigger] old(self).runtimes@[i]).manifest, command@))
                ==> r@[0]@ == "plugin command not found: "@ + command@ && final(self).runtimes@ == old(self).runtimes@,
            (exists|i: int, j: int| 0 <= i < j < old(self).runtimes@.len() && declares((#[trigger] old(self).runtimes@[i]).manifest, command@)
                && declares((#[trigger] old(self).runtimes@[j]).manifest, command@))
                ==> r@[0]@ == "plugin command is ambiguous: "@ + command@ + " (multiple plugins)"@ && final(self).runtimes@ == old(self).runtimes@,
            forall|i: int| 0 <= i < old(self).runtimes@.len() && declares((#[trigger] old(self).runtimes@[i]).manifest, command@)
                && (forall|j: int| 0 <= j < old(self).runtimes@.len() && j != i ==> !declares((#[trigger] old(self).runtimes@[j]).manifest, command@))
                ==> {
                    let rt = old(self).runtimes@[i];
                    &&& final(self).runtimes@.len() == old(self).runtimes@.len()
                    &&& rt.status is Loaded || rt.entry_present ==> r@[0]@ == "plugin "@ + rt.manifest->Some_0.name@ + " handled command: "@ + command@
                        && final(self).runtimes@[i].status is Loaded
                    &&& !(rt.status is Loaded) && !rt.entry_present ==> r@[0]@ == "plugin "@ + display_of(rt) + ": "@ + missing_entry(rt)
                        && final(self).runtimes@[i].status is Error
                },
    {
        let mut found: Option<usize> = None;
        let mut ambiguous = false;
        let mut i: usize = 0;
        while i < self.runtimes.len()
            invariant
                i <= self.runtimes@.len(),
                self.runtimes@ == old(self).runtimes@,
                found is None ==> !ambiguous && forall|k: int| 0 <= k < i ==> !declares((#[trigger] self.runtimes@[k]).manifest, command@),
                found matches Some(f) ==> f < i && declares(self.runtimes@[f as int].manifest, command@),
                !ambiguous && found is Some ==> forall|k: int| 0 <= k < i && k != found->Some_0 ==> !declares((#[trigger] self.runtimes@[k]).manifest, command@),
                ambiguous ==> exists|a: int, b: int| 0 <= a < b < i && declares((#[trigger] self.runtimes@[a]).manifest, command@)
                    && declares((#[trigger] self.runtimes@[b]).manifest, command@),
            decreases self.runtimes.len() - i,
        {
            if self.runtimes[i].supports_command(command) {
                if found.is_some() {
                    proof {
                        let f = found->Some_0 as int;
                        assert(0 <= f < i && declares(self.runtimes@[f].manifest, command@) && declares(self.runtimes@[i as int].manifest, command@));
                    }
                    ambiguous = true;
                } else {
                    found = Some(i);
                }
            }
            i = i + 1;
        }
        let mut out: Vec<String> = Vec::new();
        let cmd = chars_of(command.as_str());
        let idx = match found {
            None => {
                out.push(string_of(&cat(text("plugin command not found: "), &cmd)));
                return out;
            },
            Some(f) => f,
        };
        proof {
            if !ambiguous {
                assert forall|a: int, b: int| 0 <= a < b < self.runtimes@.len() implies !(declares((#[trigger] self.runtimes@[a]).manifest, command@)
                    && declares((#[trigger] self.runtimes@[b]).manifest, command@)) by {
                    if a != idx && b != idx {
                    }
                }
            } else {
                let (a, b) = choose|a: int, b: int| 0 <= a < b < self.runtimes@.len() && declares((#[trigger] self.runtimes@[a]).manifest, command@)
                    && declares((#[trigger] self.runtimes@[b]).manifest, command@);
                assert(a != b);
            }
        }
        if ambiguous {
            out.push(string_of(&cat(cat(text("plugin command is ambiguous: "), &cmd), &text(" (multiple plugins)"))));
            return out;
        }
        let mut rt = self.runtimes.remove(idx);
        let res = rt.execute_command(command);
        let name = chars_of(rt.display_name().as_str());
        self.runtimes.insert(idx, rt);
        match res {
            Ok(Some(message)) => out.push(message),
            Ok(None) => out.push(string_of(&cat(text("plugin command not found: "), &cmd))),
            Err(err) => out.push(string_of(&cat(cat(cat(text("plugin "), &name), &text(": ")), &chars_of(err.as_str())))),
        }
        out
    }
}

/// The plugin command of `plugin <command>`: the text trimmed, and when it
/// is wrapped in matching single or double quotes, the inside with each
/// backslash escape taken literally, then trimmed again.
pub open spec fn unquoted(s: Seq<char>, i: int, escaped: bool) -> Seq<char>
    decreases s.len() - i,
{
    if i < 0 || i >= s.len() {
        if escaped { seq!['\\'] } else { Seq::empty() }
    } else if escaped {
        seq![s[i]] + unquoted(s, i + 1, false)
    } else if s[i] == '\\' {
        unquoted(s, i + 1, true)
    } else {
        seq![s[i]] + unquoted(s, i + 1, false)
    }
}

pub open spec fn plugin_command_of(raw: Seq<char>) -> Seq<char> {
    let t = crate::text::trim(raw);
    if t.len() < 2 || !(t[0] == '"' || t[0] == '\'') || t.last() != t[0] {
        t
    } else {
        crate::text::trim(unquoted(t.subrange(1, t.len() - 1), 0, false))
    }
}

/// Parses the argument of `plugin <command>`, removing quotes.
pub fn parse_plugin_command_input(raw: &Vec<char>) -> (r: Vec<char>)
    ensures
        r@ == plugin_command_of(raw@),
{
    let t = crate::text::trimmed(raw);
    if t.len() < 2 || !(t[0] == '"' || t[0] == '\'') || t[t.len() - 1] != t[0] {
        return t;
    }
    let inner = crate::text::slice_of(&t, 1, t.len() - 1);
    let mut out: Vec<char> = Vec::new();
    let mut escaped = false;
    let mut i: usize = 0;
    while i < inner.len()
        invariant
            i <= inner@.len(),
            out@ + unquoted(inner@, i as int, escaped) == unquoted(inner@, 0, false),
        decreases inner.len() - i,
    {
        let ch = inner[i];
        let ghost before = out@;
        if escaped {
            out.push(ch);
            escaped = false;
            assert(before + unquoted(inner@, i as int, true) == before.push(ch) + unquoted(inner@, i + 1, false));
        } else if ch == '\\' {
            escaped = true;
        } else {
            out.push(ch);
            assert(before + unquoted(inner@, i as int, false) == before.push(ch) + unquoted(inner@, i + 1, false));
        }
        i = i + 1;
    }
    if escaped {
        out.push('\\');
    }
    assert(out@ == unquoted(inner@, 0, false));
    crate::text::trimmed(&out)
}

} // verus!
