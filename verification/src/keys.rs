//! herdr's effective keybindings, for the shortcut column.
//!
//! They are rebuilt from the two documents that define them: the defaults
//! the installed binary prints (`herdr --default-config`, with every
//! assignment commented out) and the user's `config.toml`, whose `[keys]`
//! entries win. A key claimed by a `[[keys.command]]` block shadows the
//! built-in that shipped on it, so such bindings render as unbound.
use vstd::prelude::*;

use crate::config::{cleaned_lines, lines_of, parse_toml, toml_get, toml_lookup, toml_parse, TomlValue};
use crate::text::{chars_of, decimal, owned, replace_all};

verus! {

broadcast use vstd::string::group_string_axioms;

/// A binding and the name it is stored under, as views.
pub type Entry = (Seq<char>, Seq<char>);

/// The name → binding map an entry log stands for: later entries win.
pub open spec fn bindings(entries: Seq<Entry>) -> Map<Seq<char>, Seq<char>>
    decreases entries.len(),
{
    if entries.len() == 0 {
        Map::empty()
    } else {
        bindings(entries.drop_last()).insert(entries.last().0, entries.last().1)
    }
}

/// The entries of a stored log, as views.
pub open spec fn entry_views(v: Seq<(String, String)>) -> Seq<Entry> {
    v.map_values(|e: (String, String)| (e.0@, e.1@))
}

/// The shortcut a binding renders to, or the empty sequence when it does not
/// fire: unknown or unbound names, indexed bindings with no index to fill,
/// and bindings shadowed by a `[[keys.command]]` block.
pub open spec fn spec_shortcut(
    map: Map<Seq<char>, Seq<char>>,
    shadow: Seq<Seq<char>>,
    prefix: Seq<char>,
    name: Seq<char>,
    index: Option<u8>,
) -> Seq<char> {
    if name.len() == 0 || !map.dom().contains(name) || map[name].len() == 0 {
        Seq::empty()
    } else {
        let b = match index {
            Some(i) => replace_all(map[name], "1..9"@, decimal(i as nat)),
            None => map[name],
        };
        if "1..9"@.is_suffix_of(b) || shadow.contains(b) {
            Seq::empty()
        } else if "prefix+"@.is_prefix_of(b) {
            prefix + " "@ + b.skip("prefix+"@.len() as int)
        } else {
            b
        }
    }
}

/// The string members of a table, as (name, value) entries; an empty value
/// is an explicit "unbound".
pub open spec fn string_members(es: Seq<(String, TomlValue)>) -> Seq<Entry>
    decreases es.len(),
{
    if es.len() == 0 {
        Seq::empty()
    } else {
        let rest = string_members(es.drop_last());
        match es.last().1 {
            TomlValue::Str(s) => rest.push((es.last().0@, s@)),
            _ => rest,
        }
    }
}

/// The `[keys]` table of a parsed document.
pub open spec fn keys_table(doc: Option<Vec<(String, TomlValue)>>) -> Option<Seq<(String, TomlValue)>> {
    match doc {
        Some(t) => match toml_lookup(t@, "keys"@) {
            Some(TomlValue::Table(kt)) => Some(kt@),
            _ => None,
        },
        None => None,
    }
}

/// The bindings a configuration text assigns under `[keys]`.
pub open spec fn key_assignments(text: Seq<char>, uncomment: bool) -> Seq<Entry> {
    match keys_table(toml_parse(cleaned_lines(lines_of(text), uncomment))) {
        Some(kt) => string_members(kt),
        None => Seq::empty(),
    }
}

/// The `key` of each `[[keys.command]]` block that has a string one.
pub open spec fn command_keys(cmds: Seq<TomlValue>) -> Seq<Seq<char>>
    decreases cmds.len(),
{
    if cmds.len() == 0 {
        Seq::empty()
    } else {
        let rest = command_keys(cmds.drop_last());
        match cmds.last() {
            TomlValue::Table(ct) => match toml_lookup(ct@, "key"@) {
                Some(TomlValue::Str(k)) => rest.push(k@),
                _ => rest,
            },
            _ => rest,
        }
    }
}

/// The keys claimed by `[[keys.command]]` blocks of a configuration text.
pub open spec fn shadow_keys(text: Seq<char>) -> Seq<Seq<char>> {
    match keys_table(toml_parse(text)) {
        Some(kt) => match toml_lookup(kt, "command"@) {
            Some(TomlValue::Array(cmds)) => command_keys(cmds@),
            _ => Seq::empty(),
        },
        None => Seq::empty(),
    }
}

/// The prefix key: the last non-empty `prefix` assignment, else `ctrl+b`
/// (an empty `prefix` leaves the prefix as it was).
pub open spec fn spec_prefix(entries: Seq<Entry>) -> Seq<char>
    decreases entries.len(),
{
    if entries.len() == 0 {
        "ctrl+b"@
    } else if entries.last().0 == "prefix"@ && entries.last().1.len() > 0 {
        entries.last().1
    } else {
        spec_prefix(entries.drop_last())
    }
}

/// The prefix key of an assignment log.
fn prefix_of(map: &Vec<(String, String)>) -> (r: String)
    ensures
        r@ == spec_prefix(entry_views(map@)),
{
    let ghost v = entry_views(map@);
    let mut j: usize = map.len();
    assert(v.take(j as int) =~= v);
    while j > 0
        invariant
            j <= map.len(),
            v == entry_views(map@),
            spec_prefix(v) == spec_prefix(v.take(j as int)),
        decreases j,
    {
        assert(v.take(j as int).drop_last() =~= v.take(j - 1));
        assert(v.take(j as int).last() == v[j - 1]);
        if crate::text::str_eq(map[j - 1].0.as_str(), "prefix") && !map[j - 1].1.as_str().is_empty() {
            return map[j - 1].1.clone();
        }
        j = j - 1;
    }
    proof {
        reveal_strlit("ctrl+b");
    }
    owned("ctrl+b")
}

/// herdr's effective keybindings.
pub struct Keys {
    /// name -> binding assignments, in the order they were read; the last
    /// assignment of a name wins.
    map: Vec<(String, String)>,
    /// the prefix key, e.g. "ctrl+b".
    pub prefix: String,
    /// bindings claimed by [[keys.command]] blocks (shadowed).
    shadow: Vec<String>,
}

proof fn lemma_bindings_last(v: Seq<Entry>, name: Seq<char>, j: int)
    requires
        0 <= j < v.len(),
        v[j].0 == name,
        forall|k: int| j < k < v.len() ==> v[k].0 != name,
    ensures
        bindings(v).dom().contains(name),
        bindings(v)[name] == v[j].1,
    decreases v.len(),
{
    if j < v.len() - 1 {
        lemma_bindings_last(v.drop_last(), name, j);
    }
}

proof fn lemma_bindings_absent(v: Seq<Entry>, name: Seq<char>)
    requires
        forall|k: int| 0 <= k < v.len() ==> v[k].0 != name,
    ensures
        !bindings(v).dom().contains(name),
    decreases v.len(),
{
    if v.len() > 0 {
        lemma_bindings_absent(v.drop_last(), name);
    }
}

impl Keys {
    /// The name → binding map.
    pub closed spec fn binding_map(self) -> Map<Seq<char>, Seq<char>> {
        bindings(entry_views(self.map@))
    }

    /// The bindings claimed by `[[keys.command]]` blocks.
    pub closed spec fn shadowed(self) -> Seq<Seq<char>> {
        self.shadow@.map_values(|s: String| s@)
    }

    /// The prefix key.
    pub closed spec fn prefix_key(self) -> Seq<char> {
        self.prefix@
    }

    /// The assignments read so far, in order.
    pub closed spec fn assignments(self) -> Seq<Entry> {
        entry_views(self.map@)
    }

    /// The binding map is the one the assignments stand for.
    pub proof fn lemma_binding_map(self)
        ensures
            self.binding_map() == bindings(self.assignments()),
    {
    }

    /// Keys built from explicit assignments (later ones win) and shadowed
    /// bindings; the prefix is the last non-empty `prefix` assignment, else
    /// `ctrl+b`.
    pub fn new(map: Vec<(String, String)>, shadow: Vec<String>) -> (k: Keys)
        ensures
            k.assignments() == entry_views(map@),
            k.binding_map() == bindings(entry_views(map@)),
            k.shadowed() == shadow@.map_values(|s: String| s@),
            k.prefix_key() == spec_prefix(entry_views(map@)),
    {
        let prefix = prefix_of(&map);
        Keys { map, prefix, shadow }
    }

    /// The binding stored under `name`.
    fn binding(&self, name: &str) -> (r: Option<&String>)
        ensures
            r matches Some(b) ==> self.binding_map().dom().contains(name@) && self.binding_map()[name@] == b@,
            r is None ==> !self.binding_map().dom().contains(name@),
    {
        let ghost v = entry_views(self.map@);
        let mut j: usize = self.map.len();
        while j > 0
            invariant
                j <= self.map.len(),
                v == entry_views(self.map@),
                forall|k: int| j <= k < v.len() ==> v[k].0 != name@,
            decreases j,
        {
            if crate::text::str_eq(self.map[j - 1].0.as_str(), name) {
                proof {
                    lemma_bindings_last(v, name@, j - 1);
                }
                return Some(&self.map[j - 1].1);
            }
            j = j - 1;
        }
        proof {
            lemma_bindings_absent(v, name@);
        }
        None
    }

    /// Whether a `[[keys.command]]` block claims `binding`.
    pub fn is_shadowed(&self, binding: &str) -> (r: bool)
        ensures
            r == self.shadowed().contains(binding@),
    {
        let mut i: usize = 0;
        while i < self.shadow.len()
            invariant
                i <= self.shadow.len(),
                forall|k: int| 0 <= k < i ==> self.shadowed()[k] != binding@,
            decreases self.shadow.len() - i,
        {
            if crate::text::str_eq(self.shadow[i].as_str(), binding) {
                assert(self.shadowed()[i as int] == binding@);
                return true;
            }
            i = i + 1;
        }
        false
    }

    /// Render a binding to the keystrokes the user actually types. `index`
    /// fills in "…1..9" indexed bindings (switch_tab etc.).
    pub fn shortcut(&self, name: &str, index: Option<u8>) -> (r: String)
        ensures
            r@ == spec_shortcut(self.binding_map(), self.shadowed(), self.prefix_key(), name@, index),
    {
        if name.is_empty() {
            return String::new();
        }
        let binding = match self.binding(name) {
            Some(b) => b,
            None => return String::new(),
        };
        if binding.as_str().is_empty() {
            return String::new();
        }
        let bv = chars_of(binding.as_str());
        let b: Vec<char> = match index {
            Some(i) => {
                let mut digits = String::new();
                crate::text::push_decimal(&mut digits, i as u64);
                let dv = chars_of(digits.as_str());
                let from = chars_of("1..9");
                crate::text::replace_chars(&bv, &from, &dv)
            },
            None => bv,
        };
        let marker = chars_of("1..9");
        if crate::text::has_suffix(&b, &marker) {
            return String::new();
        }
        let bs = crate::text::string_of(&b);
        if self.is_shadowed(bs.as_str()) {
            return String::new();
        }
        let p = chars_of("prefix+");
        if crate::text::has_prefix(&b, &p) {
            let mut out = self.prefix.clone();
            out.append(" ");
            let suffix = crate::text::string_of_range(&b, p.len(), b.len());
            out.append(suffix.as_str());
            assert(suffix@ =~= b@.skip("prefix+"@.len() as int));
            out
        } else {
            bs
        }
    }

    /// Read the `[keys]` assignments of a configuration text into the map;
    /// with `uncomment`, a leading `#` on each line is dropped first (the
    /// defaults ship commented). String values are read; an explicit `""`
    /// unbinds the name.
    pub fn collect_keys(&mut self, text: &str, uncomment: bool)
        ensures
            final(self).assignments() == old(self).assignments() + key_assignments(text@, uncomment),
            final(self).prefix_key() == old(self).prefix_key(),
            final(self).shadowed() == old(self).shadowed(),
    {
        let cleaned = crate::config::clean_text(text, uncomment);
        let doc = parse_toml(cleaned.as_str());
        if let Some(table) = &doc {
            if let Some(TomlValue::Table(kt)) = toml_get(table, "keys") {
                self.push_string_members(kt);
            }
        }
    }

    /// Append the string members of a table.
    fn push_string_members(&mut self, kt: &Vec<(String, TomlValue)>)
        ensures
            final(self).assignments() == old(self).assignments() + string_members(kt@),
            final(self).prefix_key() == old(self).prefix_key(),
            final(self).shadowed() == old(self).shadowed(),
    {
        let mut i: usize = 0;
        while i < kt.len()
            invariant
                i <= kt.len(),
                self.assignments() == old(self).assignments() + string_members(kt@.take(i as int)),
                self.prefix_key() == old(self).prefix_key(),
                self.shadowed() == old(self).shadowed(),
            decreases kt.len() - i,
        {
            let ghost before = self.assignments();
            assert(kt@.take(i + 1).drop_last() =~= kt@.take(i as int));
            match &kt[i].1 {
                TomlValue::Str(s) => {
                    self.map.push((kt[i].0.clone(), s.clone()));
                    assert(self.assignments() =~= before.push((kt@[i as int].0@, s@)));
                },
                _ => {},
            }
            i = i + 1;
        }
        assert(kt@.take(kt@.len() as int) =~= kt@);
    }

    /// Record the keys claimed by the `[[keys.command]]` blocks of a
    /// configuration text as shadowed.
    pub fn collect_shadow(&mut self, text: &str)
        ensures
            final(self).shadowed() == shadow_keys(text@),
            final(self).prefix_key() == old(self).prefix_key(),
            final(self).assignments() == old(self).assignments(),
    {
        self.shadow = collect_shadow(text);
    }
}

/// The `key` values of every `[[keys.command]]` block of a configuration text.
pub fn collect_shadow(text: &str) -> (r: Vec<String>)
    ensures
        r@.map_values(|s: String| s@) == shadow_keys(text@),
{
    let mut out: Vec<String> = Vec::new();
    let doc = parse_toml(text);
    if let Some(table) = &doc {
        if let Some(TomlValue::Table(kt)) = toml_get(table, "keys") {
            if let Some(TomlValue::Array(cmds)) = toml_get(kt, "command") {
                let mut i: usize = 0;
                while i < cmds.len()
                    invariant
                        i <= cmds.len(),
                        out@.map_values(|s: String| s@) == command_keys(cmds@.take(i as int)),
                    decreases cmds.len() - i,
                {
                    let ghost before = out@.map_values(|s: String| s@);
                    assert(cmds@.take(i + 1).drop_last() =~= cmds@.take(i as int));
                    if let TomlValue::Table(ct) = &cmds[i] {
                        if let Some(TomlValue::Str(k)) = toml_get(ct, "key") {
                            out.push(k.clone());
                            assert(out@.map_values(|s: String| s@) =~= before.push(k@));
                        }
                    }
                    i = i + 1;
                }
                assert(cmds@.take(cmds@.len() as int) =~= cmds@);
                return out;
            }
        }
    }
    assert(out@.map_values(|s: String| s@) =~= Seq::<Seq<char>>::empty());
    out
}

/// The effective keybindings from the default configuration the binary
/// prints (commented) and the user's configuration, either of which may be
/// missing: defaults first, the user's assignments win, the user's
/// `[[keys.command]]` keys are shadowed, and the prefix is resolved last.
pub fn from_configs(default_config: Option<&str>, user_config: Option<&str>) -> (k: Keys)
    ensures
        k.assignments() == (match default_config {
            Some(d) => key_assignments(d@, true),
            None => Seq::empty(),
        }) + (match user_config {
            Some(u) => key_assignments(u@, false),
            None => Seq::empty(),
        }),
        k.shadowed() == (match user_config {
            Some(u) => shadow_keys(u@),
            None => Seq::empty(),
        }),
        k.prefix_key() == spec_prefix(k.assignments()),
{
    let mut k = Keys { map: Vec::new(), prefix: String::new(), shadow: Vec::new() };
    assert(k.assignments() =~= Seq::<Entry>::empty());
    assert(k.shadowed() =~= Seq::<Seq<char>>::empty());
    if let Some(d) = default_config {
        k.collect_keys(d, true);
    }
    let ghost after_defaults = k.assignments();
    if let Some(u) = user_config {
        k.collect_keys(u, false);
        k.collect_shadow(u);
    }
    assert(k.assignments() =~= after_defaults + (match user_config {
        Some(u) => key_assignments(u@, false),
        None => Seq::<Entry>::empty(),
    }));
    k.prefix = prefix_of(&k.map);
    k
}


// ---------------------------------------------------------------------------
// Laws
// ---------------------------------------------------------------------------
/// Assignments read later win: the bindings of two logs read one after the
/// other are those of the first, overridden by those of the second. So the
/// user's `[keys]` entries win over the defaults.
pub proof fn law_later_assignments_win(first: Seq<Entry>, second: Seq<Entry>)
    ensures
        bindings(first + second) == bindings(first).union_prefer_right(bindings(second)),
    decreases second.len(),
{
    if second.len() == 0 {
        assert(first + second =~= first);
        assert(bindings(first).union_prefer_right(Map::empty()) =~= bindings(first));
    } else {
        law_later_assignments_win(first, second.drop_last());
        assert((first + second).drop_last() =~= first + second.drop_last());
        assert(bindings(first + second) =~= bindings(first).union_prefer_right(bindings(second)));
    }
}

/// A binding claimed by a `[[keys.command]]` block renders as no shortcut.
pub proof fn law_shadowed_binding_renders_empty(k: Keys, name: Seq<char>)
    requires
        k.binding_map().dom().contains(name),
        k.shadowed().contains(k.binding_map()[name]),
    ensures
        spec_shortcut(k.binding_map(), k.shadowed(), k.prefix_key(), name, None) == Seq::<char>::empty(),
{
}

/// An explicit `""` for a name in the user's configuration leaves the name
/// unbound (no shortcut), whatever the defaults bind it to.
pub proof fn law_user_empty_binding_unbinds(
    defaults: Seq<Entry>,
    user: Seq<Entry>,
    shadow: Seq<Seq<char>>,
    prefix: Seq<char>,
    name: Seq<char>,
    index: Option<u8>,
)
    requires
        bindings(user).dom().contains(name),
        bindings(user)[name].len() == 0,
    ensures
        spec_shortcut(bindings(defaults + user), shadow, prefix, name, index) == Seq::<char>::empty(),
{
    law_later_assignments_win(defaults, user);
}

/// The prefix key is the prefix binding that is in force: when the
/// assignments leave `prefix` bound to a non-empty key (the last assignment
/// of `prefix` wins, so the user's over the defaults), that key is the
/// prefix; it is never empty.
pub proof fn law_prefix_is_the_binding_in_force(entries: Seq<Entry>)
    ensures
        bindings(entries).dom().contains("prefix"@) && bindings(entries)["prefix"@].len() > 0
            ==> spec_prefix(entries) == bindings(entries)["prefix"@],
        spec_prefix(entries).len() > 0,
    decreases entries.len(),
{
    reveal_strlit("ctrl+b");
    if entries.len() > 0 {
        law_prefix_is_the_binding_in_force(entries.drop_last());
    }
}

/// The user's non-empty `prefix` wins over the defaults' prefix.
pub proof fn law_user_prefix_wins(defaults: Seq<Entry>, user: Seq<Entry>)
    ensures
        bindings(user).dom().contains("prefix"@) && bindings(user)["prefix"@].len() > 0
            ==> spec_prefix(defaults + user) == bindings(user)["prefix"@],
{
    law_later_assignments_win(defaults, user);
    law_prefix_is_the_binding_in_force(defaults + user);
}

} // verus!
