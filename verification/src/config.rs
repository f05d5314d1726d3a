//! Stored API keys, the order in which a key is looked for, and what the
//! `config` command shows and says.

use vstd::prelude::*;
use crate::cli::{lemma_provider_name_injective, provider_name, ConfigAction, Provider};
use crate::strmap::StrMap;
use crate::text::{byte_len, byte_prefix, byte_suffix, on_boundary, skip_bytes, str_byte_len, take_bytes};

verus! {

/// The stored configuration: API keys by provider name.
pub struct Config {
    pub api_keys: StrMap<String>,
}

/// The key stored for a provider in a table of keys.
pub open spec fn stored_key(keys: Map<Seq<char>, Seq<char>>, p: Provider) -> Option<Seq<char>> {
    if keys.contains_key(provider_name(p)) {
        Some(keys[provider_name(p)])
    } else {
        None
    }
}

impl Default for Config {
    fn default() -> (c: Self)
        ensures
            c.api_keys.contents() == Map::<Seq<char>, Seq<char>>::empty(),
            c.api_keys.pairs().len() == 0,
    {
        Config { api_keys: StrMap::new() }
    }
}

impl Config {
    /// The key stored for `provider`.
    pub fn get_api_key(&self, provider: Provider) -> (r: Option<&String>)
        ensures
            match r {
                Some(k) => stored_key(self.api_keys.contents(), provider) == Some(k@),
                None => stored_key(self.api_keys.contents(), provider) is None,
            },
    {
        self.api_keys.get(provider.name())
    }

    /// Stores `key` for `provider`, replacing any earlier key.
    pub fn set_api_key(&mut self, provider: Provider, key: String)
        ensures
            final(self).api_keys.contents() == old(self).api_keys.contents().insert(
                provider_name(provider),
                key@,
            ),
    {
        let name = provider.to_string();
        self.api_keys.insert(name, key);
    }

    /// Removes the key stored for `provider`.
    pub fn clear_api_key(&mut self, provider: Provider)
        ensures
            final(self).api_keys.contents() == old(self).api_keys.contents().remove(
                provider_name(provider),
            ),
    {
        self.api_keys.remove(provider.name());
    }

    /// Removes every stored key.
    pub fn clear_all(&mut self)
        ensures
            final(self).api_keys.contents() == Map::<Seq<char>, Seq<char>>::empty(),
    {
        self.api_keys.clear();
    }
}

/// A key read back for a provider is the one last stored for it; storing a
/// key for one provider leaves the others' keys as they were.
pub proof fn law_get_after_set(
    keys: Map<Seq<char>, Seq<char>>,
    set_for: Provider,
    key: Seq<char>,
    read_for: Provider,
)
    ensures
        stored_key(keys.insert(provider_name(set_for), key), read_for) == (if set_for == read_for {
            Some(key)
        } else {
            stored_key(keys, read_for)
        }),
{
    lemma_provider_name_injective(set_for, read_for);
}

/// After a provider's key is cleared none is read back for it; the other
/// providers keep theirs.
pub proof fn law_get_after_clear(keys: Map<Seq<char>, Seq<char>>, cleared: Provider, read_for: Provider)
    ensures
        stored_key(keys.remove(provider_name(cleared)), read_for) == (if cleared == read_for {
            None
        } else {
            stored_key(keys, read_for)
        }),
{
    lemma_provider_name_injective(cleared, read_for);
}

/// A change to the stored keys, as `set_api_key` and `clear_api_key` make it.
pub enum KeyChange {
    /// A key stored for a provider.
    Store(Provider, Seq<char>),
    /// A provider's key removed.
    Remove(Provider),
}

/// The provider that a change is about.
pub open spec fn changed_provider(c: KeyChange) -> Provider {
    match c {
        KeyChange::Store(p, _) => p,
        KeyChange::Remove(p) => p,
    }
}

/// The stored keys after one change: what the `ensures` of `set_api_key`
/// and `clear_api_key` say.
pub open spec fn after_change(keys: Map<Seq<char>, Seq<char>>, c: KeyChange) -> Map<Seq<char>, Seq<char>> {
    match c {
        KeyChange::Store(p, k) => keys.insert(provider_name(p), k),
        KeyChange::Remove(p) => keys.remove(provider_name(p)),
    }
}

/// The stored keys after a sequence of changes, made in order.
pub open spec fn after_changes(keys: Map<Seq<char>, Seq<char>>, cs: Seq<KeyChange>) -> Map<
    Seq<char>,
    Seq<char>,
>
    decreases cs.len(),
{
    if cs.len() == 0 {
        keys
    } else {
        after_change(after_changes(keys, cs.drop_last()), cs.last())
    }
}

/// A key stored for a provider is read back for it after any sequence of
/// later sets and clears for other providers.
pub proof fn law_key_survives_other_changes(
    keys: Map<Seq<char>, Seq<char>>,
    p: Provider,
    key: Seq<char>,
    later: Seq<KeyChange>,
)
    requires
        forall|i: int| 0 <= i < later.len() ==> changed_provider(#[trigger] later[i]) != p,
    ensures
        stored_key(after_changes(keys.insert(provider_name(p), key), later), p) == Some(key),
    decreases later.len(),
{
    let start = keys.insert(provider_name(p), key);
    if later.len() == 0 {
        law_get_after_set(keys, p, key, p);
    } else {
        let rest = later.drop_last();
        assert forall|i: int| 0 <= i < rest.len() implies changed_provider(#[trigger] rest[i]) != p by {
            assert(rest[i] == later[i]);
        }
        law_key_survives_other_changes(keys, p, key, rest);
        let mid = after_changes(start, rest);
        let c = later.last();
        assert(changed_provider(later[later.len() - 1]) != p);
        match c {
            KeyChange::Store(q, k) => law_get_after_set(mid, q, k, p),
            KeyChange::Remove(q) => law_get_after_clear(mid, q, p),
        }
    }
}

/// Storing two keys for the same provider leaves only the second.
pub proof fn law_last_set_wins(keys: Map<Seq<char>, Seq<char>>, p: Provider, first: Seq<char>, second: Seq<char>)
    ensures
        keys.insert(provider_name(p), first).insert(provider_name(p), second) == keys.insert(
            provider_name(p),
            second,
        ),
{
    assert(keys.insert(provider_name(p), first).insert(provider_name(p), second) =~= keys.insert(
        provider_name(p),
        second,
    ));
}

/// The API keys found in the environment.
pub struct EnvKeys {
    /// `REPLICATE_API_TOKEN`
    pub replicate_api_token: Option<String>,
    /// `FAL_KEY`
    pub fal_key: Option<String>,
    /// `FAL_API_KEY`
    pub fal_api_key: Option<String>,
    /// `WAVESPEED_API_KEY`
    pub wavespeed_api_key: Option<String>,
}

/// The view of an optional string.
pub open spec fn opt_view(o: Option<String>) -> Option<Seq<char>> {
    match o {
        Some(s) => Some(s@),
        None => None,
    }
}

/// The environment's key for a provider; for Fal `FAL_KEY` comes before `FAL_API_KEY`.
pub open spec fn env_key(p: Provider, env: EnvKeys) -> Option<Seq<char>> {
    match p {
        Provider::Replicate => opt_view(env.replicate_api_token),
        Provider::Fal => if env.fal_key is Some {
            opt_view(env.fal_key)
        } else {
            opt_view(env.fal_api_key)
        },
        Provider::WaveSpeed => opt_view(env.wavespeed_api_key),
    }
}

/// The environment variable named in the message about a missing key.
pub open spec fn env_var_name(p: Provider) -> Seq<char> {
    match p {
        Provider::Replicate => "REPLICATE_API_TOKEN"@,
        Provider::Fal => "FAL_KEY"@,
        Provider::WaveSpeed => "WAVESPEED_API_KEY"@,
    }
}

fn env_var_str(p: Provider) -> (s: &'static str)
    ensures
        s@ == env_var_name(p),
{
    match p {
        Provider::Replicate => "REPLICATE_API_TOKEN",
        Provider::Fal => "FAL_KEY",
        Provider::WaveSpeed => "WAVESPEED_API_KEY",
    }
}

/// What is said when no key is found for a provider.
pub open spec fn missing_key_message(p: Provider) -> Seq<char> {
    "No API key found for "@ + provider_name(p) + ". Set "@ + env_var_name(p)
        + " or run `codex-rs config set "@ + provider_name(p) + " <key>`"@
}

/// The key to use for a provider: the environment's first, else the stored one.
pub open spec fn resolved_key(p: Provider, env: EnvKeys, keys: Map<Seq<char>, Seq<char>>) -> Result<
    Seq<char>,
    Seq<char>,
> {
    match env_key(p, env) {
        Some(k) => Ok(k),
        None => match stored_key(keys, p) {
            Some(k) => Ok(k),
            None => Err(missing_key_message(p)),
        },
    }
}

/// The view of a result of strings.
pub open spec fn result_view(r: Result<String, String>) -> Result<Seq<char>, Seq<char>> {
    match r {
        Ok(s) => Ok(s@),
        Err(e) => Err(e@),
    }
}

/// Copies an optional string.
pub fn clone_opt_string(o: &Option<String>) -> (r: Option<String>)
    ensures
        opt_view(r) == opt_view(*o),
{
    match o {
        Some(s) => Some(s.clone()),
        None => None,
    }
}

/// The API key for `provider`: the environment's key if it is set, else
/// the stored one; else an error that says how to set one.
pub fn get_api_key_for_provider(provider: Provider, env: &EnvKeys, config: &Config) -> (r: Result<
    String,
    String,
>)
    ensures
        result_view(r) == resolved_key(provider, *env, config.api_keys.contents()),
{
    let from_env = match provider {
        Provider::Replicate => clone_opt_string(&env.replicate_api_token),
        Provider::Fal => match &env.fal_key {
            Some(k) => Some(k.clone()),
            None => clone_opt_string(&env.fal_api_key),
        },
        Provider::WaveSpeed => clone_opt_string(&env.wavespeed_api_key),
    };
    match from_env {
        Some(k) => Ok(k),
        None => match config.get_api_key(provider) {
            Some(k) => Ok(k.clone()),
            None => {
                let mut m = "No API key found for ".to_owned();
                m.append(provider.name());
                m.append(". Set ");
                m.append(env_var_str(provider));
                m.append(" or run `codex-rs config set ");
                m.append(provider.name());
                m.append(" <key>`");
                Err(m)
            },
        },
    }
}

/// Whether a key is long enough to be shown partly.
pub open spec fn maskable(key: Seq<char>) -> bool {
    byte_len(key) > 8
}

/// Whether the cuts that masking makes fall on character boundaries.
pub open spec fn mask_cuts_ok(key: Seq<char>) -> bool {
    maskable(key) ==> on_boundary(key, 4) && on_boundary(key, byte_len(key) - 4)
}

/// A key as `config show` displays it: its first and last four bytes around
/// an ellipsis, or four stars for a key of eight bytes or less.
pub open spec fn masked(key: Seq<char>) -> Seq<char> {
    if maskable(key) {
        byte_prefix(key, 4) + "..."@ + byte_suffix(key, byte_len(key) - 4)
    } else {
        "****"@
    }
}

/// Masks a key for display.
pub fn mask_key(key: &str) -> (m: String)
    requires
        mask_cuts_ok(key@),
    ensures
        m@ == masked(key@),
{
    let n = str_byte_len(key);
    if n > 8 {
        let mut m = take_bytes(key, 4);
        m.append("...");
        let tail = skip_bytes(key, n - 4);
        m.append(tail.as_str());
        m
    } else {
        "****".to_owned()
    }
}

/// Whether every stored key can be masked.
pub open spec fn all_maskable(pairs: Seq<(Seq<char>, Seq<char>)>) -> bool {
    forall|i: int| 0 <= i < pairs.len() ==> mask_cuts_ok(#[trigger] pairs[i].1)
}

/// The "set"/"not set" word for an environment variable.
pub open spec fn set_word(is_set: bool) -> Seq<char> {
    if is_set {
        "set"@
    } else {
        "not set"@
    }
}

/// The lines of the stored keys, masked, in stored order.
pub open spec fn key_lines(pairs: Seq<(Seq<char>, Seq<char>)>) -> Seq<Seq<char>> {
    Seq::new(pairs.len(), |i: int| "  "@ + pairs[i].0 + ": "@ + masked(pairs[i].1))
}

/// What `config show` prints, line by line.
pub open spec fn show_lines(path: Seq<char>, pairs: Seq<(Seq<char>, Seq<char>)>, env: EnvKeys) -> Seq<
    Seq<char>,
> {
    seq!["Config file: "@ + path, Seq::<char>::empty()] + (if pairs.len() == 0 {
        seq!["No API keys configured."@]
    } else {
        seq!["Configured API keys:"@] + key_lines(pairs)
    }) + seq![
        Seq::<char>::empty(),
        "Environment variables (if set, take precedence):"@,
        "  REPLICATE_API_TOKEN: "@ + set_word(env.replicate_api_token is Some),
        "  FAL_KEY: "@ + set_word(env.fal_key is Some || env.fal_api_key is Some),
        "  WAVESPEED_API_KEY: "@ + set_word(env.wavespeed_api_key is Some),
    ]
}

/// The view of a list of strings.
pub open spec fn lines_view(v: Seq<String>) -> Seq<Seq<char>> {
    Seq::new(v.len(), |i: int| v[i]@)
}

/// Appends one line.
pub fn push_line(lines: &mut Vec<String>, line: String)
    ensures
        lines_view(final(lines)@) == lines_view(old(lines)@).push(line@),
{
    lines.push(line);
    assert(lines_view(lines@) =~= lines_view(old(lines)@).push(line@));
}

fn set_word_str(is_set: bool) -> (s: &'static str)
    ensures
        s@ == set_word(is_set),
{
    if is_set {
        "set"
    } else {
        "not set"
    }
}

/// The lines that `config show` prints for the configuration file at `path`.
pub fn config_show_lines(config: &Config, path: &str, env: &EnvKeys) -> (lines: Vec<String>)
    requires
        all_maskable(config.api_keys.pairs()),
    ensures
        lines_view(lines@) == show_lines(path@, config.api_keys.pairs(), *env),
{
    let ghost pairs = config.api_keys.pairs();
    let mut lines: Vec<String> = Vec::new();
    let mut first = "Config file: ".to_owned();
    first.append(path);
    push_line(&mut lines, first);
    push_line(&mut lines, String::new());
    let ghost head = seq!["Config file: "@ + path@, Seq::<char>::empty()];
    assert(lines_view(lines@) =~= head);
    let entries = config.api_keys.entries();
    if entries.len() == 0 {
        push_line(&mut lines, "No API keys configured.".to_owned());
    } else {
        push_line(&mut lines, "Configured API keys:".to_owned());
        let mut i: usize = 0;
        while i < entries.len()
            invariant
                i <= entries@.len(),
                entries@.len() == pairs.len(),
                pairs == config.api_keys.pairs(),
                all_maskable(pairs),
                forall|j: int|
                    0 <= j < entries@.len() ==> (#[trigger] entries@[j]).0@ == pairs[j].0
                        && entries@[j].1@ == pairs[j].1,
                lines_view(lines@) =~= head + seq!["Configured API keys:"@] + key_lines(
                    pairs.take(i as int),
                ),
            decreases entries@.len() - i,
        {
            let (name, key) = &entries[i];
            assert(mask_cuts_ok(pairs[i as int].1));
            let mut line = "  ".to_owned();
            line.append(name.as_str());
            line.append(": ");
            let m = mask_key(key.as_str());
            line.append(m.as_str());
            push_line(&mut lines, line);
            i = i + 1;
            assert(key_lines(pairs.take(i as int)) =~= key_lines(pairs.take(i - 1)).push(
                "  "@ + pairs[i - 1].0 + ": "@ + masked(pairs[i - 1].1),
            ));
        }
        assert(pairs.take(pairs.len() as int) =~= pairs);
    }
    push_line(&mut lines, String::new());
    push_line(&mut lines, "Environment variables (if set, take precedence):".to_owned());
    let mut l1 = "  REPLICATE_API_TOKEN: ".to_owned();
    l1.append(set_word_str(env.replicate_api_token.is_some()));
    push_line(&mut lines, l1);
    let mut l2 = "  FAL_KEY: ".to_owned();
    l2.append(set_word_str(env.fal_key.is_some() || env.fal_api_key.is_some()));
    push_line(&mut lines, l2);
    let mut l3 = "  WAVESPEED_API_KEY: ".to_owned();
    l3.append(set_word_str(env.wavespeed_api_key.is_some()));
    push_line(&mut lines, l3);
    assert(lines_view(lines@) =~= show_lines(path@, pairs, *env));
    lines
}

/// What is said after a `config set` or `config clear`.
pub open spec fn change_message(action: ConfigAction) -> Seq<char> {
    match action {
        ConfigAction::SetKey { provider, key } => "API key for "@ + provider_name(provider)
            + " saved successfully."@,
        ConfigAction::Clear { provider: Some(p) } => "API key for "@ + provider_name(p) + " cleared."@,
        _ => "All API keys cleared."@,
    }
}

/// What a `config set` or `config clear` makes of the stored keys.
pub open spec fn changed_keys(keys: Map<Seq<char>, Seq<char>>, action: ConfigAction) -> Map<
    Seq<char>,
    Seq<char>,
> {
    match action {
        ConfigAction::SetKey { provider, key } => keys.insert(provider_name(provider), key@),
        ConfigAction::Clear { provider: Some(p) } => keys.remove(provider_name(p)),
        ConfigAction::Clear { provider: None } => Map::empty(),
        ConfigAction::Show => keys,
    }
}

/// Applies a `config set` or `config clear` to the configuration and returns
/// the message to print.
pub fn apply_config_change(config: &mut Config, action: ConfigAction) -> (message: String)
    requires
        !(action is Show),
    ensures
        final(config).api_keys.contents() == changed_keys(old(config).api_keys.contents(), action),
        message@ == change_message(action),
{
    match action {
        ConfigAction::SetKey { provider, key } => {
            config.set_api_key(provider, key);
            let mut m = "API key for ".to_owned();
            m.append(provider.name());
            m.append(" saved successfully.");
            m
        },
        ConfigAction::Clear { provider: Some(p) } => {
            config.clear_api_key(p);
            let mut m = "API key for ".to_owned();
            m.append(p.name());
            m.append(" cleared.");
            m
        },
        ConfigAction::Clear { provider: None } => {
            config.clear_all();
            "All API keys cleared.".to_owned()
        },
        ConfigAction::Show => "".to_owned(),
    }
}

/// A key in the environment is used whatever the stored keys are; the
/// stored key is used only when the environment has none.
pub proof fn law_environment_first(
    p: Provider,
    env: EnvKeys,
    keys_a: Map<Seq<char>, Seq<char>>,
    keys_b: Map<Seq<char>, Seq<char>>,
)
    ensures
        env_key(p, env) is Some ==> resolved_key(p, env, keys_a) == resolved_key(p, env, keys_b),
        env_key(p, env) is None && stored_key(keys_a, p) is Some ==> resolved_key(p, env, keys_a)
            == Ok::<Seq<char>, Seq<char>>(stored_key(keys_a, p)->0),
{
}

} // verus!
