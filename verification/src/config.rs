//! Configuration and declarative specs: the global settings, the runtime
//! spec that a YAML file describes, and the alias store, with region
//! selection and alias resolution.

use vstd::prelude::*;
use crate::table::StringTable;
use crate::text::{has_prefix, lacks, split_on, split_field, starts_with, lemma_split_concat, lemma_split_lacking};

verus! {

/// The characters of an optional string.
pub open spec fn opt_chars(o: Option<&str>) -> Option<Seq<char>> {
    match o {
        Some(s) => Some(s@),
        None => None,
    }
}

/// The characters of an optional owned string.
pub open spec fn opt_string_chars(o: Option<String>) -> Option<Seq<char>> {
    match o {
        Some(s) => Some(s@),
        None => None,
    }
}

/// The region field of an ARN: its fourth `:`-separated field, when there
/// is one and it is not empty.
pub open spec fn arn_region(arn: Seq<char>) -> Option<Seq<char>> {
    let parts = split_on(arn, ':');
    if parts.len() >= 4 && parts[3].len() > 0 {
        Some(parts[3])
    } else {
        None
    }
}

/// The region used when nothing else names one.
pub open spec fn fallback_region() -> Seq<char> {
    "us-east-1"@
}

/// Region precedence: the flag, then the ARN's region, then the config
/// file, then `AWS_REGION`, then `AWS_DEFAULT_REGION`, then `us-east-1`.
pub open spec fn chosen_region(
    flag: Option<Seq<char>>,
    arn: Option<Seq<char>>,
    config: Option<Seq<char>>,
    env_region: Option<Seq<char>>,
    env_default_region: Option<Seq<char>>,
) -> Seq<char> {
    if let Some(f) = flag {
        f
    } else if arn is Some && arn_region(arn->0) is Some {
        arn_region(arn->0)->0
    } else if let Some(c) = config {
        c
    } else if let Some(e) = env_region {
        e
    } else if let Some(e) = env_default_region {
        e
    } else {
        fallback_region()
    }
}

/// Where a name leads: an ARN (a name starting with `arn:`) stands for
/// itself, an alias for its ARN, and any other name for itself.
pub open spec fn resolved_name(aliases: Map<Seq<char>, Seq<char>>, name: Seq<char>) -> Seq<char> {
    if has_prefix(name, "arn:"@) {
        name
    } else if aliases.contains_key(name) {
        aliases[name]
    } else {
        name
    }
}

/// The region of an ARN, if its fourth `:`-separated field is present and
/// not empty.
pub fn extract_region_from_arn(arn: &str) -> (r: Option<String>)
    ensures
        opt_string_chars(r) == arn_region(arn@),
{
    match split_field(arn, ':', 3) {
        Some(f) => {
            if f.unicode_len() > 0 {
                Some(f)
            } else {
                None
            }
        },
        None => None,
    }
}

/// Global settings (the config file's contents).
pub struct AgctlConfig {
    pub region: Option<String>,
}

impl Default for AgctlConfig {
    fn default() -> (c: Self)
        ensures
            c.region is None,
    {
        AgctlConfig { region: None }
    }
}

impl AgctlConfig {
    /// The region to talk to: `flag` if given, else the region of `arn`,
    /// else the configured one, else the values of `AWS_REGION` and
    /// `AWS_DEFAULT_REGION` in that order (`None` where unset), else
    /// `us-east-1`.
    pub fn resolve_region(
        &self,
        flag: Option<&str>,
        arn: Option<&str>,
        env_region: Option<&str>,
        env_default_region: Option<&str>,
    ) -> (r: String)
        ensures
            r@ == chosen_region(
                opt_chars(flag),
                opt_chars(arn),
                opt_string_chars(self.region),
                opt_chars(env_region),
                opt_chars(env_default_region),
            ),
    {
        if let Some(f) = flag {
            return f.to_string();
        }
        if let Some(a) = arn {
            if let Some(r) = extract_region_from_arn(a) {
                return r;
            }
        }
        if let Some(c) = &self.region {
            return c.clone();
        }
        if let Some(e) = env_region {
            return e.to_string();
        }
        if let Some(e) = env_default_region {
            return e.to_string();
        }
        String::from_str("us-east-1")
    }
}

/// The network mode a spec gets when it names none.
pub fn default_network() -> (n: String)
    ensures
        n@ == "PUBLIC"@,
{
    String::from_str("PUBLIC")
}

/// A runtime spec, as a YAML file declares it.
pub struct RuntimeSpec {
    pub metadata: Metadata,
    pub spec: Spec,
}

/// The runtime's name and, optionally, its region.
pub struct Metadata {
    pub name: String,
    pub region: Option<String>,
}

/// What the runtime runs and how.
pub struct Spec {
    pub image: String,
    pub role: String,
    pub network: String,
    pub filesystem: Option<FilesystemConfig>,
    pub env: StringTable,
}

/// Filesystem settings; `session_storage` is a mount path.
pub struct FilesystemConfig {
    pub session_storage: Option<String>,
}

impl RuntimeSpec {
    /// The spec's region, `us-east-1` when it names none.
    pub fn region(&self) -> (r: String)
        ensures
            r@ == match self.metadata.region {
                Some(x) => x@,
                None => fallback_region(),
            },
    {
        match &self.metadata.region {
            Some(x) => x.clone(),
            None => String::from_str("us-east-1"),
        }
    }
}

/// Aliases from short names to runtime ARNs.
pub struct AliasStore {
    pub aliases: StringTable,
}

impl Default for AliasStore {
    fn default() -> (s: Self)
        ensures
            s.aliases@ == Map::<Seq<char>, Seq<char>>::empty(),
    {
        AliasStore { aliases: StringTable::new() }
    }
}

impl AliasStore {
    /// A store with no aliases.
    pub fn new() -> (s: Self)
        ensures
            s.aliases@ == Map::<Seq<char>, Seq<char>>::empty(),
    {
        AliasStore { aliases: StringTable::new() }
    }

    /// Where `name` leads: itself when it starts with `arn:`, else the ARN
    /// it is an alias of, else itself.
    pub fn resolve(&self, name: &str) -> (r: String)
        ensures
            r@ == resolved_name(self.aliases@, name@),
    {
        if starts_with(name, "arn:") {
            name.to_string()
        } else {
            match self.aliases.get(name) {
                Some(arn) => arn,
                None => name.to_string(),
            }
        }
    }
}

/// Setting an alias makes the name resolve to the ARN, unless the name
/// itself starts with `arn:`; other names resolve as before.
pub proof fn lemma_resolve_after_set(
    aliases: Map<Seq<char>, Seq<char>>,
    name: Seq<char>,
    arn: Seq<char>,
    other: Seq<char>,
)
    ensures
        !has_prefix(name, "arn:"@) ==> resolved_name(aliases.insert(name, arn), name) == arn,
        other != name ==> resolved_name(aliases.insert(name, arn), other) == resolved_name(
            aliases,
            other,
        ),
{
}

/// Removing an alias makes the name resolve to itself; other names resolve
/// as before.
pub proof fn lemma_resolve_after_remove(
    aliases: Map<Seq<char>, Seq<char>>,
    name: Seq<char>,
    other: Seq<char>,
)
    ensures
        resolved_name(aliases.remove(name), name) == name,
        other != name ==> resolved_name(aliases.remove(name), other) == resolved_name(
            aliases,
            other,
        ),
{
}

/// Resolving is idempotent on ARNs: a name that starts with `arn:` resolves
/// to itself whatever the aliases.
pub proof fn lemma_resolve_arn(aliases: Map<Seq<char>, Seq<char>>, arn: Seq<char>)
    requires
        has_prefix(arn, "arn:"@),
    ensures
        resolved_name(aliases, arn) == arn,
{
}

/// When every alias leads to an ARN, resolving twice is resolving once.
pub proof fn lemma_resolve_idempotent(aliases: Map<Seq<char>, Seq<char>>, name: Seq<char>)
    requires
        forall|k: Seq<char>| #[trigger] aliases.contains_key(k) ==> has_prefix(aliases[k], "arn:"@),
    ensures
        resolved_name(aliases, resolved_name(aliases, name)) == resolved_name(aliases, name),
{
}

/// Region precedence: a flag wins over everything; without a flag, an
/// ARN's region wins over the config file and the environment; without
/// either, the config file wins over the environment, and `AWS_REGION` over
/// `AWS_DEFAULT_REGION`; with nothing at all the region is `us-east-1`.
pub proof fn lemma_region_precedence(
    flag: Option<Seq<char>>,
    arn: Option<Seq<char>>,
    config: Option<Seq<char>>,
    env_region: Option<Seq<char>>,
    env_default_region: Option<Seq<char>>,
)
    ensures
        flag is Some ==> chosen_region(flag, arn, config, env_region, env_default_region) == flag->0,
        ({
            let chosen = chosen_region(flag, arn, config, env_region, env_default_region);
            let arn_gives = arn is Some && arn_region(arn->0) is Some;
            &&& (flag is None && arn_gives ==> chosen == arn_region(arn->0)->0)
            &&& (flag is None && !arn_gives && config is Some ==> chosen == config->0)
            &&& (flag is None && !arn_gives && config is None && env_region is Some ==> chosen
                == env_region->0)
            &&& (flag is None && !arn_gives && config is None && env_region is None
                && env_default_region is Some ==> chosen == env_default_region->0)
            &&& (flag is None && !arn_gives && config is None && env_region is None
                && env_default_region is None ==> chosen == "us-east-1"@)
        }),
{
}

/// An ARN `arn:partition:service:region:rest` has region `region`, whenever
/// the first four fields hold no `:` and the region is not empty; `rest`
/// may hold anything.
pub proof fn lemma_arn_region(
    partition: Seq<char>,
    service: Seq<char>,
    region: Seq<char>,
    rest: Seq<char>,
)
    requires
        lacks(partition, ':'),
        lacks(service, ':'),
        lacks(region, ':'),
        region.len() > 0,
    ensures
        arn_region(
            "arn"@ + seq![':'] + partition + seq![':'] + service + seq![':'] + region + seq![':']
                + rest,
        ) == Some(region),
{
    let arn = "arn"@;
    assert(arn =~= seq!['a', 'r', 'n']) by {
        reveal_strlit("arn");
    }
    assert(lacks(arn, ':'));
    let c = seq![':'];
    let s3 = region + c + rest;
    let s2 = service + c + s3;
    let s1 = partition + c + s2;
    let s0 = arn + c + s1;
    lemma_split_concat(region, ':', rest);
    lemma_split_concat(service, ':', s3);
    lemma_split_concat(partition, ':', s2);
    lemma_split_concat(arn, ':', s1);
    lemma_split_lacking(region, ':');
    lemma_split_lacking(service, ':');
    lemma_split_lacking(partition, ':');
    lemma_split_lacking(arn, ':');
    assert(s0 =~= arn + c + partition + c + service + c + region + c + rest);
    crate::text::lemma_split_nonempty(rest, ':');
    assert(split_on(s0, ':')[3] == region);
}

} // verus!
