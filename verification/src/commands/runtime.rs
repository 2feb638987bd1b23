//! `runtime`: apply, get, export, list, delete and restart runtimes. What
//! the service is asked and answers comes in and goes out as plain values;
//! the decisions in between are made here.

use vstd::prelude::*;
use crate::config::{
    arn_region, default_network, extract_region_from_arn, opt_string_chars, resolved_name,
    AliasStore, FilesystemConfig, Metadata, RuntimeSpec, Spec,
};
use crate::table::{pair_views, pairs_map, unique_keys, StringTable};
use crate::text::{lemma_pad_right, has_prefix, last_field, pad_right, pad_right_str, split_on, starts_with, trim, trim_chars};

verus! {

/// The region of an ARN, if its fourth `:`-separated field is present and
/// not empty.
pub fn extract_region(arn: &str) -> (r: Option<String>)
    ensures
        opt_string_chars(r) == arn_region(arn@),
{
    extract_region_from_arn(arn)
}

/// One runtime as the service lists it.
pub struct RuntimeSummary {
    pub name: String,
    pub id: String,
    pub arn: String,
    pub status: String,
    pub version: String,
}

// ------------------------------------------------------------ runtime ids

/// The runtime id inside an ARN: what follows its last `/` (all of it when
/// there is none).
pub open spec fn arn_runtime_id(arn: Seq<char>) -> Seq<char> {
    split_on(arn, '/').last()
}

/// How a name becomes a runtime id.
pub enum RuntimeIdLookup {
    /// The name led to an ARN; this is the id inside it.
    Found(String),
    /// The name led to this string, which is no ARN: the runtimes must be
    /// listed and searched by the name.
    ByName(String),
}

/// The first step of turning a name into a runtime id: resolve it through
/// the aliases; an ARN yields its id at once.
pub fn start_runtime_id_lookup(store: &AliasStore, name: &str) -> (r: RuntimeIdLookup)
    ensures
        ({
            let resolved = resolved_name(store.aliases@, name@);
            match r {
                RuntimeIdLookup::Found(id) => has_prefix(resolved, "arn:"@) && id@ == arn_runtime_id(
                    resolved,
                ),
                RuntimeIdLookup::ByName(s) => !has_prefix(resolved, "arn:"@) && s@ == resolved,
            }
        }),
{
    let resolved = store.resolve(name);
    if starts_with(resolved.as_str(), "arn:") {
        RuntimeIdLookup::Found(last_field(resolved.as_str(), '/'))
    } else {
        RuntimeIdLookup::ByName(resolved)
    }
}

/// The position of the first runtime named `name`.
pub fn find_runtime(runtimes: &Vec<RuntimeSummary>, name: &str) -> (r: Option<usize>)
    ensures
        match r {
            Some(i) => i < runtimes.len() && runtimes@[i as int].name@ == name@ && forall|j: int|
                0 <= j < i ==> runtimes@[j].name@ != name@,
            None => forall|j: int| 0 <= j < runtimes.len() ==> runtimes@[j].name@ != name@,
        },
{
    let n = name.to_string();
    let mut i: usize = 0;
    while i < runtimes.len()
        invariant
            i <= runtimes.len(),
            n@ == name@,
            forall|j: int| 0 <= j < i ==> runtimes@[j].name@ != name@,
        decreases runtimes.len() - i,
    {
        if runtimes[i].name == n {
            return Some(i);
        }
        i = i + 1;
    }
    None
}

/// The second step, after listing: the id of the first runtime named
/// `name`, else `resolved` itself, taken to be a raw runtime id.
pub fn runtime_id_from_listing(name: &str, resolved: String, runtimes: &Vec<RuntimeSummary>) -> (id: String)
    ensures
        (exists|i: int|
            0 <= i < runtimes.len() && runtimes@[i].name@ == name@ && id@ == runtimes@[i].id@
                && forall|j: int| 0 <= j < i ==> runtimes@[j].name@ != name@) || ((forall|j: int|
            0 <= j < runtimes.len() ==> runtimes@[j].name@ != name@) && id@ == resolved@),
{
    match find_runtime(runtimes, name) {
        Some(i) => runtimes[i].id.clone(),
        None => resolved,
    }
}

// ------------------------------------------------------------ apply

/// The region `apply` talks to: the override, else the spec's region.
pub fn apply_region(spec: &RuntimeSpec, region_override: Option<String>) -> (r: String)
    ensures
        r@ == match region_override {
            Some(o) => o@,
            None => match spec.metadata.region {
                Some(x) => x@,
                None => crate::config::fallback_region(),
            },
        },
{
    match region_override {
        Some(o) => o,
        None => spec.region(),
    }
}

/// Whether `apply` creates a runtime or updates an existing one.
pub enum ApplyTarget {
    Create,
    Update { id: String },
}

/// The create or update request, in plain values.
pub struct RuntimeRequest {
    pub name: String,
    pub image: String,
    pub role: String,
    /// The network mode, as the spec spells it.
    pub network: String,
    /// The session storage mount path, if any.
    pub session_storage: Option<String>,
    pub env: Vec<(String, String)>,
    /// The server protocol, set on creation only.
    pub server_protocol: Option<String>,
}

/// `r` asks for what `spec` declares.
pub open spec fn requests(r: RuntimeRequest, spec: RuntimeSpec) -> bool {
    &&& r.name@ == spec.metadata.name@
    &&& r.image@ == spec.spec.image@
    &&& r.role@ == spec.spec.role@
    &&& r.network@ == spec.spec.network@
    &&& r.session_storage == match spec.spec.filesystem {
        Some(fs) => fs.session_storage,
        None => None,
    }
    &&& unique_keys(pair_views(r.env@))
    &&& pairs_map(pair_views(r.env@)) == spec.spec.env@
}

/// What `apply` will do.
pub struct ApplyPlan {
    pub target: ApplyTarget,
    pub request: RuntimeRequest,
}

/// The plan of `apply`: update the first listed runtime whose name is the
/// spec's, else create one (with the HTTP server protocol); in both cases
/// with the spec's image, role, network, session storage and environment.
pub fn plan_apply(spec: &RuntimeSpec, runtimes: &Vec<RuntimeSummary>) -> (p: ApplyPlan)
    ensures
        requests(p.request, *spec),
        match p.target {
            ApplyTarget::Update { id } => exists|i: int|
                0 <= i < runtimes.len() && runtimes@[i].name@ == spec.metadata.name@ && id@
                    == runtimes@[i].id@ && forall|j: int|
                    0 <= j < i ==> runtimes@[j].name@ != spec.metadata.name@,
            ApplyTarget::Create => forall|j: int|
                0 <= j < runtimes.len() ==> runtimes@[j].name@ != spec.metadata.name@,
        },
        (p.target is Create) == (p.request.server_protocol is Some),
        p.request.server_protocol matches Some(s) ==> s@ == "HTTP"@,
{
    let found = find_runtime(runtimes, spec.metadata.name.as_str());
    let session_storage = match &spec.spec.filesystem {
        Some(fs) => match &fs.session_storage {
            Some(m) => Some(m.clone()),
            None => None,
        },
        None => None,
    };
    let (target, server_protocol) = match found {
        Some(i) => (ApplyTarget::Update { id: runtimes[i].id.clone() }, None),
        None => (ApplyTarget::Create, Some(String::from_str("HTTP"))),
    };
    let request = RuntimeRequest {
        name: spec.metadata.name.clone(),
        image: spec.spec.image.clone(),
        role: spec.spec.role.clone(),
        network: spec.spec.network.clone(),
        session_storage,
        env: spec.spec.env.entries(),
        server_protocol,
    };
    ApplyPlan { target, request }
}

/// After a runtime was created or updated, its name becomes an alias of
/// its ARN.
pub fn remember_applied_runtime(store: &mut AliasStore, name: &str, arn: &str)
    ensures
        final(store).aliases@ == old(store).aliases@.insert(name@, arn@),
{
    store.aliases.insert(name.to_string(), arn.to_string());
}

/// After `apply` created or updated a runtime, its name resolves to the
/// runtime's ARN (names that start with `arn:` resolve to themselves), and
/// every other name resolves as before.
pub proof fn lemma_applied_runtime_resolves(
    before: Map<Seq<char>, Seq<char>>,
    after: Map<Seq<char>, Seq<char>>,
    name: Seq<char>,
    arn: Seq<char>,
)
    requires
        after == before.insert(name, arn),
        !has_prefix(name, "arn:"@),
    ensures
        resolved_name(after, name) == arn,
        forall|other: Seq<char>| other != name ==> #[trigger] resolved_name(after, other) == resolved_name(before, other),
{
}

// ------------------------------------------------------------ export

/// The first present value.
pub open spec fn first_present(s: Seq<Option<String>>) -> Option<String>
    decreases s.len(),
{
    if s.len() == 0 {
        None
    } else if s[0] is Some {
        s[0]
    } else {
        first_present(s.drop_first())
    }
}

/// `spec` is the spec exported from a runtime with these properties: its
/// name, the region of its ARN, its image (empty when it has none), role,
/// network mode (`PUBLIC` when it has none), first session storage mount,
/// and environment.
pub open spec fn exported(
    spec: RuntimeSpec,
    name: Seq<char>,
    arn: Seq<char>,
    image: Option<Seq<char>>,
    role: Seq<char>,
    network: Option<Seq<char>>,
    mounts: Seq<Option<String>>,
    env: Map<Seq<char>, Seq<char>>,
) -> bool {
    &&& spec.metadata.name@ == name
    &&& opt_string_chars(spec.metadata.region) == arn_region(arn)
    &&& spec.spec.image@ == match image {
        Some(i) => i,
        None => Seq::<char>::empty(),
    }
    &&& spec.spec.role@ == role
    &&& spec.spec.network@ == match network {
        Some(n) => n,
        None => "PUBLIC"@,
    }
    &&& match first_present(mounts) {
        Some(m) => spec.spec.filesystem matches Some(fs) && fs.session_storage == Some(m),
        None => spec.spec.filesystem is None,
    }
    &&& spec.spec.env@ == env
}

/// The first present mount.
fn first_mount(mounts: &Vec<Option<String>>) -> (r: Option<String>)
    ensures
        r == first_present(mounts@),
{
    let mut i: usize = 0;
    assert(mounts@.subrange(0, mounts.len() as int) =~= mounts@);
    while i < mounts.len()
        invariant
            i <= mounts.len(),
            first_present(mounts@) == first_present(mounts@.subrange(i as int, mounts.len() as int)),
        decreases mounts.len() - i,
    {
        assert(mounts@.subrange(i as int, mounts.len() as int)[0] == mounts@[i as int]);
        match &mounts[i] {
            Some(m) => {
                return Some(m.clone());
            },
            None => {},
        }
        assert(mounts@.subrange(i as int, mounts.len() as int).drop_first() =~= mounts@.subrange(
            (i + 1) as int,
            mounts.len() as int,
        ));
        i = i + 1;
    }
    None
}

/// The spec that describes an existing runtime (what `export` writes): the
/// region comes from the ARN, a missing image becomes empty, a missing
/// network mode `PUBLIC`, and the first session storage mount, if any,
/// the filesystem setting.
pub fn spec_from_runtime(
    name: String,
    arn: &str,
    image: Option<String>,
    role: String,
    network: Option<String>,
    mounts: &Vec<Option<String>>,
    env: StringTable,
) -> (spec: RuntimeSpec)
    ensures
        exported(
            spec,
            name@,
            arn@,
            opt_string_chars(image),
            role@,
            opt_string_chars(network),
            mounts@,
            env@,
        ),
{
    let image = match image {
        Some(i) => i,
        None => String::new(),
    };
    let network = match network {
        Some(n) => n,
        None => default_network(),
    };
    let filesystem = match first_mount(mounts) {
        Some(m) => Some(FilesystemConfig { session_storage: Some(m) }),
        None => None,
    };
    RuntimeSpec {
        metadata: Metadata { name, region: extract_region(arn) },
        spec: Spec { image, role, network, filesystem, env },
    }
}

/// Exporting a runtime and applying the result asks for the runtime's own
/// name, image, role, network mode, session storage and environment.
pub proof fn lemma_export_then_apply(
    spec: RuntimeSpec,
    request: RuntimeRequest,
    name: Seq<char>,
    arn: Seq<char>,
    image: Option<Seq<char>>,
    role: Seq<char>,
    network: Option<Seq<char>>,
    mounts: Seq<Option<String>>,
    env: Map<Seq<char>, Seq<char>>,
)
    requires
        exported(spec, name, arn, image, role, network, mounts, env),
        requests(request, spec),
    ensures
        request.name@ == name,
        request.image@ == match image {
            Some(i) => i,
            None => Seq::<char>::empty(),
        },
        request.role@ == role,
        request.network@ == match network {
            Some(n) => n,
            None => "PUBLIC"@,
        },
        request.session_storage == first_present(mounts),
        pairs_map(pair_views(request.env@)) == env,
{
}

// ------------------------------------------------------------ restart

/// How many listings `restart` waits through for the deleted runtime to
/// disappear before it gives up.
pub const RESTART_MAX_POLLS: u32 = 60;

/// Seconds between two such listings.
pub const RESTART_POLL_SECONDS: u64 = 5;

/// What `restart` does after listing the runtimes while its runtime is
/// being deleted.
pub enum RestartWait {
    /// The name is gone: create the runtime again from the saved spec.
    Recreate,
    /// The name is still listed: wait and list again.
    PollAgain,
    /// The name is still listed after the last allowed listing.
    GiveUp,
}

/// The decision after the `polls`-th listing (counting from 1) while the
/// runtime named `name` is being deleted.
pub fn restart_wait(name: &str, runtimes: &Vec<RuntimeSummary>, polls: u32) -> (w: RestartWait)
    ensures
        (w is Recreate) == (forall|j: int| 0 <= j < runtimes.len() ==> runtimes@[j].name@ != name@),
        w is GiveUp <==> !(w is Recreate) && polls >= RESTART_MAX_POLLS,
{
    match find_runtime(runtimes, name) {
        None => RestartWait::Recreate,
        Some(_) => {
            if polls >= RESTART_MAX_POLLS {
                RestartWait::GiveUp
            } else {
                RestartWait::PollAgain
            }
        },
    }
}

/// Once the waiting says to recreate, applying the saved spec to that
/// listing creates the runtime anew rather than updating one.
pub proof fn lemma_restart_recreates(spec: RuntimeSpec, runtimes: Seq<RuntimeSummary>, target: ApplyTarget)
    requires
        forall|j: int| 0 <= j < runtimes.len() ==> runtimes[j].name@ != spec.metadata.name@,
        target matches ApplyTarget::Update { id } ==> exists|i: int|
            0 <= i < runtimes.len() && runtimes[i].name@ == spec.metadata.name@ && id@
                == runtimes[i].id@,
    ensures
        target is Create,
{
    if let ApplyTarget::Update { id } = target {
        let i = choose|i: int|
            0 <= i < runtimes.len() && runtimes[i].name@ == spec.metadata.name@ && id@
                == runtimes[i].id@;
        assert(runtimes[i].name@ != spec.metadata.name@);
    }
}

// ------------------------------------------------------------ list

/// One line of the runtime listing: name, status and version in columns of
/// 30, 10 and 8 characters, then the alias.
pub open spec fn list_row(name: Seq<char>, status: Seq<char>, version: Seq<char>, alias: Seq<char>) -> Seq<char> {
    pad_right(name, 30) + " "@ + pad_right(status, 10) + " "@ + pad_right(version, 8) + " "@ + alias
}

/// `alias` may stand in the alias column of a runtime with this ARN: an
/// alias of it, or empty when it has none.
pub open spec fn alias_column(aliases: Map<Seq<char>, Seq<char>>, arn: Seq<char>, alias: Seq<char>) -> bool {
    (aliases.contains_key(alias) && aliases[alias] == arn) || (alias == Seq::<char>::empty() && forall|
        k: Seq<char>,
    | #[trigger] aliases.contains_key(k) ==> aliases[k] != arn)
}

/// `line` is the listing row of runtime `r`, with an alias of its ARN or
/// an empty alias column when it has none.
pub open spec fn listed_row(aliases: Map<Seq<char>, Seq<char>>, r: RuntimeSummary, line: Seq<char>) -> bool {
    exists|a: Seq<char>|
        alias_column(aliases, r.arn@, a) && line == list_row(r.name@, r.status@, r.version@, a)
}

/// A listing row holds the runtime's full name, status and version, each
/// padded with spaces (never cut) to its column width, one space between
/// columns, then the alias.
pub proof fn lemma_list_row_columns(name: Seq<char>, status: Seq<char>, version: Seq<char>, alias: Seq<char>)
    ensures
        ({
            let r = list_row(name, status, version, alias);
            let w1: int = if name.len() >= 30 { name.len() as int } else { 30 };
            let w2: int = if status.len() >= 10 { status.len() as int } else { 10 };
            let w3: int = if version.len() >= 8 { version.len() as int } else { 8 };
            let c2 = w1 + 1;
            let c3 = c2 + w2 + 1;
            let c4 = c3 + w3 + 1;
            &&& r.len() == c4 + alias.len()
            &&& r.subrange(0, name.len() as int) == name
            &&& r.subrange(c2, c2 + status.len()) == status
            &&& r.subrange(c3, c3 + version.len()) == version
            &&& r.subrange(c4, r.len() as int) == alias
            &&& forall|i: int| name.len() <= i < c2 ==> #[trigger] r[i] == ' '
            &&& forall|i: int| c2 + status.len() <= i < c3 ==> #[trigger] r[i] == ' '
            &&& forall|i: int| c3 + version.len() <= i < c4 ==> #[trigger] r[i] == ' '
        }),
{
    reveal_strlit(" ");
    lemma_pad_right(name, 30);
    lemma_pad_right(status, 10);
    lemma_pad_right(version, 8);
    let pn = pad_right(name, 30);
    let ps = pad_right(status, 10);
    let pv = pad_right(version, 8);
    let sp = " "@;
    let r = list_row(name, status, version, alias);
    assert(r == pn + sp + ps + sp + pv + sp + alias);
    let c2: int = pn.len() + 1int;
    let c3: int = c2 + ps.len() + 1;
    let c4: int = c3 + pv.len() + 1;
    assert(r.subrange(0, name.len() as int) =~= pn.take(name.len() as int));
    assert(r.subrange(c2, c2 + status.len()) =~= ps.take(status.len() as int));
    assert(r.subrange(c3, c3 + version.len()) =~= pv.take(version.len() as int));
    assert(r.subrange(c4, r.len() as int) =~= alias);
    assert forall|i: int| name.len() <= i < c2 implies #[trigger] r[i] == ' ' by {
        if i < pn.len() {
            assert(r[i] == pn[i]);
        } else {
            assert(r[i] == sp[0]);
        }
    }
    assert forall|i: int| c2 + status.len() <= i < c3 implies #[trigger] r[i] == ' ' by {
        if i < c3 - 1 {
            assert(r[i] == ps[i - c2]);
        } else {
            assert(r[i] == sp[0]);
        }
    }
    assert forall|i: int| c3 + version.len() <= i < c4 implies #[trigger] r[i] == ' ' by {
        if i < c4 - 1 {
            assert(r[i] == pv[i - c3]);
        } else {
            assert(r[i] == sp[0]);
        }
    }
}

fn row(name: &str, status: &str, version: &str, alias: &str) -> (r: String)
    ensures
        r@ == list_row(name@, status@, version@, alias@),
{
    pad_right_str(name, 30).concat(" ").concat(pad_right_str(status, 10).as_str()).concat(" ").concat(
        pad_right_str(version, 8).as_str(),
    ).concat(" ").concat(alias)
}

/// The lines `list` prints: `No runtimes found.` alone, or a header and one
/// row per runtime, in order, with an alias of its ARN where there is one.
pub fn list_lines(runtimes: &Vec<RuntimeSummary>, store: &AliasStore) -> (lines: Vec<String>)
    ensures
        runtimes.len() == 0 ==> lines.len() == 1 && lines@[0]@ == "No runtimes found."@,
        runtimes.len() > 0 ==> {
            &&& lines.len() == runtimes.len() + 1
            &&& lines@[0]@ == list_row("NAME"@, "STATUS"@, "VERSION"@, "ALIAS"@)
            &&& forall|i: int|
                0 <= i < runtimes.len() ==> listed_row(store.aliases@, runtimes@[i], #[trigger] lines@[i + 1]@)
        },
{
    let mut lines: Vec<String> = Vec::new();
    if runtimes.len() == 0 {
        lines.push(String::from_str("No runtimes found."));
        return lines;
    }
    lines.push(row("NAME", "STATUS", "VERSION", "ALIAS"));
    let ghost mut chosen: Seq<Seq<char>> = Seq::empty();
    let mut i: usize = 0;
    while i < runtimes.len()
        invariant
            i <= runtimes.len(),
            lines.len() == i + 1,
            chosen.len() == i,
            lines@[0]@ == list_row("NAME"@, "STATUS"@, "VERSION"@, "ALIAS"@),
            forall|j: int|
                0 <= j < i ==> alias_column(store.aliases@, runtimes@[j].arn@, #[trigger] chosen[j])
                    && lines@[j + 1]@ == list_row(
                    runtimes@[j].name@,
                    runtimes@[j].status@,
                    runtimes@[j].version@,
                    chosen[j],
                ),
        decreases runtimes.len() - i,
    {
        let r = &runtimes[i];
        let alias = match store.aliases.key_for_value(r.arn.as_str()) {
            Some(a) => a,
            None => String::new(),
        };
        let line = row(r.name.as_str(), r.status.as_str(), r.version.as_str(), alias.as_str());
        lines.push(line);
        proof {
            chosen = chosen.push(alias@);
        }
        i = i + 1;
    }
    assert forall|i: int| 0 <= i < runtimes.len() implies listed_row(
        store.aliases@,
        runtimes@[i],
        #[trigger] lines@[i + 1]@,
    ) by {
        assert(alias_column(store.aliases@, runtimes@[i].arn@, chosen[i]));
    }
    lines
}

// ------------------------------------------------------------ get

/// The lines `get` prints about a runtime, the filesystem line only when
/// there is filesystem configuration to show.
pub fn runtime_details(
    name: &str,
    id: &str,
    arn: &str,
    status: &str,
    version: &str,
    image: &str,
    filesystem: Option<&str>,
) -> (lines: Vec<String>)
    ensures
        lines.len() == if filesystem is Some { 7int } else { 6int },
        lines@[0]@ == "Name:    "@ + name@,
        lines@[1]@ == "ID:      "@ + id@,
        lines@[2]@ == "ARN:     "@ + arn@,
        lines@[3]@ == "Status:  "@ + status@,
        lines@[4]@ == "Version: "@ + version@,
        lines@[5]@ == "Image:   "@ + image@,
        filesystem matches Some(f) ==> lines@[6]@ == "FS:      "@ + f@,
{
    let mut lines: Vec<String> = Vec::new();
    lines.push(String::from_str("Name:    ").concat(name));
    lines.push(String::from_str("ID:      ").concat(id));
    lines.push(String::from_str("ARN:     ").concat(arn));
    lines.push(String::from_str("Status:  ").concat(status));
    lines.push(String::from_str("Version: ").concat(version));
    lines.push(String::from_str("Image:   ").concat(image));
    if let Some(f) = filesystem {
        lines.push(String::from_str("FS:      ").concat(f));
    }
    lines
}

// ------------------------------------------------------------ delete

/// The answer to the deletion prompt agrees: it is `y` or `Y` once white
/// space around it is trimmed.
pub open spec fn agrees(answer: Seq<char>) -> bool {
    trim(answer) == seq!['y'] || trim(answer) == seq!['Y']
}

/// Whether the answer to `Delete runtime ...? [y/N]` confirms.
pub fn confirms_deletion(answer: &str) -> (b: bool)
    ensures
        b == agrees(answer@),
{
    let t = trim_chars(answer);
    if t.len() == 1 && (t[0] == 'y' || t[0] == 'Y') {
        assert(t@ =~= seq![t[0]]);
        true
    } else {
        proof {
            if t@ == seq!['y'] || t@ == seq!['Y'] {
                assert(t@.len() == 1);
            }
        }
        false
    }
}

} // verus!
