//! `exec`: runs a command in a runtime session, or opens an interactive
//! shell there.

use vstd::prelude::*;
use crate::config::{arn_region, extract_region_from_arn, fallback_region, opt_string_chars, resolved_name, AliasStore};
use crate::text::{
    all_digits, decimal, digits_value, join, join_with, lemma_decimal_digits, lemma_decimal_value,
    lemma_leading_zeros_value, pad_left, pad_left_chars, push_decimal, push_str, repeat,
    string_from_chars,
};

verus! {

/// Seconds a one-shot command may run.
pub const COMMAND_TIMEOUT_SECONDS: i32 = 300;

/// Width of the zero-padded process id in a generated session id.
pub const SESSION_ID_DIGITS: usize = 33;

/// The session id used when none is given: `agctl-session-` and the process
/// id, zero-padded to 33 digits.
pub open spec fn generated_session_id(pid: u32) -> Seq<char> {
    "agctl-session-"@ + pad_left(decimal(pid as nat), SESSION_ID_DIGITS as nat, '0')
}

/// The region of an ARN, if its fourth `:`-separated field is present and
/// not empty.
pub fn extract_region(arn: &str) -> (r: Option<String>)
    ensures
        opt_string_chars(r) == arn_region(arn@),
{
    extract_region_from_arn(arn)
}

/// The session id for process `pid` when none is given.
pub fn default_session_id(pid: u32) -> (s: String)
    ensures
        s@ == generated_session_id(pid),
{
    let mut digits: Vec<char> = Vec::new();
    push_decimal(&mut digits, pid as u64);
    assert(digits@ =~= decimal(pid as nat));
    let padded = pad_left_chars(&digits, SESSION_ID_DIGITS, '0');
    let mut out: Vec<char> = Vec::new();
    push_str(&mut out, "agctl-session-");
    let mut i: usize = 0;
    let ghost lead = out@;
    while i < padded.len()
        invariant
            i <= padded.len(),
            out@ == lead + padded@.take(i as int),
        decreases padded.len() - i,
    {
        out.push(padded[i]);
        i = i + 1;
        assert(out@ =~= lead + padded@.take(i as int));
    }
    assert(padded@.take(padded.len() as int) =~= padded@);
    string_from_chars(&out)
}

/// `10^k`.
pub open spec fn pow10(k: nat) -> nat
    decreases k,
{
    if k == 0 {
        1
    } else {
        10 * pow10((k - 1) as nat)
    }
}

/// A number below `10^k` has at most `k` decimal digits.
pub proof fn lemma_decimal_len(n: nat, k: nat)
    requires
        k >= 1,
        n < pow10(k),
    ensures
        decimal(n).len() <= k,
    decreases k,
{
    if n >= 10 {
        if k == 1 {
            assert(pow10(1) == 10 * pow10(0));
        }
        let p = pow10((k - 1) as nat);
        assert(n / 10 < p) by (nonlinear_arith)
            requires
                n < 10 * p,
        ;
        lemma_decimal_len(n / 10, (k - 1) as nat);
    }
}

/// A generated session id is `agctl-session-` followed by exactly 33
/// digits, and those digits read back as the process id: different
/// processes get different session ids.
pub proof fn lemma_session_id_digits(pid: u32)
    ensures
        ({
            let d = pad_left(decimal(pid as nat), SESSION_ID_DIGITS as nat, '0');
            &&& generated_session_id(pid) == "agctl-session-"@ + d
            &&& d.len() == SESSION_ID_DIGITS
            &&& all_digits(d)
            &&& digits_value(d) == pid
        }),
{
    reveal_with_fuel(pow10, 11);
    assert(pow10(10) == 10000000000);
    lemma_decimal_len(pid as nat, 10);
    lemma_decimal_digits(pid as nat);
    lemma_decimal_value(pid as nat);
    let dec = decimal(pid as nat);
    let k = (SESSION_ID_DIGITS - dec.len()) as nat;
    lemma_leading_zeros_value(k, dec);
    let d = pad_left(dec, SESSION_ID_DIGITS as nat, '0');
    assert(d == repeat('0', k) + dec);
    assert forall|i: int| 0 <= i < d.len() implies '0' <= #[trigger] d[i] <= '9' by {
        if i >= k {
            assert(d[i] == dec[i - k]);
        }
    }
}

/// Session ids of different processes differ.
pub proof fn lemma_session_ids_distinct(a: u32, b: u32)
    requires
        a != b,
    ensures
        generated_session_id(a) != generated_session_id(b),
{
    lemma_session_id_digits(a);
    lemma_session_id_digits(b);
    let p = "agctl-session-"@;
    if generated_session_id(a) == generated_session_id(b) {
        let da = pad_left(decimal(a as nat), SESSION_ID_DIGITS as nat, '0');
        let db = pad_left(decimal(b as nat), SESSION_ID_DIGITS as nat, '0');
        assert(da =~= generated_session_id(a).subrange(p.len() as int, generated_session_id(a).len() as int));
        assert(db =~= generated_session_id(b).subrange(p.len() as int, generated_session_id(b).len() as int));
    }
}

/// What `exec` will do.
#[allow(inconsistent_fields)]
pub enum ExecPlan {
    /// Open an interactive shell.
    Shell { arn: String, session_id: String, shell_id: Option<String>, region: String },
    /// Run one command and stream its output.
    Command {
        arn: String,
        session_id: String,
        region: Option<String>,
        command: String,
        timeout_seconds: i32,
    },
}

/// The views of a list of strings.
pub open spec fn string_views(v: Seq<String>) -> Seq<Seq<char>> {
    v.map_values(|s: String| s@)
}

/// The plan of `exec runtime command...`: the runtime name is resolved
/// through the aliases; the region is the override, else the ARN's; the
/// session id is the given one, else the generated one for `pid`. With
/// `it` or no command it opens a shell (in `us-east-1` when no region is
/// known), else it runs the command words joined by spaces, with a
/// 300-second timeout.
pub fn handle(
    store: &AliasStore,
    runtime: &str,
    command: &Vec<String>,
    session_id: Option<String>,
    it: bool,
    region_override: Option<String>,
    pid: u32,
) -> (plan: ExecPlan)
    ensures
        ({
            let arn = resolved_name(store.aliases@, runtime@);
            let region = match region_override {
                Some(r) => Some(r@),
                None => arn_region(arn),
            };
            let sid = match session_id {
                Some(s) => s@,
                None => generated_session_id(pid),
            };
            match plan {
                ExecPlan::Shell { arn: a, session_id: s, shell_id, region: r } => {
                    &&& it || command.len() == 0
                    &&& a@ == arn
                    &&& s@ == sid
                    &&& shell_id is None
                    &&& r@ == match region {
                        Some(x) => x,
                        None => fallback_region(),
                    }
                },
                ExecPlan::Command { arn: a, session_id: s, region: r, command: c, timeout_seconds } => {
                    &&& !it && command.len() > 0
                    &&& a@ == arn
                    &&& s@ == sid
                    &&& opt_string_chars(r) == region
                    &&& c@ == join_with(string_views(command@), " "@)
                    &&& timeout_seconds == COMMAND_TIMEOUT_SECONDS
                },
            }
        }),
{
    let arn = store.resolve(runtime);
    let region = match region_override {
        Some(r) => Some(r),
        None => extract_region(arn.as_str()),
    };
    let sid = match session_id {
        Some(s) => s,
        None => default_session_id(pid),
    };
    if it || command.len() == 0 {
        let r = match region {
            Some(x) => x,
            None => String::from_str("us-east-1"),
        };
        ExecPlan::Shell { arn, session_id: sid, shell_id: None, region: r }
    } else {
        let c = join(command, " ");
        ExecPlan::Command {
            arn,
            session_id: sid,
            region,
            command: c,
            timeout_seconds: COMMAND_TIMEOUT_SECONDS,
        }
    }
}

} // verus!
