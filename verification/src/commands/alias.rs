//! `alias`: set, list and remove aliases of runtime ARNs.

use vstd::prelude::*;
use crate::config::AliasStore;
use crate::table::{pair_views, pairs_map, unique_keys};
use crate::text::{pad_right, pad_right_str};

verus! {

/// An alias command.
pub enum AliasAction {
    SetAlias { name: String, arn: String },
    List,
    Remove { name: String },
}

/// What to print, and whether the store must be saved.
pub struct AliasOutcome {
    pub lines: Vec<String>,
    pub save: bool,
}

/// One line of the alias listing: the name in a column of 20 characters,
/// then the ARN.
pub open spec fn alias_line(name: Seq<char>, arn: Seq<char>) -> Seq<char> {
    pad_right(name, 20) + " "@ + arn
}

/// An alias line starts with the full alias name, padded with spaces (never
/// cut) to 20 characters, then one space and the full ARN.
pub proof fn lemma_alias_line(name: Seq<char>, arn: Seq<char>)
    ensures
        ({
            let l = alias_line(name, arn);
            let w: int = if name.len() >= 20 { name.len() as int } else { 20 };
            &&& l.len() == w + 1 + arn.len()
            &&& l.subrange(0, name.len() as int) == name
            &&& forall|i: int| name.len() <= i <= w ==> #[trigger] l[i] == ' '
            &&& l.subrange(w + 1, l.len() as int) == arn
        }),
{
    reveal_strlit(" ");
    crate::text::lemma_pad_right(name, 20);
    let p = pad_right(name, 20);
    let l = alias_line(name, arn);
    assert(l == p + " "@ + arn);
    assert(l.subrange(0, name.len() as int) =~= p.take(name.len() as int));
    assert(l.subrange(p.len() + 1int, l.len() as int) =~= arn);
    assert forall|i: int| name.len() <= i <= p.len() implies #[trigger] l[i] == ' ' by {
        if i < p.len() {
            assert(l[i] == p[i]);
        }
    }
}

/// The views of printed lines.
pub open spec fn line_views(lines: Seq<String>) -> Seq<Seq<char>> {
    lines.map_values(|l: String| l@)
}

/// Carries out an alias command on the store: setting maps the name to the
/// ARN, removing drops the name (present or not), and both ask for the
/// store to be saved; listing prints each alias once, or that there are
/// none.
pub fn handle(store: &mut AliasStore, action: AliasAction) -> (out: AliasOutcome)
    ensures
        match action {
            AliasAction::SetAlias { name, arn } => {
                &&& final(store).aliases@ == old(store).aliases@.insert(name@, arn@)
                &&& out.save
                &&& line_views(out.lines@) == seq!["✅ "@ + name@ + " → "@ + arn@]
            },
            AliasAction::List => {
                &&& final(store).aliases@ == old(store).aliases@
                &&& !out.save
                &&& if old(store).aliases@.len() == 0 {
                    line_views(out.lines@) == seq!["No aliases configured."@]
                } else {
                    exists|e: Seq<(Seq<char>, Seq<char>)>|
                        {
                            &&& unique_keys(e)
                            &&& pairs_map(e) == old(store).aliases@
                            &&& line_views(out.lines@) == e.map_values(
                                |p: (Seq<char>, Seq<char>)| alias_line(p.0, p.1),
                            )
                        }
                }
            },
            AliasAction::Remove { name } => {
                &&& final(store).aliases@ == old(store).aliases@.remove(name@)
                &&& out.save
                &&& line_views(out.lines@) == seq!["Removed alias '"@ + name@ + "'"@]
            },
        },
{
    let mut lines: Vec<String> = Vec::new();
    match action {
        AliasAction::SetAlias { name, arn } => {
            let line = String::from_str("✅ ").concat(name.as_str()).concat(" → ").concat(
                arn.as_str(),
            );
            store.aliases.insert(name, arn);
            lines.push(line);
            assert(line_views(lines@) =~= seq![line@]);
            AliasOutcome { lines, save: true }
        },
        AliasAction::List => {
            if store.aliases.is_empty() {
                lines.push(String::from_str("No aliases configured."));
                assert(line_views(lines@) =~= seq![lines@[0]@]);
            } else {
                let entries = store.aliases.entries();
                let ghost e = pair_views(entries@);
                let mut i: usize = 0;
                while i < entries.len()
                    invariant
                        i <= entries.len(),
                        e == pair_views(entries@),
                        line_views(lines@) == e.take(i as int).map_values(
                            |p: (Seq<char>, Seq<char>)| alias_line(p.0, p.1),
                        ),
                    decreases entries.len() - i,
                {
                    let line = pad_right_str(entries[i].0.as_str(), 20).concat(" ").concat(
                        entries[i].1.as_str(),
                    );
                    assert(e[i as int] == (entries@[i as int].0@, entries@[i as int].1@));
                    assert(line@ == alias_line(e[i as int].0, e[i as int].1));
                    let ghost before = line_views(lines@);
                    lines.push(line);
                    assert(line_views(lines@) =~= before.push(line@));
                    assert(e.take(i + 1) =~= e.take(i as int).push(e[i as int]));
                    i = i + 1;
                    assert(line_views(lines@) =~= e.take(i as int).map_values(
                        |p: (Seq<char>, Seq<char>)| alias_line(p.0, p.1),
                    ));
                }
                assert(e.take(entries.len() as int) =~= e);
            }
            AliasOutcome { lines, save: false }
        },
        AliasAction::Remove { name } => {
            store.aliases.remove(name.as_str());
            let line = String::from_str("Removed alias '").concat(name.as_str()).concat("'");
            lines.push(line);
            assert(line_views(lines@) =~= seq![line@]);
            AliasOutcome { lines, save: true }
        },
    }
}

/// Setting an alias that did not exist and then removing it leaves the
/// aliases as they were.
pub proof fn lemma_set_then_remove(aliases: Map<Seq<char>, Seq<char>>, name: Seq<char>, arn: Seq<char>)
    requires
        !aliases.contains_key(name),
    ensures
        aliases.insert(name, arn).remove(name) == aliases,
{
    assert(aliases.insert(name, arn).remove(name) =~= aliases);
}

/// Setting the same alias twice keeps the later ARN only.
pub proof fn lemma_set_twice(aliases: Map<Seq<char>, Seq<char>>, name: Seq<char>, first: Seq<char>, second: Seq<char>)
    ensures
        aliases.insert(name, first).insert(name, second) == aliases.insert(name, second),
{
    assert(aliases.insert(name, first).insert(name, second) =~= aliases.insert(name, second));
}

} // verus!
