//! What a profile is doing: the phase of a publication or a prune, the sources a prune has
//! removed, and the status figures built from what was observed.
use vstd::prelude::*;

use crate::config::SystemKind;
use crate::order::{insert_sorted_unique, strictly_sorted};
use crate::text::{
    chars_of, contains_chars, lines, lit, spec_contains, spec_lines, spec_split_once,
    spec_starts_with, split_once, starts_with, string_of, views,
};

verus! {

/// Progress of publishing outputs to the final library.
#[derive(Clone, Debug, PartialEq, Eq)]
pub struct PublicationProgress {
    pub published: usize,
    pub ready: usize,
    pub remaining: usize,
    pub total: usize,
    pub partial_files: usize,
    pub phase: String,
    pub current_game: Option<String>,
}

/// Progress of removing verified sources.
#[derive(Clone, Debug, PartialEq, Eq)]
pub struct PruneProgress {
    pub removed: usize,
    pub remaining: usize,
    pub total: usize,
    pub phase: String,
    pub current_game: Option<String>,
}

/// A live status snapshot of a profile.
#[derive(Clone, Debug, PartialEq, Eq)]
pub struct ProfileStatus {
    pub profile: String,
    pub service: String,
    pub activity: String,
    pub current: String,
    pub batch_limit: usize,
    pub completed_groups: usize,
    pub total_groups: usize,
    pub output_files: usize,
    pub source_archives_moved_to_done: usize,
    pub current_run_failures: usize,
    pub active_worker: Option<String>,
    pub publication: Option<PublicationProgress>,
    pub prune: Option<PruneProgress>,
    pub log: String,
}

/// The output named after ` output=` in the current activity, when the activity is a step
/// whose name starts with `step`.
pub open spec fn step_game(current: Seq<char>, step: Seq<char>) -> Option<Seq<char>> {
    if spec_contains(current, step) {
        match spec_split_once(current, " output="@) {
            Some((_, output)) => Some(output),
            None => None,
        }
    } else {
        None
    }
}

/// The output named in the current activity of a step.
fn step_game_of(current: &[char], step: &str) -> (r: Option<String>)
    ensures
        r matches Some(g) ==> step_game(current@, step@) == Some(g@),
        r is None ==> step_game(current@, step@) is None,
{
    match split_once(current, &lit(" output=")) {
        Some((_, output)) => {
            if contains_chars(current, &lit(step)) {
                Some(string_of(&output))
            } else {
                None
            }
        },
        None => None,
    }
}

/// The phase of a publication, from the current activity and the published and total
/// counts.
pub open spec fn spec_publication_phase(current: Seq<char>, published: nat, total: nat) -> Seq<
    char,
> {
    if spec_contains(current, "step=publish-copy"@) {
        "Copying to final library"@
    } else if spec_contains(current, "step=publish-verify-staging"@) {
        "Verifying staged output"@
    } else if spec_contains(current, "step=publish-verify"@) {
        "Verifying final copy"@
    } else if spec_contains(current, "step=publish-skip-existing"@) {
        "Skipping published output"@
    } else if spec_contains(current, "step=publish-check-existing"@) {
        "Checking existing publication"@
    } else if spec_starts_with(current, "publish stopped cleanly"@) {
        "Publishing stopped cleanly"@
    } else if spec_starts_with(current, "publish batch complete"@) {
        if published == total && total > 0 {
            "Publishing complete"@
        } else {
            "Publish batch complete"@
        }
    } else if published == total && total > 0 {
        "Publishing complete"@
    } else {
        "Ready to publish"@
    }
}

/// The phase of a publication and the output it is working on.
pub fn publication_phase(current: &str, published: usize, total: usize) -> (r: (
    String,
    Option<String>,
))
    ensures
        r.0@ == spec_publication_phase(current@, published as nat, total as nat),
        r.1 matches Some(g) ==> step_game(current@, "step=publish-"@) == Some(g@),
        r.1 is None ==> step_game(current@, "step=publish-"@) is None,
{
    let c = chars_of(current);
    let game = step_game_of(&c, "step=publish-");
    let phase = if contains_chars(&c, &lit("step=publish-copy")) {
        "Copying to final library"
    } else if contains_chars(&c, &lit("step=publish-verify-staging")) {
        "Verifying staged output"
    } else if contains_chars(&c, &lit("step=publish-verify")) {
        "Verifying final copy"
    } else if contains_chars(&c, &lit("step=publish-skip-existing")) {
        "Skipping published output"
    } else if contains_chars(&c, &lit("step=publish-check-existing")) {
        "Checking existing publication"
    } else if starts_with(&c, &lit("publish stopped cleanly")) {
        "Publishing stopped cleanly"
    } else if starts_with(&c, &lit("publish batch complete")) {
        if published == total && total > 0 {
            "Publishing complete"
        } else {
            "Publish batch complete"
        }
    } else if published == total && total > 0 {
        "Publishing complete"
    } else {
        "Ready to publish"
    };
    (phase.to_owned(), game)
}

/// The phase of a prune, from the current activity and the removed and remaining counts.
pub open spec fn spec_prune_phase(current: Seq<char>, removed: nat, remaining: nat) -> Seq<char> {
    if spec_contains(current, "step=prune-verify-library"@) {
        "Verifying before source deletion"@
    } else if spec_starts_with(current, "prune stopped cleanly"@) {
        "Pruning stopped cleanly"@
    } else if spec_starts_with(current, "prune batch complete"@) {
        if remaining == 0 && removed > 0 {
            "Pruning complete"@
        } else {
            "Prune batch complete"@
        }
    } else if remaining == 0 && removed > 0 {
        "Pruning complete"@
    } else if removed > 0 {
        "Ready to continue pruning"@
    } else {
        "Not started"@
    }
}

/// The phase of a prune and the output it is working on.
pub fn prune_phase(current: &str, removed: usize, remaining: usize) -> (r: (String, Option<String>))
    ensures
        r.0@ == spec_prune_phase(current@, removed as nat, remaining as nat),
        r.1 matches Some(g) ==> step_game(current@, "step=prune-"@) == Some(g@),
        r.1 is None ==> step_game(current@, "step=prune-"@) is None,
{
    let c = chars_of(current);
    let game = step_game_of(&c, "step=prune-");
    let phase = if contains_chars(&c, &lit("step=prune-verify-library")) {
        "Verifying before source deletion"
    } else if starts_with(&c, &lit("prune stopped cleanly")) {
        "Pruning stopped cleanly"
    } else if starts_with(&c, &lit("prune batch complete")) {
        if remaining == 0 && removed > 0 {
            "Pruning complete"
        } else {
            "Prune batch complete"
        }
    } else if remaining == 0 && removed > 0 {
        "Pruning complete"
    } else if removed > 0 {
        "Ready to continue pruning"
    } else {
        "Not started"
    };
    (phase.to_owned(), game)
}

/// The source that a pipeline-log line records as pruned: the text after the first prune
/// event of the PSP, PS2, GameCube or 3DS adapter, tried in that order.
pub open spec fn pruned_name(line: Seq<char>) -> Option<Seq<char>> {
    match spec_split_once(line, " PRUNED verified PSP source: "@) {
        Some((_, n)) => Some(n),
        None => match spec_split_once(line, " PRUNED verified PS2 source: "@) {
            Some((_, n)) => Some(n),
            None => match spec_split_once(line, " PRUNED verified GameCube source: "@) {
                Some((_, n)) => Some(n),
                None => match spec_split_once(line, " PRUNED verified 3DS ZIP source: "@) {
                    Some((_, n)) => Some(n),
                    None => None,
                },
            },
        },
    }
}

/// The sources pruned according to the first `i` lines of a log.
pub open spec fn pruned_upto(lines: Seq<Seq<char>>, i: int) -> Set<Seq<char>>
    decreases i,
{
    if i <= 0 {
        Set::empty()
    } else {
        match pruned_name(lines[i - 1]) {
            Some(n) => pruned_upto(lines, i - 1).insert(n),
            None => pruned_upto(lines, i - 1),
        }
    }
}

/// The sources that a pipeline log records as pruned.
pub open spec fn spec_pruned_names(log: Seq<char>) -> Set<Seq<char>> {
    pruned_upto(spec_lines(log), spec_lines(log).len() as int)
}

/// The source that one log line records as pruned.
fn pruned_name_of(line: &[char]) -> (r: Option<Vec<char>>)
    ensures
        r matches Some(n) ==> pruned_name(line@) == Some(n@),
        r is None ==> pruned_name(line@) is None,
{
    if let Some((_, n)) = split_once(line, &lit(" PRUNED verified PSP source: ")) {
        return Some(n);
    }
    if let Some((_, n)) = split_once(line, &lit(" PRUNED verified PS2 source: ")) {
        return Some(n);
    }
    if let Some((_, n)) = split_once(line, &lit(" PRUNED verified GameCube source: ")) {
        return Some(n);
    }
    if let Some((_, n)) = split_once(line, &lit(" PRUNED verified 3DS ZIP source: ")) {
        return Some(n);
    }
    None
}

/// The distinct sources that a pipeline log records as pruned, in increasing order.
pub fn pruned_source_names(log: &str) -> (r: Vec<String>)
    ensures
        strictly_sorted(r@.map_values(|s: String| s@)),
        forall|n: Seq<char>|
            r@.map_values(|s: String| s@).contains(n) <==> spec_pruned_names(log@).contains(n),
{
    let t = chars_of(log);
    let ls = lines(&t);
    let ghost lv = views(ls@);
    let mut names: Vec<Vec<char>> = Vec::new();
    let mut i: usize = 0;
    while i < ls.len()
        invariant
            i <= ls@.len(),
            lv == views(ls@),
            lv == spec_lines(log@),
            strictly_sorted(views(names@)),
            forall|n: Seq<char>| views(names@).contains(n) <==> pruned_upto(lv, i as int).contains(n),
        decreases ls@.len() - i,
    {
        assert(lv[i as int] == ls@[i as int]@);
        if let Some(n) = pruned_name_of(&ls[i]) {
            insert_sorted_unique(&mut names, n);
        }
        i += 1;
    }
    let mut out: Vec<String> = Vec::new();
    let mut k: usize = 0;
    while k < names.len()
        invariant
            k <= names@.len(),
            out@.map_values(|s: String| s@) == views(names@).take(k as int),
        decreases names@.len() - k,
    {
        let ghost before = out@;
        let name = string_of(&names[k]);
        assert(name@ == views(names@)[k as int]);
        out.push(name);
        assert(before.map_values(|s: String| s@) =~= views(names@).take(k as int));
        assert(out@.map_values(|s: String| s@) =~= before.map_values(|s: String| s@).push(
            name@,
        ));
        assert(out@.map_values(|s: String| s@) =~= views(names@).take(k + 1 as int));
        k += 1;
    }
    assert(views(names@).take(names@.len() as int) =~= views(names@));
    out
}

/// Whether a system supports publishing to a library and pruning its sources.
pub open spec fn spec_supports_library_actions(system: SystemKind) -> bool {
    match system {
        SystemKind::GameCube | SystemKind::Nintendo3ds | SystemKind::PlayStationPortable
        | SystemKind::PlayStation2 => true,
        SystemKind::WiiU => false,
    }
}

/// Whether a system supports publishing to a library and pruning its sources.
pub fn supports_library_actions(system: &SystemKind) -> (r: bool)
    ensures
        r == spec_supports_library_actions(*system),
{
    match system {
        SystemKind::GameCube | SystemKind::Nintendo3ds | SystemKind::PlayStationPortable
        | SystemKind::PlayStation2 => true,
        SystemKind::WiiU => false,
    }
}

/// What a profile is doing, from its service state and current activity.
pub open spec fn spec_activity(service: Seq<char>, current: Seq<char>) -> Seq<char> {
    if service == "active"@ && spec_starts_with(current, "group="@) {
        "processing"@
    } else if service == "active"@ && spec_starts_with(current, "waiting"@) {
        "waiting"@
    } else if service == "active"@ {
        "running"@
    } else {
        "stopped"@
    }
}

/// What a profile is doing: processing a group, waiting, running or stopped.
pub fn activity(service: &str, current: &str) -> (r: String)
    ensures
        r@ == spec_activity(service@, current@),
{
    let s = chars_of(service);
    let c = chars_of(current);
    let active = crate::text::chars_eq(&s, &lit("active"));
    let a = if active && starts_with(&c, &lit("group=")) {
        "processing"
    } else if active && starts_with(&c, &lit("waiting")) {
        "waiting"
    } else if active {
        "running"
    } else {
        "stopped"
    };
    a.to_owned()
}

/// The publication progress from the observed counts and the current activity; the
/// remaining count stops at zero.
pub fn publication_progress(
    published: usize,
    ready: usize,
    total: usize,
    partial_files: usize,
    current: &str,
) -> (r: PublicationProgress)
    ensures
        r.published == published,
        r.ready == ready,
        r.total == total,
        r.partial_files == partial_files,
        r.remaining == if published <= total {
            (total - published) as usize
        } else {
            0
        },
        r.phase@ == spec_publication_phase(current@, published as nat, total as nat),
        r.current_game matches Some(g) ==> step_game(current@, "step=publish-"@) == Some(g@),
        r.current_game is None ==> step_game(current@, "step=publish-"@) is None,
{
    let remaining = total.saturating_sub(published);
    let (phase, current_game) = publication_phase(current, published, total);
    PublicationProgress { published, ready, remaining, total, partial_files, phase, current_game }
}

/// The prune progress from the observed counts and the current activity; the total stops
/// at the largest number.
pub fn prune_progress(removed: usize, remaining: usize, current: &str) -> (r: PruneProgress)
    ensures
        r.removed == removed,
        r.remaining == remaining,
        r.total == if removed + remaining <= usize::MAX {
            (removed + remaining) as usize
        } else {
            usize::MAX
        },
        r.phase@ == spec_prune_phase(current@, removed as nat, remaining as nat),
        r.current_game matches Some(g) ==> step_game(current@, "step=prune-"@) == Some(g@),
        r.current_game is None ==> step_game(current@, "step=prune-"@) is None,
{
    let total = removed.saturating_add(remaining);
    let (phase, current_game) = prune_phase(current, removed, remaining);
    PruneProgress { removed, remaining, total, phase, current_game }
}

} // verus!
