//! Migration of the CCI files of a 3DS library to CIA files, in bounded batches that keep
//! every CCI file.
use vstd::prelude::*;

use crate::digest::{name_bytes, sha256_prefix_upper, spec_sha256};
use crate::domain::BatchPolicy;
use crate::manifest::{extension, spec_extension};
use crate::numbers::{decimal, decimal_chars, hex_chars};
use crate::order::{insert_sorted_unique, strictly_sorted};
use crate::preflight::same_word;
use crate::text::{append_chars, chars_of, eq_ignore_case, lit, string_of, views};

verus! {

/// What a migration batch did.
#[derive(Clone, Copy, Debug, Default, PartialEq, Eq)]
pub struct MigrationSummary {
    pub converted: usize,
    pub already_complete: usize,
    pub failed: usize,
}

/// How one CCI file fared.
#[derive(Clone, Debug, PartialEq, Eq)]
pub enum MigrationResult {
    /// The CCI file could not be inspected; the error's description.
    SourceFailed(String),
    /// The library already holds a CIA for it that passes validation.
    AlreadyComplete,
    /// The library holds a CIA for it that fails validation; the error's description.
    ExistingInvalid(String),
    /// A CIA was created, validated and published beside the CCI file.
    Converted,
    /// A stop was requested during the conversion.
    Interrupted,
    /// The conversion failed; the error's description.
    Failed(String),
}

impl MigrationSummary {
    /// A summary of nothing.
    pub fn new() -> (r: Self)
        ensures
            r == (MigrationSummary { converted: 0, already_complete: 0, failed: 0 }),
    {
        MigrationSummary { converted: 0, already_complete: 0, failed: 0 }
    }
}

/// Whether a CCI file name (`.cci` or `.3ds`, in any ASCII case) is migrated.
pub open spec fn spec_is_cci_name(name: Seq<char>) -> bool {
    spec_extension(name) matches Some(e) && (same_word(e, "cci"@) || same_word(e, "3ds"@))
}

/// Whether a file name is that of a CCI file.
pub fn is_cci_name(name: &String) -> (r: bool)
    ensures
        r == spec_is_cci_name(name@),
{
    match extension(name) {
        Some(e) => eq_ignore_case(&e, &lit("cci")) || eq_ignore_case(&e, &lit("3ds")),
        None => false,
    }
}

/// The CCI files among the names of a library's regular files, in the order in which a
/// batch takes them: increasing, each name once.
pub fn migration_order(names: &Vec<String>) -> (r: Vec<Vec<char>>)
    ensures
        strictly_sorted(views(r@)),
        forall|y: Seq<char>|
            views(r@).contains(y) <==> (spec_is_cci_name(y) && exists|i: int|
                0 <= i < names@.len() && #[trigger] names@[i]@ == y),
{
    let mut out: Vec<Vec<char>> = Vec::new();
    for i in 0..names.len()
        invariant
            strictly_sorted(views(out@)),
            forall|y: Seq<char>|
                #[trigger] views(out@).contains(y) <==> (spec_is_cci_name(y) && exists|k: int|
                    0 <= k < i && #[trigger] names@[k]@ == y),
    {
        let ghost before = views(out@);
        let ghost name = names@[i as int]@;
        let c = is_cci_name(&names[i]);
        if c {
            insert_sorted_unique(&mut out, chars_of(names[i].as_str()));
        }
        assert forall|y: Seq<char>|
            views(out@).contains(y) <==> (spec_is_cci_name(y) && exists|k: int|
                0 <= k < i + 1 && #[trigger] names@[k]@ == y) by {
            let old_side = spec_is_cci_name(y) && exists|k: int| 0 <= k < i && #[trigger] names@[k]@ == y;
            assert(before.contains(y) == old_side);
            if exists|k: int| 0 <= k < i + 1 && #[trigger] names@[k]@ == y {
                let k = choose|k: int| 0 <= k < i + 1 && #[trigger] names@[k]@ == y;
                if k < i {
                    assert(exists|q: int| 0 <= q < i && #[trigger] names@[q]@ == y);
                } else {
                    assert(y == name);
                }
            }
            if exists|k: int| 0 <= k < i && #[trigger] names@[k]@ == y {
                let k = choose|k: int| 0 <= k < i && #[trigger] names@[k]@ == y;
                assert(0 <= k < i + 1 && names@[k]@ == y);
            }
            if y == name {
                assert(0 <= i < i + 1 && names@[i as int]@ == y);
            }
            if c {
                assert(views(out@).contains(y) == (before.contains(y) || y == name));
            } else {
                assert(views(out@) == before);
            }
        }
    }
    out
}

/// The ID under which a migration records failures and keeps its work: the first eight
/// bytes of the SHA-256 digest of a name, in upper-case hexadecimal.
pub open spec fn spec_migration_id(value: Seq<char>) -> Seq<char> {
    hex_chars(spec_sha256(name_bytes(value)).take(8), true)
}

/// The migration ID of a name.
pub fn migration_id(value: &str) -> (r: String)
    ensures
        r@ == spec_migration_id(value@),
        r@.len() == 16,
{
    string_of(&sha256_prefix_upper(value, 8))
}

/// Whether a migration batch takes on another CCI file: no stop was requested and fewer
/// files than the limit were converted.
pub fn takes_next_source(stop_requested: bool, summary: &MigrationSummary, limit: BatchPolicy) -> (r:
    bool)
    ensures
        r == (!stop_requested && summary.converted < limit.spec_limit()),
{
    !stop_requested && summary.converted < limit.limit()
}

/// The summary after one file's result.
pub open spec fn spec_count_migration(s: MigrationSummary, result: MigrationResult) -> MigrationSummary {
    match result {
        MigrationResult::AlreadyComplete => MigrationSummary {
            already_complete: (s.already_complete + 1) as usize,
            ..s
        },
        MigrationResult::Converted => MigrationSummary { converted: (s.converted + 1) as usize, ..s },
        MigrationResult::Interrupted => s,
        _ => MigrationSummary { failed: (s.failed + 1) as usize, ..s },
    }
}

/// The counts stay within their type after one more result.
pub open spec fn migration_fits(s: MigrationSummary) -> bool {
    s.converted < usize::MAX && s.already_complete < usize::MAX && s.failed < usize::MAX
}

/// The failure that a result records against the file's migration ID, if any.
pub open spec fn migration_failure(result: MigrationResult) -> Option<Seq<char>> {
    match result {
        MigrationResult::SourceFailed(e) => Some("CCI migration source failed: "@ + e@),
        MigrationResult::ExistingInvalid(e) => Some("existing CIA failed: "@ + e@),
        MigrationResult::Failed(e) => Some("CCI migration failed: "@ + e@),
        _ => None,
    }
}

/// Counts one file's result; says whether the batch stops here (it was interrupted) and
/// which failure to record.
pub fn count_migration(summary: &mut MigrationSummary, result: MigrationResult) -> (r: (
    bool,
    Option<String>,
))
    requires
        migration_fits(*old(summary)),
    ensures
        *final(summary) == spec_count_migration(*old(summary), result),
        r.0 == (result is Interrupted),
        match migration_failure(result) {
            Some(m) => r.1 matches Some(f) && f@ == m,
            None => r.1 is None,
        },
{
    match result {
        MigrationResult::SourceFailed(e) => {
            summary.failed = summary.failed + 1;
            (false, Some(crate::error::text_with("CCI migration source failed: ", &chars_of(e.as_str()))))
        },
        MigrationResult::AlreadyComplete => {
            summary.already_complete = summary.already_complete + 1;
            (false, None)
        },
        MigrationResult::ExistingInvalid(e) => {
            summary.failed = summary.failed + 1;
            (false, Some(crate::error::text_with("existing CIA failed: ", &chars_of(e.as_str()))))
        },
        MigrationResult::Converted => {
            summary.converted = summary.converted + 1;
            (false, None)
        },
        MigrationResult::Interrupted => (true, None),
        MigrationResult::Failed(e) => {
            summary.failed = summary.failed + 1;
            (false, Some(crate::error::text_with("CCI migration failed: ", &chars_of(e.as_str()))))
        },
    }
}

/// A migration batch converts at most its limit of files: it takes a file only below the
/// limit, one result converts at most one file, and no result lowers a count.
pub proof fn lemma_migration_limit(s: MigrationSummary, result: MigrationResult, limit: BatchPolicy)
    requires
        s.converted < limit.spec_limit(),
        migration_fits(s),
    ensures
        spec_count_migration(s, result).converted <= limit.spec_limit(),
        spec_count_migration(s, result).converted <= s.converted + 1,
        spec_count_migration(s, result).already_complete >= s.already_complete,
        spec_count_migration(s, result).failed >= s.failed,
        (spec_count_migration(s, result).converted + spec_count_migration(s, result).already_complete
            + spec_count_migration(s, result).failed) == s.converted + s.already_complete + s.failed
            + (if result is Interrupted { 0int } else { 1int }),
{
}

/// The CIA file that a CCI file with this stem becomes: `<stem>.cia`.
pub fn cia_name(stem: &[char]) -> (r: String)
    ensures
        r@ == stem@ + ".cia"@,
{
    let v = crate::text::concat(stem, &lit(".cia"));
    string_of(&v)
}

/// The name of a migration's log: `migration-<id>.log`.
pub fn migration_log_name(id: &str) -> (r: String)
    ensures
        r@ == "migration-"@ + id@ + ".log"@,
{
    let mut v = lit("migration-");
    append_chars(&mut v, &chars_of(id));
    append_chars(&mut v, &lit(".log"));
    string_of(&v)
}

/// The current activity while a CIA is created.
pub fn migration_activity(id: &str, stem: &[char]) -> (r: String)
    ensures
        r@ == "migration="@ + id@ + " step=create-cia output="@ + stem@ + ".cia"@,
{
    let mut v = lit("migration=");
    append_chars(&mut v, &chars_of(id));
    append_chars(&mut v, &lit(" step=create-cia output="));
    append_chars(&mut v, stem);
    append_chars(&mut v, &lit(".cia"));
    string_of(&v)
}

/// The log entry of a published CIA.
pub fn migrated_message(source_name: &str, stem: &[char]) -> (r: String)
    ensures
        r@ == "MIGRATED preserved CCI and published CIA: "@ + source_name@ + " -> "@ + stem@
            + ".cia"@,
{
    let mut v = lit("MIGRATED preserved CCI and published CIA: ");
    append_chars(&mut v, &chars_of(source_name));
    append_chars(&mut v, &lit(" -> "));
    append_chars(&mut v, stem);
    append_chars(&mut v, &lit(".cia"));
    string_of(&v)
}

/// The current activity at the end of a batch.
pub open spec fn spec_batch_complete(s: MigrationSummary) -> Seq<char> {
    "migration batch complete converted="@ + decimal_chars(s.converted as nat) + " existing="@
        + decimal_chars(s.already_complete as nat) + " failed="@ + decimal_chars(s.failed as nat)
}

/// The current activity at the end of a batch.
pub fn batch_complete(s: &MigrationSummary) -> (r: String)
    ensures
        r@ == spec_batch_complete(*s),
{
    let mut v = lit("migration batch complete converted=");
    append_chars(&mut v, &decimal(s.converted as u64));
    append_chars(&mut v, &lit(" existing="));
    append_chars(&mut v, &decimal(s.already_complete as u64));
    append_chars(&mut v, &lit(" failed="));
    append_chars(&mut v, &decimal(s.failed as u64));
    string_of(&v)
}

} // verus!
