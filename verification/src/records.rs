//! Checks and query shapes of the stored records: motion-array recipes, the
//! download log and the alarm log.

use vstd::prelude::*;
use vstd::string::StringExecFns;
use crate::arrays::{spec_validate, validate, ArrayError, CellValue};
use crate::text::{trim, trim_string};

verus! {

/// One alarm-log row.
#[derive(Debug, Clone)]
pub struct AlarmLogEntry {
    pub id: i64,
    pub addr: i64,
    pub name: String,
    /// `raised` (alarm came on) or `cleared` (alarm went off).
    pub kind: String,
    pub ts: String,
}

/// One recipe in the list (without its step data).
#[derive(Debug, Clone)]
pub struct RecipeMeta {
    pub id: i64,
    pub name: String,
    pub depth: u16,
    pub mode: u16,
    pub remark: Option<String>,
    pub updated_at: String,
}

/// One download-log row.
#[derive(Debug, Clone)]
pub struct DownloadLogEntry {
    pub id: i64,
    /// The recipe written, or `None` when the table was written without being saved.
    pub array_id: Option<i64>,
    pub ts: String,
    pub ok: bool,
    pub detail: Option<String>,
}

/// `v` held within `lo..=hi` (`Ord::clamp`).
pub open spec fn clamp_u32(v: u32, lo: u32, hi: u32) -> u32 {
    if v < lo {
        lo
    } else if v > hi {
        hi
    } else {
        v
    }
}

/// `v` held within `lo..=hi`.
fn clamp(v: u32, lo: u32, hi: u32) -> (r: u32)
    requires
        lo <= hi,
    ensures
        r == clamp_u32(v, lo, hi),
{
    if v < lo {
        lo
    } else if v > hi {
        hi
    } else {
        v
    }
}

/// Row limit of an alarm-log query: 500 when not given, held within 1..=2000.
pub fn alarm_log_limit(limit: Option<u32>) -> (n: u32)
    ensures
        n == clamp_u32(
            match limit {
                Some(v) => v,
                None => 500,
            },
            1,
            2000,
        ),
{
    let v = match limit {
        Some(v) => v,
        None => 500,
    };
    clamp(v, 1, 2000)
}

/// Row limit of a download-log query: 100 when not given, held within 1..=500.
pub fn download_log_limit(limit: Option<u32>) -> (n: u32)
    ensures
        n == clamp_u32(
            match limit {
                Some(v) => v,
                None => 100,
            },
            1,
            500,
        ),
{
    let v = match limit {
        Some(v) => v,
        None => 100,
    };
    clamp(v, 1, 500)
}

/// The alarm-log query: newest first, with a lower bound on the time stamp
/// (`?1`) and an upper one (`?2`) only where given, and a row limit (`?3`).
pub open spec fn spec_alarm_log_sql(has_begin: bool, has_end: bool) -> Seq<char> {
    "SELECT id, addr, name, kind, ts FROM alarm_log WHERE 1=1"@ + (if has_begin {
        " AND ts >= ?1"@
    } else {
        Seq::<char>::empty()
    }) + (if has_end {
        " AND ts <= ?2"@
    } else {
        Seq::<char>::empty()
    }) + " ORDER BY ts DESC, id DESC LIMIT ?3"@
}

/// The text of the alarm-log query.
pub fn alarm_log_sql(has_begin: bool, has_end: bool) -> (q: String)
    ensures
        q@ == spec_alarm_log_sql(has_begin, has_end),
{
    let mut q = String::from_str("SELECT id, addr, name, kind, ts FROM alarm_log WHERE 1=1");
    let ghost base = q@;
    if has_begin {
        q.append(" AND ts >= ?1");
    }
    let ghost mid = q@;
    assert(mid == base + (if has_begin {
        " AND ts >= ?1"@
    } else {
        Seq::<char>::empty()
    }));
    if has_end {
        q.append(" AND ts <= ?2");
    }
    let ghost late = q@;
    assert(late == mid + (if has_end {
        " AND ts <= ?2"@
    } else {
        Seq::<char>::empty()
    }));
    q.append(" ORDER BY ts DESC, id DESC LIMIT ?3");
    q
}

/// Why a recipe is refused.
#[derive(Debug, Clone, Copy, PartialEq, Eq, Structural)]
pub enum RecipeError {
    /// The step table fails the array checks.
    Array(ArrayError),
    /// The name is empty once trimmed.
    EmptyName,
    /// The stored steps do not match the stored depth.
    StepCount { found: usize, depth: u16 },
}

/// A recipe name as stored: trimmed, and not empty.
pub fn recipe_name(name: &str) -> (r: Result<String, RecipeError>)
    ensures
        trim(name@).len() == 0 ==> r == Err::<String, RecipeError>(RecipeError::EmptyName),
        trim(name@).len() > 0 ==> r is Ok && r->Ok_0@ == trim(name@),
{
    let t = trim_string(name);
    if t.as_str().is_empty() {
        Err(RecipeError::EmptyName)
    } else {
        Ok(t)
    }
}

/// The checks before a recipe is saved: the step table first, then the name.
/// Gives the name to store.
pub fn check_recipe(depth: u16, mode: u16, rows: &Vec<Vec<CellValue>>, name: &str) -> (r: Result<
    String,
    RecipeError,
>)
    ensures
        spec_validate(depth, mode, rows@) is Err ==> r == Err::<String, RecipeError>(
            RecipeError::Array(spec_validate(depth, mode, rows@)->Err_0),
        ),
        spec_validate(depth, mode, rows@) is Ok && trim(name@).len() == 0 ==> r == Err::<
            String,
            RecipeError,
        >(RecipeError::EmptyName),
        spec_validate(depth, mode, rows@) is Ok && trim(name@).len() > 0 ==> r is Ok && r->Ok_0@
            == trim(name@),
{
    match validate(depth, mode, rows) {
        Err(e) => Err(RecipeError::Array(e)),
        Ok(()) => recipe_name(name),
    }
}

/// The steps loaded for a recipe must number its depth.
pub fn check_step_count(found: usize, depth: u16) -> (r: Result<(), RecipeError>)
    ensures
        found == depth ==> r is Ok,
        found != depth ==> r == Err::<(), RecipeError>(RecipeError::StepCount { found, depth }),
{
    if found != depth as usize {
        Err(RecipeError::StepCount { found, depth })
    } else {
        Ok(())
    }
}

/// The alarm-log query's time bounds are independent: giving a begin time
/// inserts exactly the lower-bound condition `" AND ts >= ?1"` right after the
/// base query, and giving an end time inserts exactly the upper-bound condition
/// `" AND ts <= ?2"` right before the ordering and limit, whether or not the
/// other bound is given.
pub proof fn lemma_alarm_log_bounds(has_end: bool, has_begin: bool)
    ensures
        ({
            let base = "SELECT id, addr, name, kind, ts FROM alarm_log WHERE 1=1"@;
            let without = spec_alarm_log_sql(false, has_end);
            let with = spec_alarm_log_sql(true, has_end);
            &&& without.take(base.len() as int) == base
            &&& with == base + " AND ts >= ?1"@ + without.skip(base.len() as int)
        }),
        ({
            let tail = " ORDER BY ts DESC, id DESC LIMIT ?3"@;
            let without = spec_alarm_log_sql(has_begin, false);
            let with = spec_alarm_log_sql(has_begin, true);
            &&& without.len() >= tail.len()
            &&& without.skip(without.len() - tail.len()) == tail
            &&& with == without.take(without.len() - tail.len()) + " AND ts <= ?2"@ + tail
        }),
{
    let base = "SELECT id, addr, name, kind, ts FROM alarm_log WHERE 1=1"@;
    let lo = " AND ts >= ?1"@;
    let hi = " AND ts <= ?2"@;
    let tail = " ORDER BY ts DESC, id DESC LIMIT ?3"@;
    let e = if has_end {
        hi
    } else {
        Seq::<char>::empty()
    };
    let b = if has_begin {
        lo
    } else {
        Seq::<char>::empty()
    };
    let without = spec_alarm_log_sql(false, has_end);
    assert(without =~= base + (Seq::<char>::empty() + e + tail));
    assert(without.take(base.len() as int) =~= base);
    assert(without.skip(base.len() as int) =~= e + tail);
    assert(spec_alarm_log_sql(true, has_end) =~= base + lo + (e + tail));
    let w2 = spec_alarm_log_sql(has_begin, false);
    assert(w2 =~= (base + b) + tail);
    assert(w2.skip(w2.len() - tail.len()) =~= tail);
    assert(w2.take(w2.len() - tail.len()) =~= base + b);
    assert(spec_alarm_log_sql(has_begin, true) =~= (base + b) + hi + tail);
}

} // verus!
