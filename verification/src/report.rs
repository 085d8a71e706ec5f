//! The table that shows which users meet which requirements of a badge.

use vstd::prelude::*;
use vstd::string::*;
use crate::analyzer::describe::{format_outcome, names, Names};
use crate::analyzer::evaluation::{Outcome, Step};
use crate::analyzer::role_definition::BadgeDefinition;
use crate::analyzer::user::{
    badge_views, describes, has_detail, met_views, with_detail, AnalyzedUser, AnalyzedUserBadge,
    BadgeView, MetRequirement, MetRequirementView,
};
use crate::boards::srcom::SrComBoardsState;
use crate::error::RoleManagerError;
use crate::text::{decimal, texts, u64_to_string};

verus! {

/// The header `header` with the descriptions of the requirements of `badge`
/// from position `j` on.
pub open spec fn header_from(
    known: Names,
    badge: BadgeDefinition,
    j: int,
    header: Seq<Seq<char>>,
) -> Outcome<Seq<Seq<char>>>
    decreases badge.requirements@.len() - j,
{
    if 0 <= j < badge.requirements@.len() {
        match format_outcome(known, badge.requirements@[j]) {
            Outcome::Done(description) => header_from(known, badge, j + 1, header.push(description)),
            Outcome::Need(needed) => Outcome::Need(needed),
            Outcome::Failed(failure) => Outcome::Failed(failure),
        }
    } else {
        Outcome::Done(header)
    }
}

/// The header of the table of `badge`: the user, the number of met
/// requirements, then each requirement.
pub open spec fn spec_report_header(known: Names, badge: BadgeDefinition) -> Outcome<
    Seq<Seq<char>>,
> {
    header_from(known, badge, 0, seq!["Discord User"@, "Num Reqs Satisfied"@])
}

/// The header of the table of `badge`, with the names that are cached and
/// fresh at `now`.
#[verifier::loop_isolation(false)]
pub fn report_header(badge: &BadgeDefinition, srcom_state: &SrComBoardsState, now: i64) -> (result:
    Result<Step<Vec<String>>, RoleManagerError>)
    ensures
        match result {
            Ok(Step::Done(header)) => spec_report_header(names(srcom_state, now), *badge)
                == Outcome::Done(texts(header@)),
            Ok(Step::Need(needed)) => spec_report_header(names(srcom_state, now), *badge)
                == Outcome::<Seq<Seq<char>>>::Need(needed@),
            Err(e) => spec_report_header(names(srcom_state, now), *badge) matches Outcome::Failed(
                failure,
            ) && describes(failure, e.cause@) && !e.report_via_edit,
        },
{
    let ghost known = names(srcom_state, now);
    let mut header: Vec<String> = Vec::new();
    header.push(String::from_str("Discord User"));
    header.push(String::from_str("Num Reqs Satisfied"));
    proof {
        assert(texts(header@) =~= seq!["Discord User"@, "Num Reqs Satisfied"@]);
    }
    let n = badge.requirements.len();
    let mut j: usize = 0;
    while j < n
        invariant
            j <= n,
            spec_report_header(known, *badge) == header_from(
                known,
                *badge,
                j as int,
                texts(header@),
            ),
        decreases n - j,
    {
        let ghost before = texts(header@);
        let description = match badge.requirements[j].format(srcom_state, now) {
            Ok(Step::Done(description)) => description,
            Ok(Step::Need(needed)) => {
                return Ok(Step::Need(needed));
            },
            Err(e) => {
                return Err(e);
            },
        };
        header.push(description);
        proof {
            assert(texts(header@) =~= before.push(description@));
        }
        j = j + 1;
    }
    Ok(Step::Done(header))
}

/// Whether the requirement at position `j` of its badge is among `met`.
pub open spec fn is_met(met: Seq<MetRequirementView>, j: int) -> bool {
    exists|k: int| 0 <= k < met.len() && (#[trigger] met[k]).index == j
}

/// How many of the first `n` requirements of a badge are among `met`.
pub open spec fn met_count(met: Seq<MetRequirementView>, n: int) -> nat
    decreases n,
{
    if n <= 0 {
        0
    } else if is_met(met, n - 1) {
        met_count(met, n - 1) + 1
    } else {
        met_count(met, n - 1)
    }
}

/// The word for a requirement that is met, or is not.
pub open spec fn flag(met: bool) -> Seq<char> {
    if met {
        "true"@
    } else {
        "false"@
    }
}

/// The row of a user who has earned `badge` by `met`: the user's name, the
/// number of met requirements, then for each requirement whether it is met.
pub open spec fn row_of(name: Seq<char>, badge: BadgeDefinition, met: Seq<MetRequirementView>) -> Seq<
    Seq<char>,
> {
    seq![name, decimal(met_count(met, badge.requirements@.len() as int))] + Seq::new(
        badge.requirements@.len(),
        |j: int| flag(is_met(met, j)),
    )
}

/// The earned badge at position `index` of the definition: the first of
/// `badges` from position `k` on that is it.
pub open spec fn earned_from(badges: Seq<BadgeView>, index: int, k: int) -> Option<BadgeView>
    decreases badges.len() - k,
{
    if 0 <= k < badges.len() {
        if badges[k].index == index {
            Some(badges[k])
        } else {
            earned_from(badges, index, k + 1)
        }
    } else {
        None
    }
}

/// The row of the user in the table of the badge at position `index`, or
/// `None` where the user has not earned the badge.
pub open spec fn spec_report_row(
    name: Seq<char>,
    index: int,
    badge: BadgeDefinition,
    badges: Seq<BadgeView>,
) -> Option<Seq<Seq<char>>> {
    match earned_from(badges, index, 0) {
        Some(earned) => Some(row_of(name, badge, earned.met_requirements)),
        None => None,
    }
}

fn met_at<'a>(met: &Vec<MetRequirement<'a>>, j: usize) -> (found: bool)
    ensures
        found == is_met(met_views(met@), j as int),
{
    let n = met.len();
    let mut k: usize = 0;
    while k < n
        invariant
            k <= n,
            n == met@.len(),
            forall|i: int| 0 <= i < k ==> met_views(met@)[i].index != j,
        decreases n - k,
    {
        if met[k].index == j {
            assert(met_views(met@)[k as int].index == j);
            return true;
        }
        k = k + 1;
    }
    false
}

fn find_earned<'a>(badges: &Vec<AnalyzedUserBadge<'a>>, index: usize) -> (at: Option<usize>)
    ensures
        match at {
            Some(k) => k < badges@.len() && earned_from(badge_views(badges@), index as int, 0)
                == Some(badges@[k as int]@),
            None => earned_from(badge_views(badges@), index as int, 0) is None,
        },
{
    let ghost views = badge_views(badges@);
    let n = badges.len();
    let mut k: usize = 0;
    while k < n
        invariant
            k <= n,
            n == badges@.len(),
            views == badge_views(badges@),
            earned_from(views, index as int, 0) == earned_from(views, index as int, k as int),
        decreases n - k,
    {
        if badges[k].index == index {
            return Some(k);
        }
        k = k + 1;
    }
    None
}

/// The row of a user in the table of the badge `badge`, which stands at
/// position `index` of the definition; `None` where the user has not earned
/// the badge.
pub fn report_row<'a>(
    user_name: &str,
    index: usize,
    badge: &BadgeDefinition,
    analysis: &AnalyzedUser<'a>,
) -> (row: Option<Vec<String>>)
    ensures
        match row {
            Some(cells) => spec_report_row(user_name@, index as int, *badge, analysis@.badges)
                == Some(texts(cells@)),
            None => spec_report_row(user_name@, index as int, *badge, analysis@.badges) is None,
        },
{
    let ghost badges = analysis@.badges;
    let at = find_earned(&analysis.badges, index);
    let earned = match at {
        Some(k) => &analysis.badges[k],
        None => {
            return None;
        },
    };
    let ghost met = met_views(earned.met_requirements@);
    let mut flags: Vec<String> = Vec::new();
    let mut count: u64 = 0;
    let m = badge.requirements.len();
    let mut j: usize = 0;
    proof {
        assert(texts(flags@) =~= Seq::new(0, |i: int| flag(is_met(met, i))));
    }
    while j < m
        invariant
            j <= m,
            m == badge.requirements@.len(),
            met == met_views(earned.met_requirements@),
            count == met_count(met, j as int),
            count <= j,
            texts(flags@) == Seq::new(j as nat, |i: int| flag(is_met(met, i))),
        decreases m - j,
    {
        let ghost before = texts(flags@);
        let word = if met_at(&earned.met_requirements, j) {
            count = count + 1;
            String::from_str("true")
        } else {
            String::from_str("false")
        };
        flags.push(word);
        j = j + 1;
        proof {
            assert(texts(flags@) =~= before.push(word@));
            assert(texts(flags@) =~= Seq::new(j as nat, |i: int| flag(is_met(met, i))));
        }
    }
    let mut cells: Vec<String> = Vec::new();
    cells.push(String::from_str(user_name));
    cells.push(u64_to_string(count));
    let ghost head = texts(cells@);
    let mut i: usize = 0;
    let total = flags.len();
    while i < total
        invariant
            i <= total,
            total == flags@.len(),
            texts(cells@) == head + texts(flags@).take(i as int),
        decreases total - i,
    {
        let ghost before = texts(cells@);
        let word = flags[i].clone();
        cells.push(word);
        proof {
            assert(texts(cells@) =~= before.push(flags@[i as int]@));
            assert(texts(cells@) =~= head + texts(flags@).take(i + 1));
        }
        i = i + 1;
    }
    proof {
        assert(texts(flags@).take(total as int) =~= texts(flags@));
        assert(head =~= seq![user_name@, decimal(met_count(met, m as int))]);
    }
    Some(cells)
}

/// A CSV document in the making: a `csv::Writer` over a buffer in memory.
#[verifier::external_body]
pub struct CsvTable {
    writer: csv::Writer<Vec<u8>>,
}

/// The records that have been written to a CSV document in the making, each
/// a list of fields.
pub uninterp spec fn csv_rows(writer: CsvTable) -> Seq<Seq<Seq<char>>>;

/// The bytes of the CSV document that holds the given records, as the `csv`
/// crate writes it with its default settings.
pub uninterp spec fn csv_document(rows: Seq<Seq<Seq<char>>>) -> Seq<u8>;

/// Whether a record of `len` fields may follow `rows`: every record has as
/// many fields as the first.
pub open spec fn fits(rows: Seq<Seq<Seq<char>>>, len: nat) -> bool {
    rows.len() == 0 || rows[0].len() == len
}

/// Calls `csv::Writer::from_writer` on an empty buffer: a writer to which no
/// record has been written.
#[verifier::external_body]
fn csv_writer() -> (writer: CsvTable)
    ensures
        csv_rows(writer) == Seq::<Seq<Seq<char>>>::empty(),
{
    CsvTable { writer: csv::Writer::from_writer(Vec::new()) }
}

/// Calls `csv::Writer::write_record`. The writer takes the record if it has
/// as many fields as the first record had, and refuses it if it has not. A
/// writer that has refused a record is given up.
#[verifier::external_body]
fn csv_write(writer: CsvTable, record: &Vec<String>) -> (written: Result<CsvTable, String>)
    ensures
        written matches Ok(after) ==> fits(csv_rows(writer), record@.len()) && csv_rows(after)
            == csv_rows(writer).push(texts(record@)),
        !fits(csv_rows(writer), record@.len()) ==> written is Err,
{
    let mut table = writer;
    match table.writer.write_record(record) {
        Ok(()) => Ok(table),
        Err(e) => Err(e.to_string()),
    }
}

/// Calls `csv::Writer::into_inner`, which hands out the bytes of the
/// document with the records that were written.
#[verifier::external_body]
fn csv_finish(writer: CsvTable) -> (document: Result<Vec<u8>, String>)
    ensures
        document matches Ok(bytes) ==> bytes@ == csv_document(csv_rows(writer)),
{
    writer.writer.into_inner().map_err(|e| e.to_string())
}

/// The texts of the fields of a list of records.
pub open spec fn row_texts(rows: Seq<Vec<String>>) -> Seq<Seq<Seq<char>>> {
    rows.map_values(|r: Vec<String>| texts(r@))
}

/// Whether every one of `rows` has `len` fields.
pub open spec fn all_have(rows: Seq<Vec<String>>, len: nat) -> bool {
    forall|i: int| 0 <= i < rows.len() ==> (#[trigger] rows[i])@.len() == len
}

/// The table of a badge as a CSV document: the header, then the rows.
///
/// Every row must have as many fields as the header; a table in which one
/// has not is refused. The bytes are those that the `csv` crate gives.
pub fn report_document(header: &Vec<String>, rows: &Vec<Vec<String>>) -> (document: Result<
    Vec<u8>,
    crate::error::RoleManagerError,
>)
    ensures
        !all_have(rows@, header@.len()) ==> document is Err,
        match document {
            Ok(bytes) => all_have(rows@, header@.len()) && bytes@ == csv_document(
                seq![texts(header@)] + row_texts(rows@),
            ),
            Err(e) => (has_detail(e.cause@, "Failed to write to report: "@, Seq::empty())
                || has_detail(e.cause@, "Failed to generate report: "@, Seq::empty()))
                && !e.report_via_edit,
        },
{
    let mut writer = match csv_write(csv_writer(), header) {
        Ok(writer) => writer,
        Err(detail) => {
            return Err(write_failure(detail));
        },
    };
    let n = rows.len();
    let mut i: usize = 0;
    proof {
        assert(csv_rows(writer) =~= seq![texts(header@)] + row_texts(rows@).take(0));
    }
    while i < n
        invariant
            i <= n,
            n == rows@.len(),
            csv_rows(writer) == seq![texts(header@)] + row_texts(rows@).take(i as int),
            forall|j: int| 0 <= j < i ==> (#[trigger] rows@[j])@.len() == header@.len(),
        decreases n - i,
    {
        let ghost before = csv_rows(writer);
        assert(before[0] == texts(header@));
        writer = match csv_write(writer, &rows[i]) {
            Ok(writer) => writer,
            Err(detail) => {
                return Err(write_failure(detail));
            },
        };
        proof {
            assert(csv_rows(writer) =~= seq![texts(header@)] + row_texts(rows@).take(i + 1));
        }
        i = i + 1;
    }
    proof {
        assert(row_texts(rows@).take(n as int) =~= row_texts(rows@));
    }
    match csv_finish(writer) {
        Ok(bytes) => Ok(bytes),
        Err(detail) => {
            let mut cause = String::from_str("Failed to generate report: ");
            cause.append(detail.as_str());
            proof {
                assert(cause@ =~= with_detail(
                    "Failed to generate report: "@,
                    detail@,
                    Seq::empty(),
                ));
            }
            Err(crate::error::RoleManagerError::new(cause))
        },
    }
}

fn write_failure(detail: String) -> (e: crate::error::RoleManagerError)
    ensures
        has_detail(e.cause@, "Failed to write to report: "@, Seq::empty()),
        !e.report_via_edit,
{
    let mut cause = String::from_str("Failed to write to report: ");
    cause.append(detail.as_str());
    proof {
        assert(cause@ =~= with_detail("Failed to write to report: "@, detail@, Seq::empty()));
    }
    crate::error::RoleManagerError::new(cause)
}

} // verus!
