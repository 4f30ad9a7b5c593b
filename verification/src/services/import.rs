//! Importing a device list from CSV.
//!
//! The header row must name at least `ip_address`, `username`, `password`
//! and `brand` (in any ASCII case); `note` and `groups` are optional, and
//! `groups` holds group names separated by `;`. Every data row is handled on
//! its own: a row that cannot be read or names an unsupported brand is
//! reported as failed, and the others become devices to create. Rows are
//! numbered from 1, not counting the header.
use vstd::prelude::*;

use crate::error::AppError;
use crate::models::{Brand, NewDevice};
use crate::text::{
    chars_of, eq_ignore_ascii_case, owned, push_str, spec_eq_ignore_ascii_case, spec_split,
    spec_trim, split_char, trim,
};

verus! {

// ---------------------------------------------------------------------------
// Reading the CSV text
// ---------------------------------------------------------------------------
/// The header and data rows read from a CSV text; a row that could not be
/// read holds the text of its error.
#[derive(Debug, Clone)]
pub struct CsvTable {
    pub headers: Vec<String>,
    pub records: Vec<Result<Vec<String>, String>>,
}

pub open spec fn strings_view(v: Seq<String>) -> Seq<Seq<char>> {
    v.map_values(|s: String| s@)
}

pub open spec fn record_view(r: Result<Vec<String>, String>) -> Result<Seq<Seq<char>>, Seq<char>> {
    match r {
        Ok(fields) => Ok(strings_view(fields@)),
        Err(e) => Err(e@),
    }
}

/// A CSV table as character sequences.
pub struct CsvTableView {
    pub headers: Seq<Seq<char>>,
    pub records: Seq<Result<Seq<Seq<char>>, Seq<char>>>,
}

impl View for CsvTable {
    type V = CsvTableView;

    open spec fn view(&self) -> CsvTableView {
        CsvTableView {
            headers: strings_view(self.headers@),
            records: self.records@.map_values(|r: Result<Vec<String>, String>| record_view(r)),
        }
    }
}

/// What the `csv` crate reads from `content` with a header row, every field
/// trimmed when `trim_fields` (`ReaderBuilder::trim(Trim::All)`, otherwise
/// `Trim::None`): the table, or the text of the error met while reading the
/// header row.
pub uninterp spec fn spec_csv_read(content: Seq<char>, trim_fields: bool) -> Result<CsvTableView, Seq<char>>;

/// Reads `content` with `csv::ReaderBuilder` (header row, `Trim::All` when
/// `trim_fields`, else `Trim::None`): the header fields, and each record's
/// fields or error text.
#[verifier::external_body]
fn csv_read(content: &str, trim_fields: bool) -> (r: Result<CsvTable, String>)
    ensures
        r matches Ok(t) ==> spec_csv_read(content@, trim_fields) matches Ok(v) && v == t@,
        r matches Err(e) ==> spec_csv_read(content@, trim_fields) matches Err(m) && m == e@,
{
    let trim = if trim_fields { csv::Trim::All } else { csv::Trim::None };
    let mut reader = csv::ReaderBuilder::new().trim(trim).from_reader(content.as_bytes());
    let headers = reader.headers().map_err(|e| e.to_string())?;
    let headers = headers.iter().map(|h| h.to_string()).collect();
    let records = reader.records().map(
        |rec| rec.map(|fs| fs.iter().map(|f| f.to_string()).collect()).map_err(|e| e.to_string()),
    ).collect();
    Ok(CsvTable { headers, records })
}

// ---------------------------------------------------------------------------
// Columns
// ---------------------------------------------------------------------------
/// The index of the first header equal to `name` ignoring ASCII case.
pub open spec fn spec_find_header(hs: Seq<Seq<char>>, name: Seq<char>) -> Option<nat>
    decreases hs.len(),
{
    if hs.len() == 0 {
        None
    } else if spec_eq_ignore_ascii_case(hs[0], name) {
        Some(0)
    } else {
        match spec_find_header(hs.drop_first(), name) {
            Some(i) => Some(i + 1),
            None => None,
        }
    }
}

proof fn lemma_find_header(hs: Seq<Seq<char>>, name: Seq<char>, i: int)
    requires
        0 <= i <= hs.len(),
        forall|k: int| 0 <= k < i ==> !spec_eq_ignore_ascii_case(#[trigger] hs[k], name),
        i < hs.len() ==> spec_eq_ignore_ascii_case(hs[i], name),
    ensures
        spec_find_header(hs, name) == (if i == hs.len() {
            None
        } else {
            Some(i as nat)
        }),
    decreases i,
{
    if i > 0 {
        assert forall|k: int| 0 <= k < i - 1 implies !spec_eq_ignore_ascii_case(
            #[trigger] hs.drop_first()[k],
            name,
        ) by {
            assert(hs.drop_first()[k] == hs[k + 1]);
        }
        lemma_find_header(hs.drop_first(), name, i - 1);
    }
}

/// The first header named `name` (ignoring ASCII case).
fn find_header(headers: &Vec<String>, name: &str) -> (r: Option<usize>)
    ensures
        match spec_find_header(strings_view(headers@), name@) {
            Some(i) => r == Some(i as usize),
            None => r is None,
        },
{
    let ghost hs = strings_view(headers@);
    let mut i: usize = 0;
    while i < headers.len()
        invariant
            i <= headers@.len(),
            hs == strings_view(headers@),
            hs.len() == headers@.len(),
            forall|k: int| 0 <= k < i ==> !spec_eq_ignore_ascii_case(#[trigger] hs[k], name@),
        decreases headers.len() - i,
    {
        let hc = chars_of(headers[i].as_str());
        if eq_ignore_ascii_case(hc.as_slice(), name) {
            proof {
                lemma_find_header(hs, name@, i as int);
            }
            return Some(i);
        }
        i = i + 1;
    }
    proof {
        lemma_find_header(hs, name@, i as int);
    }
    None
}

/// Where the columns are.
#[derive(Debug, Clone, Copy)]
pub struct Columns {
    pub ip: usize,
    pub user: usize,
    pub pass: usize,
    pub brand: usize,
    pub note: Option<usize>,
    pub groups: Option<usize>,
}

pub open spec fn opt_usize(o: Option<nat>) -> Option<usize> {
    match o {
        Some(i) => Some(i as usize),
        None => None,
    }
}

/// Locates the columns; a missing required column is named in the error.
pub open spec fn spec_columns(hs: Seq<Seq<char>>) -> Result<Columns, Seq<char>> {
    match spec_find_header(hs, "ip_address"@) {
        None => Err("缺少必要欄位 ip_address"@),
        Some(ip) => match spec_find_header(hs, "username"@) {
            None => Err("缺少必要欄位 username"@),
            Some(user) => match spec_find_header(hs, "password"@) {
                None => Err("缺少必要欄位 password"@),
                Some(pass) => match spec_find_header(hs, "brand"@) {
                    None => Err("缺少必要欄位 brand"@),
                    Some(brand) => Ok(
                        Columns {
                            ip: ip as usize,
                            user: user as usize,
                            pass: pass as usize,
                            brand: brand as usize,
                            note: opt_usize(spec_find_header(hs, "note"@)),
                            groups: opt_usize(spec_find_header(hs, "groups"@)),
                        },
                    ),
                },
            },
        },
    }
}

fn parse_error(msg: &str) -> (e: AppError)
    ensures
        e matches AppError::Parse(d) && d@ == msg@,
{
    AppError::Parse(owned(msg))
}

fn columns(headers: &Vec<String>) -> (r: Result<Columns, AppError>)
    ensures
        match spec_columns(strings_view(headers@)) {
            Ok(c) => r == Ok::<Columns, AppError>(c),
            Err(m) => r matches Err(AppError::Parse(d)) && d@ == m,
        },
{
    let ip = match find_header(headers, "ip_address") {
        Some(i) => i,
        None => return Err(parse_error("缺少必要欄位 ip_address")),
    };
    let user = match find_header(headers, "username") {
        Some(i) => i,
        None => return Err(parse_error("缺少必要欄位 username")),
    };
    let pass = match find_header(headers, "password") {
        Some(i) => i,
        None => return Err(parse_error("缺少必要欄位 password")),
    };
    let brand = match find_header(headers, "brand") {
        Some(i) => i,
        None => return Err(parse_error("缺少必要欄位 brand")),
    };
    let note = find_header(headers, "note");
    let groups = find_header(headers, "groups");
    Ok(Columns { ip, user, pass, brand, note, groups })
}

// ---------------------------------------------------------------------------
// Rows
// ---------------------------------------------------------------------------
/// The trimmed field `idx` of a row; a missing field reads as empty.
pub open spec fn spec_field(fields: Seq<Seq<char>>, idx: int) -> Seq<char> {
    if 0 <= idx < fields.len() {
        spec_trim(fields[idx])
    } else {
        spec_trim(Seq::empty())
    }
}

fn field(fields: &Vec<String>, idx: usize) -> (r: String)
    ensures
        r@ == spec_field(strings_view(fields@), idx as int),
{
    if idx < fields.len() {
        trim(fields[idx].as_str())
    } else {
        proof {
            reveal_strlit("");
        }
        trim("")
    }
}

/// The names in a `groups` field: the pieces between `;`, trimmed, without
/// the empty ones.
pub open spec fn spec_group_names(raw: Seq<char>) -> Seq<Seq<char>> {
    nonempty_trimmed(spec_split(raw, ';'))
}

/// The trimmed pieces that are not empty, in order.
pub open spec fn nonempty_trimmed(pieces: Seq<Seq<char>>) -> Seq<Seq<char>>
    decreases pieces.len(),
{
    if pieces.len() == 0 {
        Seq::empty()
    } else {
        let rest = nonempty_trimmed(pieces.drop_last());
        let t = spec_trim(pieces.last());
        if t.len() > 0 {
            rest.push(t)
        } else {
            rest
        }
    }
}

/// The group names given in a `groups` field.
pub fn group_names(raw: &str) -> (r: Vec<String>)
    ensures
        strings_view(r@) == spec_group_names(raw@),
{
    let cs = chars_of(raw);
    let pieces = split_char(cs.as_slice(), ';');
    let ghost ps = spec_split(raw@, ';');
    let mut r: Vec<String> = Vec::new();
    let mut i: usize = 0;
    while i < pieces.len()
        invariant
            i <= pieces@.len(),
            pieces@.len() == ps.len(),
            forall|k: int| 0 <= k < pieces@.len() ==> #[trigger] pieces@[k]@ == ps[k],
            strings_view(r@) == nonempty_trimmed(ps.take(i as int)),
        decreases pieces.len() - i,
    {
        let t = trim(pieces[i].as_str());
        let ghost before = strings_view(r@);
        assert(ps.take(i + 1).drop_last() =~= ps.take(i as int));
        assert(ps.take(i + 1).last() == ps[i as int]);
        if !t.as_str().is_empty() {
            r.push(t);
            assert(strings_view(r@) =~= before.push(t@));
        }
        i = i + 1;
    }
    assert(ps.take(i as int) =~= ps);
    r
}

/// What to do with one data row.
#[derive(Debug, Clone)]
pub enum RowPlan {
    /// The row fails for the given reason.
    Reject { row: usize, reason: String },
    /// A device to create, then to assign to the named groups (if any).
    Create { row: usize, device: NewDevice, groups: Vec<String> },
}

/// The note column, when present and not empty.
pub open spec fn spec_note(fields: Seq<Seq<char>>, cols: Columns) -> Option<Seq<char>> {
    match cols.note {
        Some(k) => if spec_field(fields, k as int).len() > 0 {
            Some(spec_field(fields, k as int))
        } else {
            None
        },
        None => None,
    }
}

/// The group names of a row.
pub open spec fn spec_row_groups(fields: Seq<Seq<char>>, cols: Columns) -> Seq<Seq<char>> {
    match cols.groups {
        Some(k) => spec_group_names(spec_field(fields, k as int)),
        None => Seq::empty(),
    }
}

pub open spec fn opt_string_view(o: Option<String>) -> Option<Seq<char>> {
    match o {
        Some(s) => Some(s@),
        None => None,
    }
}

/// `plan` is what row `row` (read as `rec`) calls for.
pub open spec fn row_planned(
    cols: Columns,
    row: usize,
    rec: Result<Seq<Seq<char>>, Seq<char>>,
    plan: RowPlan,
) -> bool {
    match rec {
        Err(e) => plan matches RowPlan::Reject { row: r, reason } && r == row && reason@
            == "資料列解析失敗："@ + e,
        Ok(fields) => {
            let brand_raw = spec_field(fields, cols.brand as int);
            match Brand::spec_parse(brand_raw) {
                None => plan matches RowPlan::Reject { row: r, reason } && r == row && reason@
                    == "不支援的品牌："@ + brand_raw,
                Some(b) => plan matches RowPlan::Create { row: r, device, groups } && r == row
                    && device.ip_address@ == spec_field(fields, cols.ip as int)
                    && device.username@ == spec_field(fields, cols.user as int)
                    && device.password@ == spec_field(fields, cols.pass as int)
                    && opt_string_view(device.note) == spec_note(fields, cols) && device.brand == b
                    && strings_view(groups@) == spec_row_groups(fields, cols),
            }
        },
    }
}

fn plan_row(cols: Columns, row: usize, rec: &Result<Vec<String>, String>) -> (p: RowPlan)
    ensures
        row_planned(cols, row, record_view(*rec), p),
{
    match rec {
        Err(e) => {
            let mut reason = owned("資料列解析失敗：");
            push_str(&mut reason, e.as_str());
            RowPlan::Reject { row, reason }
        },
        Ok(fields) => {
            let brand_raw = field(fields, cols.brand);
            match Brand::parse(brand_raw.as_str()) {
                None => {
                    let mut reason = owned("不支援的品牌：");
                    push_str(&mut reason, brand_raw.as_str());
                    RowPlan::Reject { row, reason }
                },
                Some(brand) => {
                    let note = match cols.note {
                        Some(k) => {
                            let n = field(fields, k);
                            if n.as_str().is_empty() {
                                None
                            } else {
                                Some(n)
                            }
                        },
                        None => None,
                    };
                    let groups = match cols.groups {
                        Some(k) => {
                            let raw = field(fields, k);
                            group_names(raw.as_str())
                        },
                        None => Vec::new(),
                    };
                    proof {
                        if cols.groups is None {
                            assert(strings_view(groups@) =~= Seq::<Seq<char>>::empty());
                        }
                    }
                    let device = NewDevice {
                        ip_address: field(fields, cols.ip),
                        username: field(fields, cols.user),
                        password: field(fields, cols.pass),
                        note,
                        brand,
                    };
                    RowPlan::Create { row, device, groups }
                },
            }
        },
    }
}

/// What the import of `content` calls for: the reading and column errors,
/// or one plan per data row.
pub open spec fn import_planned(content: Seq<char>, r: Result<Vec<RowPlan>, AppError>) -> bool {
    match spec_csv_read(content, true) {
        Err(e) => r matches Err(AppError::Parse(d)) && d@ == "CSV 表頭解析失敗："@ + e,
        Ok(t) => match spec_columns(t.headers) {
            Err(m) => r matches Err(AppError::Parse(d)) && d@ == m,
            Ok(cols) => r matches Ok(plans) && plans@.len() == t.records.len() && forall|i: int|
                0 <= i < plans@.len() ==> row_planned(
                    cols,
                    (i + 1) as usize,
                    t.records[i],
                    #[trigger] plans@[i],
                ),
        },
    }
}

/// Reads a CSV device list and decides, row by row, what is to be done.
pub fn plan_import(content: &str) -> (r: Result<Vec<RowPlan>, AppError>)
    ensures
        import_planned(content@, r),
{
    let table = match csv_read(content, true) {
        Err(e) => {
            let mut d = owned("CSV 表頭解析失敗：");
            push_str(&mut d, e.as_str());
            return Err(AppError::Parse(d));
        },
        Ok(t) => t,
    };
    let cols = columns(&table.headers)?;
    let ghost tv = table@;
    let mut plans: Vec<RowPlan> = Vec::new();
    let mut i: usize = 0;
    while i < table.records.len()
        invariant
            tv == table@,
            i <= table.records@.len(),
            plans@.len() == i,
            forall|k: int|
                0 <= k < i ==> row_planned(
                    cols,
                    (k + 1) as usize,
                    tv.records[k],
                    #[trigger] plans@[k],
                ),
        decreases table.records.len() - i,
    {
        if i == usize::MAX {
            // unreachable: a vector never holds usize::MAX elements
            assert(false) by {
                assert(table.records@.len() <= usize::MAX);
            }
        }
        let p = plan_row(cols, i + 1, &table.records[i]);
        assert(tv.records[i as int] == record_view(table.records@[i as int]));
        plans.push(p);
        i = i + 1;
    }
    Ok(plans)
}

// ---------------------------------------------------------------------------
// Result
// ---------------------------------------------------------------------------
/// A row that failed, and why.
#[derive(Debug, Clone)]
pub struct ImportFailure {
    /// The data row number, counted from 1 without the header.
    pub row: usize,
    pub reason: String,
}

/// The outcome of an import: how many devices were created, and the failed
/// rows.
#[derive(Debug, Clone)]
pub struct ImportResult {
    pub success: usize,
    pub failed: Vec<ImportFailure>,
}

impl ImportResult {
    /// Nothing imported yet.
    pub fn new() -> (r: ImportResult)
        ensures
            r.success == 0,
            r.failed@.len() == 0,
    {
        ImportResult { success: 0, failed: Vec::new() }
    }
}

/// How one row ended.
#[derive(Debug, Clone)]
pub enum RowOutcome {
    /// The row was refused before any device was created.
    Rejected(String),
    /// Creating the device failed.
    CreateFailed(AppError),
    /// The device was created (and its groups assigned, if any).
    Created,
    /// The device was created but assigning its groups failed.
    GroupsFailed(AppError),
}

/// `new` is `old` with one more failure for `row` with the given reason.
pub open spec fn failure_added(
    old: Seq<ImportFailure>,
    new: Seq<ImportFailure>,
    row: usize,
    reason: Seq<char>,
) -> bool {
    &&& new.len() == old.len() + 1
    &&& new.take(old.len() as int) == old
    &&& new.last().row == row
    &&& new.last().reason@ == reason
}

/// Records how row `row` ended: a refused row or a failed creation is a
/// failure with its reason; a created device counts as a success, and a
/// failed group assignment is reported as a failure of that row as well.
pub fn record_outcome(result: &mut ImportResult, row: usize, outcome: RowOutcome)
    requires
        old(result).success < usize::MAX,
    ensures
        match outcome {
            RowOutcome::Rejected(reason) => final(result).success == old(result).success
                && failure_added(old(result).failed@, final(result).failed@, row, reason@),
            RowOutcome::CreateFailed(e) => final(result).success == old(result).success
                && failure_added(
                old(result).failed@,
                final(result).failed@,
                row,
                e.spec_prefix() + e.spec_detail(),
            ),
            RowOutcome::Created => final(result).success == old(result).success + 1
                && final(result).failed@ == old(result).failed@,
            RowOutcome::GroupsFailed(e) => final(result).success == old(result).success + 1
                && failure_added(
                old(result).failed@,
                final(result).failed@,
                row,
                "設備已建立但群組指派失敗："@ + e.spec_prefix() + e.spec_detail(),
            ),
        },
{
    let ghost before = result.failed@;
    match outcome {
        RowOutcome::Rejected(reason) => {
            let ghost rv = reason@;
            result.failed.push(ImportFailure { row, reason });
            assert(result.failed@.take(before.len() as int) =~= before);
            assert(failure_added(before, result.failed@, row, rv));
        },
        RowOutcome::CreateFailed(e) => {
            result.failed.push(ImportFailure { row, reason: e.message() });
            assert(result.failed@.take(before.len() as int) =~= before);
        },
        RowOutcome::Created => {
            result.success = result.success + 1;
        },
        RowOutcome::GroupsFailed(e) => {
            let mut reason = owned("設備已建立但群組指派失敗：");
            push_str(&mut reason, e.message().as_str());
            assert(reason@ =~= "設備已建立但群組指派失敗："@ + e.spec_prefix() + e.spec_detail());
            result.failed.push(ImportFailure { row, reason });
            result.success = result.success + 1;
            assert(result.failed@.take(before.len() as int) =~= before);
        },
    }
}

} // verus!
