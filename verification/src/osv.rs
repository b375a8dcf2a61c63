//! Reading a contest from the rows of an OSV count export (`;`-separated CSV).
use crate::csv_input;
use crate::dates;
use crate::letters;
use crate::model::{self, Candidate, CandidateView, Contest, ContestView, Count, CountView, List, ListView, ReportUnit, ReportUnitView};
use crate::text::{chars_of, concat, owned, parse_u32, parse_u8, str_eq, str_len, str_slice, string_push};
use crate::dates::{format_date, parse_date};
use crate::letters::regex_replace_all;
use crate::csv_input::read_records;
use crate::text;
use vstd::prelude::*;
use vstd::utf8::*;

verus! {

/// Why a CSV export could not be read as a contest.
#[derive(Debug, Clone, Copy, PartialEq, Eq, Structural)]
pub enum ContestError {
    /// The bytes could not be read as `;`-separated records of text.
    Csv,
    /// The export ends before a row that must be there.
    MissingRow,
    /// The row with this index (counted from 0) does not hold the fields expected there.
    UnexpectedRow(usize),
    /// A number in the row with this index is not a number of the expected size.
    BadNumber(usize),
    /// The election date is written day first but is not a date.
    CorruptDate,
    /// The area number is longer than four bytes.
    AreaCodeTooLong,
    /// A name is cut at a byte position that lies outside it or inside a character.
    BadSlice,
    /// The election name is of no known kind.
    UnknownElection,
    /// The water board election names no known kind of board.
    UnknownWaterBoard,
    /// The row with this index has more columns than there are reporting units.
    TooManyColumns(usize),
    /// The row with this index holds a candidate or a vote before the first list.
    CandidateBeforeList(usize),
}

/// The rows of an export, each as its fields.
pub type Rows = Seq<Seq<Seq<char>>>;

/// The value of a header row: its first field is `label`, its second is empty and its
/// third is the value.
pub open spec fn header_value(rows: Rows, i: int, label: Seq<char>) -> Result<Seq<char>, ContestError> {
    if i >= rows.len() {
        Err(ContestError::MissingRow)
    } else if rows[i].len() >= 3 && rows[i][0] == label && rows[i][1].len() == 0 {
        Ok(rows[i][2])
    } else {
        Err(ContestError::UnexpectedRow(i as usize))
    }
}

/// The election date: a date written day-month-year (its third byte is `-`) is rewritten
/// year-month-day by `chrono`; any other is kept.
pub open spec fn election_date_of(date: Seq<char>) -> Result<Seq<char>, ContestError> {
    if text::utf8_len(date) > 3 {
        if !text::slice_ok(date, 2, 3) {
            Err(ContestError::BadSlice)
        } else if text::byte_slice(date, 2, 3) == "-"@ {
            match dates::chrono_parse_date(date, "%d-%m-%Y"@) {
                None => Err(ContestError::CorruptDate),
                Some((y, m, d)) => Ok(dates::iso_date_text(y, m, d)),
            }
        } else {
            Ok(date)
        }
    } else {
        Ok(date)
    }
}

/// The short area name: a name longer than ten bytes that starts with `Gemeente ` loses that
/// word; any other is kept.
pub open spec fn short_area_name(name: Seq<char>) -> Result<Seq<char>, ContestError> {
    if text::utf8_len(name) > 10 {
        if !text::slice_ok(name, 0, 9) {
            Err(ContestError::BadSlice)
        } else if text::byte_slice(name, 0, 9) == "Gemeente "@ {
            Ok(text::byte_slice(name, 9, text::utf8_len(name)))
        } else {
            Ok(name)
        }
    } else {
        Ok(name)
    }
}

/// The area code, padded with zeros in front to four bytes.
pub open spec fn padded_area_code(code: Seq<char>) -> Result<Seq<char>, ContestError> {
    if text::utf8_len(code) > 4 {
        Err(ContestError::AreaCodeTooLong)
    } else {
        Ok(Seq::new((4 - text::utf8_len(code)) as nat, |i: int| '0') + code)
    }
}

/// What the name of an election tells: its category and subcategory, its domain (the
/// province or water board) if it has one, and the id of its contest.
pub struct ElectionKind {
    pub category: String,
    pub subcategory: String,
    pub domain: Option<String>,
    pub contest_id: String,
}

pub struct ElectionKindView {
    pub category: Seq<char>,
    pub subcategory: Seq<char>,
    pub domain: Option<Seq<char>>,
    pub contest_id: Seq<char>,
}

impl View for ElectionKind {
    type V = ElectionKindView;

    open spec fn view(&self) -> ElectionKindView {
        ElectionKindView {
            category: self.category@,
            subcategory: self.subcategory@,
            domain: model::opt_view(self.domain),
            contest_id: self.contest_id@,
        }
    }
}

/// The provinces that elect their states in two election districts.
pub open spec fn two_district_province(d: Seq<char>) -> bool {
    d == "Gelderland"@ || d == "Noord-Holland"@ || d == "Zuid-Holland"@ || d == "Noord-Brabant"@
        || d == "Limburg"@
}

/// The water boards with a small general board.
pub open spec fn small_water_board(d: Seq<char>) -> bool {
    d == "Noorderzijlvest"@ || d == "Fryslân"@ || d == "Hunze en Aa's"@ || d == "Zuiderzeeland"@
}

/// Where the name of the water board starts in the name of its election.
pub open spec fn water_board_offset(name: Seq<char>) -> Result<int, ContestError> {
    let n = text::utf8_len(name);
    if n > 36 && !text::slice_ok(name, 25, 36) {
        Err(ContestError::BadSlice)
    } else if n > 36 && (text::byte_slice(name, 25, 36) == "waterschap "@ || text::byte_slice(name, 25, 36)
        == "wetterskip "@) {
        Ok(36)
    } else if n > 43 && !text::slice_ok(name, 25, 43) {
        Err(ContestError::BadSlice)
    } else if n > 43 && text::byte_slice(name, 25, 43) == "hoogheemraadschap "@ {
        Ok(43)
    } else {
        Err(ContestError::UnknownWaterBoard)
    }
}

/// The kind of election that a name announces: provincial states, a water board, the
/// European parliament or the house of representatives. The domain runs from the end of the
/// announcing words to five bytes (a space and the year) before the end of the name.
pub open spec fn election_kind_of(name: Seq<char>) -> Result<ElectionKindView, ContestError> {
    let n = text::utf8_len(name);
    if n > 19 && !text::slice_ok(name, 0, 19) {
        Err(ContestError::BadSlice)
    } else if n > 19 && text::byte_slice(name, 0, 19) == "Provinciale Staten "@ {
        if !text::slice_ok(name, 19, n - 5) {
            Err(ContestError::BadSlice)
        } else {
            let d = text::byte_slice(name, 19, n - 5);
            Ok(
                ElectionKindView {
                    category: "PS"@,
                    subcategory: if two_district_province(d) { "PS2"@ } else { "PS1"@ },
                    domain: Some(d),
                    contest_id: "geen"@,
                },
            )
        }
    } else if n > 25 && !text::slice_ok(name, 0, 25) {
        Err(ContestError::BadSlice)
    } else if n > 25 && text::byte_slice(name, 0, 25) == "Algemeen bestuur van het "@ {
        match water_board_offset(name) {
            Err(e) => Err(e),
            Ok(off) => if !text::slice_ok(name, off, n - 5) {
                Err(ContestError::BadSlice)
            } else {
                let d = text::byte_slice(name, off, n - 5);
                Ok(
                    ElectionKindView {
                        category: "AB"@,
                        subcategory: if small_water_board(d) { "AB1"@ } else { "AB2"@ },
                        domain: Some(d),
                        contest_id: "geen"@,
                    },
                )
            },
        }
    } else if n > 19 && text::byte_slice(name, 0, 19) == "Europees Parlement "@ {
        Ok(
            ElectionKindView {
                category: "EP"@,
                subcategory: "EP"@,
                domain: None,
                contest_id: "alle"@,
            },
        )
    } else if n > 30 && !text::slice_ok(name, 0, 33) {
        Err(ContestError::BadSlice)
    } else if n > 30 && text::byte_slice(name, 0, 33) == "Tweede Kamer der Staten-Generaal "@ {
        Ok(
            ElectionKindView {
                category: "TK"@,
                subcategory: "TK"@,
                domain: None,
                contest_id: "TODO"@,
            },
        )
    } else {
        Err(ContestError::UnknownElection)
    }
}

/// A domain name with each `â` written `a` and then only its letters kept.
pub open spec fn domain_letters(d: Seq<char>) -> Seq<char> {
    d.map_values(|c: char| if c == 'â' { 'a' } else { c }).filter(|c: char| letters::is_name_letter(c))
}

/// The election identifier: the category, the first four bytes of the date (the year), and
/// for an election with a domain an underscore and the letters of the domain.
pub open spec fn election_identifier(
    category: Seq<char>,
    date: Seq<char>,
    domain: Option<Seq<char>>,
) -> Result<Seq<char>, ContestError> {
    if !text::slice_ok(date, 0, 4) {
        Err(ContestError::BadSlice)
    } else {
        let year = text::byte_slice(date, 0, 4);
        match domain {
            Some(d) => Ok(category + year + "_"@ + domain_letters(d)),
            None => Ok(category + year),
        }
    }
}

/// The contest that the four header rows describe, before any count is read.
pub open spec fn contest_head(rows: Rows) -> Result<ContestView, ContestError> {
    match header_value(rows, 0, "Verkiezing"@) {
        Err(e) => Err(e),
        Ok(name) => match header_value(rows, 1, "Datum"@) {
            Err(e) => Err(e),
            Ok(raw_date) => match election_date_of(raw_date) {
                Err(e) => Err(e),
                Ok(date) => match header_value(rows, 2, "Gebied"@) {
                    Err(e) => Err(e),
                    Ok(area) => match short_area_name(area) {
                        Err(e) => Err(e),
                        Ok(short) => match header_value(rows, 3, "Nummer"@) {
                            Err(e) => Err(e),
                            Ok(raw_code) => match padded_area_code(raw_code) {
                                Err(e) => Err(e),
                                Ok(code) => match election_kind_of(name) {
                                    Err(e) => Err(e),
                                    Ok(kind) => match election_identifier(
                                        kind.category,
                                        date,
                                        kind.domain,
                                    ) {
                                        Err(e) => Err(e),
                                        Ok(id) => Ok(
                                            ContestView {
                                                election_identifier_name: name,
                                                election_date: date,
                                                area_name: area,
                                                area_name_short: short,
                                                area_code: code,
                                                election_category: kind.category,
                                                election_subcategory: kind.subcategory,
                                                election_domain: kind.domain,
                                                election_identifier_id: id,
                                                creation_date_time: date + "T12:34:56.789"@,
                                                contest_id: kind.contest_id,
                                                contest_name: Seq::empty(),
                                                total_count: model::zero_count(),
                                                report_unit: Seq::empty(),
                                                lists: Seq::empty(),
                                            },
                                        ),
                                    },
                                },
                            },
                        },
                    },
                },
            },
        },
    }
}


// ---------------------------------------------------------------------------
// Reading the header rows.
// ---------------------------------------------------------------------------

pub open spec fn str_result(r: Result<String, ContestError>) -> Result<Seq<char>, ContestError> {
    match r {
        Ok(s) => Ok(s@),
        Err(e) => Err(e),
    }
}

fn read_header_value(rows: &Vec<Vec<String>>, i: usize, label: &str) -> (res: Result<String, ContestError>)
    ensures
        str_result(res) == header_value(rows.deep_view(), i as int, label@),
{
    if i >= rows.len() {
        return Err(ContestError::MissingRow);
    }
    let row = &rows[i];
    if row.len() >= 3 && str_eq(row[0].as_str(), label) && row[1].as_str().is_empty() {
        Ok(row[2].clone())
    } else {
        Err(ContestError::UnexpectedRow(i))
    }
}

/// Whether the bytes `from..to` of `s` spell `lit`; `None` where they cannot be sliced out.
fn slice_is(s: &str, from: usize, to: usize, lit: &str) -> (res: Option<bool>)
    ensures
        res is None <==> !text::slice_ok(s@, from as int, to as int),
        res matches Some(b) ==> b == (text::byte_slice(s@, from as int, to as int) == lit@),
{
    match str_slice(s, from, to) {
        Some(t) => Some(str_eq(t, lit)),
        None => None,
    }
}

proof fn lemma_end_is_boundary(s: Seq<char>, from: int)
    requires
        text::slice_ok(s, 0, from),
    ensures
        text::slice_ok(s, from, text::utf8_len(s)),
{
    broadcast use group_utf8_lib;

    is_char_boundary_start_end_of_seq(encode_utf8(s));
}

fn read_election_date(date: &str) -> (res: Result<String, ContestError>)
    ensures
        str_result(res) == election_date_of(date@),
{
    if str_len(date) > 3 {
        match slice_is(date, 2, 3, "-") {
            None => Err(ContestError::BadSlice),
            Some(true) => match parse_date(date, "%d-%m-%Y") {
                Err(_) => Err(ContestError::CorruptDate),
                Ok((y, m, d)) => match format_date(y, m, d, "%Y-%m-%d") {
                    Some(s) => Ok(s),
                    None => vstd::pervasive::unreached(),
                },
            },
            Some(false) => Ok(owned(date)),
        }
    } else {
        Ok(owned(date))
    }
}

fn read_short_area_name(name: &str) -> (res: Result<String, ContestError>)
    ensures
        str_result(res) == short_area_name(name@),
{
    let n = str_len(name);
    if n > 10 {
        match slice_is(name, 0, 9, "Gemeente ") {
            None => Err(ContestError::BadSlice),
            Some(true) => {
                proof {
                    lemma_end_is_boundary(name@, 9);
                }
                match str_slice(name, 9, n) {
                    Some(t) => Ok(owned(t)),
                    None => Err(ContestError::BadSlice),
                }
            },
            Some(false) => Ok(owned(name)),
        }
    } else {
        Ok(owned(name))
    }
}

fn read_padded_area_code(code: &str) -> (res: Result<String, ContestError>)
    ensures
        str_result(res) == padded_area_code(code@),
{
    let n = str_len(code);
    if n > 4 {
        return Err(ContestError::AreaCodeTooLong);
    }
    let mut s = String::new();
    let mut i: usize = 0;
    while i < 4 - n
        invariant
            n <= 4,
            i <= 4 - n,
            s@ == Seq::new(i as nat, |k: int| '0'),
        decreases 4 - n - i,
    {
        string_push(&mut s, '0');
        i = i + 1;
        assert(s@ =~= Seq::new(i as nat, |k: int| '0'));
    }
    s.append(code);
    Ok(s)
}

fn is_two_district_province(d: &str) -> (b: bool)
    ensures
        b == two_district_province(d@),
{
    str_eq(d, "Gelderland") || str_eq(d, "Noord-Holland") || str_eq(d, "Zuid-Holland") || str_eq(
        d,
        "Noord-Brabant",
    ) || str_eq(d, "Limburg")
}

fn is_small_water_board(d: &str) -> (b: bool)
    ensures
        b == small_water_board(d@),
{
    str_eq(d, "Noorderzijlvest") || str_eq(d, "Fryslân") || str_eq(d, "Hunze en Aa's") || str_eq(
        d,
        "Zuiderzeeland",
    )
}

fn read_water_board_offset(name: &str) -> (res: Result<usize, ContestError>)
    ensures
        match res {
            Ok(o) => water_board_offset(name@) == Ok::<int, ContestError>(o as int),
            Err(e) => water_board_offset(name@) == Err::<int, ContestError>(e),
        },
{
    let n = str_len(name);
    if n > 36 {
        match slice_is(name, 25, 36, "waterschap ") {
            None => return Err(ContestError::BadSlice),
            Some(true) => return Ok(36),
            Some(false) => {
                if slice_is(name, 25, 36, "wetterskip ") == Some(true) {
                    return Ok(36);
                }
            },
        }
    }
    if n > 43 {
        match slice_is(name, 25, 43, "hoogheemraadschap ") {
            None => return Err(ContestError::BadSlice),
            Some(true) => return Ok(43),
            Some(false) => {},
        }
    }
    Err(ContestError::UnknownWaterBoard)
}

pub open spec fn kind_result(r: Result<ElectionKind, ContestError>) -> Result<ElectionKindView, ContestError> {
    match r {
        Ok(k) => Ok(k@),
        Err(e) => Err(e),
    }
}

fn kind_with_domain(category: &str, subcategory: &str, domain: String) -> (k: ElectionKind)
    ensures
        k@ == (ElectionKindView {
            category: category@,
            subcategory: subcategory@,
            domain: Some(domain@),
            contest_id: "geen"@,
        }),
{
    ElectionKind {
        category: owned(category),
        subcategory: owned(subcategory),
        domain: Some(domain),
        contest_id: owned("geen"),
    }
}

fn kind_without_domain(category: &str, contest_id: &str) -> (k: ElectionKind)
    ensures
        k@ == (ElectionKindView {
            category: category@,
            subcategory: category@,
            domain: None,
            contest_id: contest_id@,
        }),
{
    ElectionKind {
        category: owned(category),
        subcategory: owned(category),
        domain: None,
        contest_id: owned(contest_id),
    }
}

fn read_election_kind(name: &str) -> (res: Result<ElectionKind, ContestError>)
    ensures
        kind_result(res) == election_kind_of(name@),
{
    let n = str_len(name);
    if n > 19 {
        match slice_is(name, 0, 19, "Provinciale Staten ") {
            None => return Err(ContestError::BadSlice),
            Some(true) => {
                return match str_slice(name, 19, n - 5) {
                    None => Err(ContestError::BadSlice),
                    Some(d) => {
                        let sub = if is_two_district_province(d) { "PS2" } else { "PS1" };
                        Ok(kind_with_domain("PS", sub, owned(d)))
                    },
                };
            },
            Some(false) => {},
        }
    }
    if n > 25 {
        match slice_is(name, 0, 25, "Algemeen bestuur van het ") {
            None => return Err(ContestError::BadSlice),
            Some(true) => {
                return match read_water_board_offset(name) {
                    Err(e) => Err(e),
                    Ok(off) => match str_slice(name, off, n - 5) {
                        None => Err(ContestError::BadSlice),
                        Some(d) => {
                            let sub = if is_small_water_board(d) { "AB1" } else { "AB2" };
                            Ok(kind_with_domain("AB", sub, owned(d)))
                        },
                    },
                };
            },
            Some(false) => {},
        }
    }
    if n > 19 && slice_is(name, 0, 19, "Europees Parlement ") == Some(true) {
        return Ok(kind_without_domain("EP", "alle"));
    }
    if n > 30 {
        match slice_is(name, 0, 33, "Tweede Kamer der Staten-Generaal ") {
            None => return Err(ContestError::BadSlice),
            Some(true) => return Ok(kind_without_domain("TK", "TODO")),
            Some(false) => {},
        }
    }
    Err(ContestError::UnknownElection)
}

fn replace_acirc(d: &str) -> (res: String)
    ensures
        res@ == d@.map_values(|c: char| if c == 'â' { 'a' } else { c }),
{
    let cs = chars_of(d);
    let mut res = String::new();
    let mut i: usize = 0;
    while i < cs.len()
        invariant
            cs@ == d@,
            i <= cs@.len(),
            res@ == cs@.take(i as int).map_values(|c: char| if c == 'â' { 'a' } else { c }),
        decreases cs@.len() - i,
    {
        let c = cs[i];
        string_push(&mut res, if c == 'â' { 'a' } else { c });
        i = i + 1;
        assert(res@ =~= cs@.take(i as int).map_values(|c: char| if c == 'â' { 'a' } else { c }));
    }
    assert(cs@.take(i as int) =~= d@);
    res
}

fn read_election_identifier(category: &str, date: &str, domain: &Option<String>) -> (res: Result<String, ContestError>)
    ensures
        str_result(res) == election_identifier(category@, date@, model::opt_view(*domain)),
{
    match str_slice(date, 0, 4) {
        None => Err(ContestError::BadSlice),
        Some(year) => {
            let mut id = concat(category, year);
            match domain {
                Some(d) => {
                    let ascii = replace_acirc(d.as_str());
                    match regex_replace_all("[^A-Za-zâ]", ascii.as_str(), "") {
                        Ok(letters) => {
                            id.append("_");
                            id.append(letters.as_str());
                            Ok(id)
                        },
                        Err(_) => vstd::pervasive::unreached(),
                    }
                },
                None => Ok(id),
            }
        },
    }
}


pub open spec fn contest_result(r: Result<Contest, ContestError>) -> Result<ContestView, ContestError> {
    match r {
        Ok(c) => Ok(c@),
        Err(e) => Err(e),
    }
}

fn read_contest_head(rows: &Vec<Vec<String>>) -> (res: Result<Contest, ContestError>)
    ensures
        contest_result(res) == contest_head(rows.deep_view()),
{
    let name = match read_header_value(rows, 0, "Verkiezing") {
        Ok(v) => v,
        Err(e) => return Err(e),
    };
    let raw_date = match read_header_value(rows, 1, "Datum") {
        Ok(v) => v,
        Err(e) => return Err(e),
    };
    let date = match read_election_date(raw_date.as_str()) {
        Ok(v) => v,
        Err(e) => return Err(e),
    };
    let area = match read_header_value(rows, 2, "Gebied") {
        Ok(v) => v,
        Err(e) => return Err(e),
    };
    let short = match read_short_area_name(area.as_str()) {
        Ok(v) => v,
        Err(e) => return Err(e),
    };
    let raw_code = match read_header_value(rows, 3, "Nummer") {
        Ok(v) => v,
        Err(e) => return Err(e),
    };
    let code = match read_padded_area_code(raw_code.as_str()) {
        Ok(v) => v,
        Err(e) => return Err(e),
    };
    let kind = match read_election_kind(name.as_str()) {
        Ok(v) => v,
        Err(e) => return Err(e),
    };
    let id = match read_election_identifier(kind.category.as_str(), date.as_str(), &kind.domain) {
        Ok(v) => v,
        Err(e) => return Err(e),
    };
    let creation = concat(date.as_str(), "T12:34:56.789");
    let contest = Contest {
        election_identifier_name: name,
        election_date: date,
        area_name: area,
        area_name_short: short,
        area_code: code,
        election_category: kind.category,
        election_subcategory: kind.subcategory,
        election_domain: kind.domain,
        election_identifier_id: id,
        creation_date_time: creation,
        contest_id: kind.contest_id,
        contest_name: String::new(),
        total_count: Count::zero(),
        report_unit: Vec::new(),
        lists: Vec::new(),
    };
    proof {
        assert(contest@.report_unit =~= Seq::empty());
        assert(contest@.lists =~= Seq::empty());
    }
    Ok(contest)
}


// ---------------------------------------------------------------------------
// The count rows.
// ---------------------------------------------------------------------------

/// What one column of a per-unit row sets in the reporting unit of that column.
#[derive(Clone, Copy)]
pub enum Column {
    AreaNumber,
    Zipcode,
    Stat(usize),
    Vote,
}

/// `vs` with `v` appended to its last sequence.
pub open spec fn push_last(vs: Seq<Seq<u32>>, v: u32) -> Seq<Seq<u32>> {
    vs.update(vs.len() - 1, vs.last().push(v))
}

/// Column `col` (from 5 on) of row `r` applied to the reporting unit `col - 5`.
pub open spec fn apply_column(
    row: Seq<Seq<char>>,
    r: int,
    units: Seq<ReportUnitView>,
    col: int,
    target: Column,
) -> Result<Seq<ReportUnitView>, ContestError> {
    let k = col - 5;
    match target {
        Column::AreaNumber => match text::parse_u32_of(row[col]) {
            None => Err(ContestError::BadNumber(r as usize)),
            Some(v) => if k >= units.len() {
                Err(ContestError::TooManyColumns(r as usize))
            } else {
                Ok(units.update(k, ReportUnitView { area_number: v, ..units[k] }))
            },
        },
        Column::Zipcode => if k >= units.len() {
            Err(ContestError::TooManyColumns(r as usize))
        } else {
            Ok(units.update(k, ReportUnitView { zipcode: Some(row[col]), ..units[k] }))
        },
        Column::Stat(s) => match text::parse_u32_of(row[col]) {
            None => Err(ContestError::BadNumber(r as usize)),
            Some(v) => if k >= units.len() {
                Err(ContestError::TooManyColumns(r as usize))
            } else {
                Ok(
                    units.update(
                        k,
                        ReportUnitView {
                            count: CountView {
                                stats: units[k].count.stats.update(s as int, v),
                                ..units[k].count
                            },
                            ..units[k]
                        },
                    ),
                )
            },
        },
        Column::Vote => if k >= units.len() {
            Err(ContestError::TooManyColumns(r as usize))
        } else if units[k].count.votes.len() == 0 {
            Err(ContestError::CandidateBeforeList(r as usize))
        } else {
            match text::parse_u32_of(row[col]) {
                None => Err(ContestError::BadNumber(r as usize)),
                Some(v) => Ok(
                    units.update(
                        k,
                        ReportUnitView {
                            count: CountView {
                                votes: push_last(units[k].count.votes, v),
                                ..units[k].count
                            },
                            ..units[k]
                        },
                    ),
                ),
            }
        },
    }
}

/// Columns `col..` of row `r` applied in turn to the reporting units.
pub open spec fn columns_from(
    row: Seq<Seq<char>>,
    r: int,
    units: Seq<ReportUnitView>,
    col: int,
    target: Column,
) -> Result<Seq<ReportUnitView>, ContestError>
    decreases row.len() - col,
{
    if col >= row.len() {
        Ok(units)
    } else {
        match apply_column(row, r, units, col, target) {
            Err(e) => Err(e),
            Ok(u) => columns_from(row, r, u, col + 1, target),
        }
    }
}

/// The index of the row that names the reporting units: an empty row may precede it.
pub open spec fn units_row_index(rows: Rows) -> int {
    if rows.len() > 4 && rows[4].len() >= 1 && rows[4][0].len() == 0 {
        5
    } else {
        4
    }
}

/// The reporting units that row `i` names: its columns from the sixth on, after the titles
/// `Lijstnummer`, `Aanduiding`, `Volgnummer`, `Naam kandidaat` and `Totaal`.
pub open spec fn units_of_row(rows: Rows, i: int) -> Result<Seq<ReportUnitView>, ContestError> {
    if i >= rows.len() {
        Err(ContestError::MissingRow)
    } else {
        let row = rows[i];
        if row.len() >= 5 && row[0] == "Lijstnummer"@ && row[1] == "Aanduiding"@ && row[2]
            == "Volgnummer"@ && row[3] == "Naam kandidaat"@ && row[4] == "Totaal"@ {
            Ok(
                Seq::new(
                    (row.len() - 5) as nat,
                    |k: int|
                        ReportUnitView {
                            name: row[k + 5],
                            area_number: 0,
                            zipcode: None,
                            count: model::zero_count(),
                        },
                ),
            )
        } else {
            Err(ContestError::UnexpectedRow(i as usize))
        }
    }
}

/// A per-unit row titled `label`: the title, then four empty fields.
pub open spec fn titled_row(row: Seq<Seq<char>>, label: Seq<char>) -> bool {
    &&& row.len() >= 5
    &&& row[0] == label
    &&& row[1].len() == 0
    &&& row[2].len() == 0
    &&& row[3].len() == 0
    &&& row[4].len() == 0
}

/// The titles of the tally rows, in the order of the fields of `Count`.
pub open spec fn stat_label(k: int) -> Seq<char> {
    if k == 0 { "opgeroepenen"@ }
    else if k == 1 { "geldige stempas"@ }
    else if k == 2 { "geldig volmachtbewijs"@ }
    else if k == 3 { "geldige kiezerspas"@ }
    else if k == 4 { "toegelaten kiezers"@ }
    else if k == 5 { "toegelaten kiezers (Briefstembureaus gemeente)"@ }
    else if k == 6 { "geldige stembiljetten"@ }
    else if k == 7 { "blanco stembiljetten"@ }
    else if k == 8 { "ongeldige stembiljetten"@ }
    else if k == 9 { "aangetroffen stembiljetten"@ }
    else if k == 10 { "meer stembiljetten dan toegelaten kiezers"@ }
    else if k == 11 { "minder stembiljetten dan toegelaten kiezers"@ }
    else if k == 12 { "kiezers met stembiljet hebben niet gestemd"@ }
    else if k == 13 { "er zijn te weinig stembiljetten uitgereikt"@ }
    else if k == 14 { "er zijn te veel stembiljetten uitgereikt"@ }
    else if k == 15 { "geen stembiljet in enveloppe (Briefstembureaus)"@ }
    else if k == 16 { "meer stembiljetten in een enveloppe (Briefstembureaus)"@ }
    else if k == 17 { "geen verklaring"@ }
    else { "andere verklaring"@ }
}

/// Row `i` read as the tally `k`: an empty field, the title, two empty fields, the total
/// and then the tally of each reporting unit.
pub open spec fn stat_row(rows: Rows, i: int, k: int, c: ContestView) -> Result<ContestView, ContestError> {
    if i >= rows.len() {
        Err(ContestError::MissingRow)
    } else {
        let row = rows[i];
        if !(row.len() >= 4 && row[0].len() == 0 && row[1] == stat_label(k) && row[2].len() == 0
            && row[3].len() == 0) || row.len() < 5 {
            Err(ContestError::UnexpectedRow(i as usize))
        } else {
            match text::parse_u32_of(row[4]) {
                None => Err(ContestError::BadNumber(i as usize)),
                Some(v) => match columns_from(row, i, c.report_unit, 5, Column::Stat(k as usize)) {
                    Err(e) => Err(e),
                    Ok(units) => Ok(
                        ContestView {
                            total_count: CountView {
                                stats: c.total_count.stats.update(k, v),
                                ..c.total_count
                            },
                            report_unit: units,
                            ..c
                        },
                    ),
                },
            }
        }
    }
}

/// The tally rows `k..19`, the row of tally `k` being row `i + k`.
pub open spec fn stat_rows(rows: Rows, i: int, k: int, c: ContestView) -> Result<ContestView, ContestError>
    decreases 19 - k,
{
    if k >= 19 {
        Ok(c)
    } else {
        match stat_row(rows, i + k, k, c) {
            Err(e) => Err(e),
            Ok(c2) => stat_rows(rows, i, k + 1, c2),
        }
    }
}

/// The votes of row `j` (its fifth field for the total, then one per reporting unit),
/// appended to the votes of the last list.
pub open spec fn row_votes(row: Seq<Seq<char>>, j: int, c: ContestView) -> Result<ContestView, ContestError> {
    if c.total_count.votes.len() == 0 {
        Err(ContestError::CandidateBeforeList(j as usize))
    } else if row.len() < 5 {
        Err(ContestError::UnexpectedRow(j as usize))
    } else {
        match text::parse_u32_of(row[4]) {
            None => Err(ContestError::BadNumber(j as usize)),
            Some(v) => match columns_from(row, j, c.report_unit, 5, Column::Vote) {
                Err(e) => Err(e),
                Ok(units) => Ok(
                    ContestView {
                        total_count: CountView {
                            votes: push_last(c.total_count.votes, v),
                            ..c.total_count
                        },
                        report_unit: units,
                        ..c
                    },
                ),
            },
        }
    }
}

/// A new list opened: no candidates yet, and an empty row of votes in every count.
pub open spec fn with_new_list(c: ContestView, number: u8, name: Seq<char>) -> ContestView {
    ContestView {
        lists: c.lists.push(ListView { number: number, name: name, candidates: Seq::empty() }),
        total_count: CountView { votes: c.total_count.votes.push(Seq::empty()), ..c.total_count },
        report_unit: c.report_unit.map_values(
            |u: ReportUnitView|
                ReportUnitView {
                    count: CountView { votes: u.count.votes.push(Seq::empty()), ..u.count },
                    ..u
                },
        ),
        ..c
    }
}

/// A candidate added to the last list.
pub open spec fn with_new_candidate(c: ContestView, number: u8, name: Seq<char>) -> ContestView {
    let last = c.lists.last();
    ContestView {
        lists: c.lists.update(
            c.lists.len() - 1,
            ListView {
                candidates: last.candidates.push(CandidateView { number: number, name: name }),
                ..last
            },
        ),
        ..c
    }
}

/// Row `j` read as a list (its first field is the list number, its second the name) or as
/// a candidate of the last list (first field empty, then an empty field, the candidate's
/// number and name), followed by its votes.
pub open spec fn list_row(rows: Rows, j: int, c: ContestView) -> Result<ContestView, ContestError> {
    let row = rows[j];
    if row.len() == 0 {
        Err(ContestError::UnexpectedRow(j as usize))
    } else if row[0].len() != 0 {
        match text::parse_u8_of(row[0]) {
            None => Err(ContestError::BadNumber(j as usize)),
            Some(number) => if row.len() < 2 {
                Err(ContestError::UnexpectedRow(j as usize))
            } else if !(row.len() >= 4 && row[2].len() == 0 && row[3].len() == 0) {
                Err(ContestError::UnexpectedRow(j as usize))
            } else {
                row_votes(row, j, with_new_list(c, number, row[1]))
            },
        }
    } else if !(row.len() >= 2 && row[1].len() == 0) {
        Err(ContestError::UnexpectedRow(j as usize))
    } else if c.lists.len() == 0 {
        Err(ContestError::CandidateBeforeList(j as usize))
    } else if row.len() < 3 {
        Err(ContestError::UnexpectedRow(j as usize))
    } else {
        match text::parse_u8_of(row[2]) {
            None => Err(ContestError::BadNumber(j as usize)),
            Some(number) => if row.len() < 4 {
                Err(ContestError::UnexpectedRow(j as usize))
            } else {
                row_votes(row, j, with_new_candidate(c, number, row[3]))
            },
        }
    }
}

/// The rows from `j` on, each read by `list_row`.
pub open spec fn list_rows(rows: Rows, j: int, c: ContestView) -> Result<ContestView, ContestError>
    decreases rows.len() - j,
{
    if j >= rows.len() {
        Ok(c)
    } else {
        match list_row(rows, j, c) {
            Err(e) => Err(e),
            Ok(c2) => list_rows(rows, j + 1, c2),
        }
    }
}

/// Where a unit with area number `key` goes in `s`: after the last unit whose number is not
/// larger.
pub open spec fn area_insert_pos(s: Seq<ReportUnitView>, key: u32) -> int
    decreases s.len(),
{
    if s.len() == 0 {
        0
    } else if s.last().area_number <= key {
        s.len() as int
    } else {
        area_insert_pos(s.drop_last(), key)
    }
}

/// The units ordered by area number, units with equal numbers in the order in which they came.
pub open spec fn sort_by_area(s: Seq<ReportUnitView>) -> Seq<ReportUnitView>
    decreases s.len(),
{
    if s.len() == 0 {
        s
    } else {
        let r = sort_by_area(s.drop_last());
        r.insert(area_insert_pos(r, s.last().area_number), s.last())
    }
}

/// The contest that the rows after the header hold, added to `c`: the reporting units, their
/// area numbers and (optionally) postcodes, the tallies, and the lists with their candidates
/// and votes; the units ordered by area number in the end.
pub open spec fn contest_body(rows: Rows, c: ContestView) -> Result<ContestView, ContestError> {
    let i = units_row_index(rows);
    match units_of_row(rows, i) {
        Err(e) => Err(e),
        Ok(units) => if i + 1 >= rows.len() {
            Err(ContestError::MissingRow)
        } else if !titled_row(rows[i + 1], "Gebiednummer"@) {
            Err(ContestError::UnexpectedRow((i + 1) as usize))
        } else {
            match columns_from(rows[i + 1], i + 1, units, 5, Column::AreaNumber) {
                Err(e) => Err(e),
                Ok(u1) => {
                    let has_postcode = i + 2 < rows.len() && rows[i + 2].len() >= 1 && rows[i
                        + 2][0] == "Postcode"@;
                    let zipped = if !has_postcode {
                        Ok(u1)
                    } else if !titled_row(rows[i + 2], "Postcode"@) {
                        Err(ContestError::UnexpectedRow((i + 2) as usize))
                    } else {
                        columns_from(rows[i + 2], i + 2, u1, 5, Column::Zipcode)
                    };
                    match zipped {
                        Err(e) => Err(e),
                        Ok(u2) => {
                            let s = if has_postcode { i + 3 } else { i + 2 };
                            match stat_rows(rows, s, 0, ContestView { report_unit: u2, ..c }) {
                                Err(e) => Err(e),
                                Ok(c3) => match list_rows(rows, s + 19, c3) {
                                    Err(e) => Err(e),
                                    Ok(c4) => Ok(
                                        ContestView {
                                            report_unit: sort_by_area(c4.report_unit),
                                            ..c4
                                        },
                                    ),
                                },
                            }
                        },
                    }
                },
            }
        },
    }
}

/// The contest that the rows of an export describe.
pub open spec fn contest_of_rows(rows: Rows) -> Result<ContestView, ContestError> {
    match contest_head(rows) {
        Err(e) => Err(e),
        Ok(c) => contest_body(rows, c),
    }
}

/// The contest that an export (the bytes of a `;`-separated file) describes.
pub open spec fn contest_of_export(input: Seq<u8>) -> Result<ContestView, ContestError> {
    match csv_input::csv_records(input, 59u8, true, false) {
        None => Err(ContestError::Csv),
        Some(rows) => contest_of_rows(rows),
    }
}


pub open spec fn units_view(v: Seq<ReportUnit>) -> Seq<ReportUnitView> {
    v.map_values(|u: ReportUnit| u@)
}

fn apply_columns(row: &Vec<String>, r: usize, units: &mut Vec<ReportUnit>, target: Column) -> (res: Result<(), ContestError>)
    requires
        target matches Column::Stat(s) ==> s < 19,
    ensures
        match columns_from(row.deep_view(), r as int, units_view(old(units)@), 5, target) {
            Ok(u) => res is Ok && units_view(final(units)@) == u,
            Err(e) => res == Err::<(), ContestError>(e),
        },
{
    let ghost start = units_view(units@);
    let mut col: usize = 5;
    while col < row.len()
        invariant
            5 <= col,
            target matches Column::Stat(s) ==> s < 19,
            start == units_view(old(units)@),
            columns_from(row.deep_view(), r as int, units_view(units@), col as int, target)
                == columns_from(row.deep_view(), r as int, start, 5, target),
        decreases row.len() - col,
    {
        let k = col - 5;
        let ghost before = units_view(units@);
        match target {
            Column::AreaNumber => {
                let v = match parse_u32(row[col].as_str()) {
                    Some(v) => v,
                    None => return Err(ContestError::BadNumber(r)),
                };
                if k >= units.len() {
                    return Err(ContestError::TooManyColumns(r));
                }
                units[k].area_number = v;
                proof {
                    assert(units_view(units@) =~= before.update(
                        k as int,
                        ReportUnitView { area_number: v, ..before[k as int] },
                    ));
                }
            },
            Column::Zipcode => {
                if k >= units.len() {
                    return Err(ContestError::TooManyColumns(r));
                }
                units[k].zipcode = Some(row[col].clone());
                proof {
                    assert(units_view(units@) =~= before.update(
                        k as int,
                        ReportUnitView { zipcode: Some(row.deep_view()[col as int]), ..before[k as int] },
                    ));
                }
            },
            Column::Stat(s) => {
                let v = match parse_u32(row[col].as_str()) {
                    Some(v) => v,
                    None => return Err(ContestError::BadNumber(r)),
                };
                if k >= units.len() {
                    return Err(ContestError::TooManyColumns(r));
                }
                units[k].count.set_stat(s, v);
                proof {
                    assert(units_view(units@) =~= before.update(
                        k as int,
                        ReportUnitView {
                            count: CountView {
                                stats: before[k as int].count.stats.update(s as int, v),
                                ..before[k as int].count
                            },
                            ..before[k as int]
                        },
                    ));
                }
            },
            Column::Vote => {
                if k >= units.len() {
                    return Err(ContestError::TooManyColumns(r));
                }
                let n = units[k].count.votes.len();
                if n == 0 {
                    return Err(ContestError::CandidateBeforeList(r));
                }
                let v = match parse_u32(row[col].as_str()) {
                    Some(v) => v,
                    None => return Err(ContestError::BadNumber(r)),
                };
                let ghost old_votes = units@[k as int].count.votes@;
                units[k].count.votes[n - 1].push(v);
                proof {
                    let new_votes = units@[k as int].count.votes@;
                    assert(new_votes.len() == old_votes.len());
                    assert forall|i: int| 0 <= i < n implies #[trigger] new_votes[i]@ == (if i == n
                        - 1 {
                        old_votes[i]@.push(v)
                    } else {
                        old_votes[i]@
                    }) by {}
                    assert(units[k as int].count@.votes =~= push_last(
                        before[k as int].count.votes,
                        v,
                    ));
                    assert(units_view(units@) =~= before.update(
                        k as int,
                        ReportUnitView {
                            count: CountView {
                                votes: push_last(before[k as int].count.votes, v),
                                ..before[k as int].count
                            },
                            ..before[k as int]
                        },
                    ));
                }
            },
        }
        col = col + 1;
    }
    Ok(())
}


pub open spec fn units_result(r: Result<Vec<ReportUnit>, ContestError>) -> Result<Seq<ReportUnitView>, ContestError> {
    match r {
        Ok(u) => Ok(units_view(u@)),
        Err(e) => Err(e),
    }
}

fn read_units_row(rows: &Vec<Vec<String>>, i: usize) -> (res: Result<Vec<ReportUnit>, ContestError>)
    ensures
        units_result(res) == units_of_row(rows.deep_view(), i as int),
{
    if i >= rows.len() {
        return Err(ContestError::MissingRow);
    }
    let row = &rows[i];
    if !(row.len() >= 5 && str_eq(row[0].as_str(), "Lijstnummer") && str_eq(
        row[1].as_str(),
        "Aanduiding",
    ) && str_eq(row[2].as_str(), "Volgnummer") && str_eq(row[3].as_str(), "Naam kandidaat")
        && str_eq(row[4].as_str(), "Totaal")) {
        return Err(ContestError::UnexpectedRow(i));
    }
    let ghost rv = rows.deep_view()[i as int];
    let mut units: Vec<ReportUnit> = Vec::new();
    let mut col: usize = 5;
    while col < row.len()
        invariant
            5 <= col <= row.len(),
            rv == row.deep_view(),
            units_view(units@) == Seq::new(
                (col - 5) as nat,
                |k: int|
                    ReportUnitView {
                        name: rv[k + 5],
                        area_number: 0,
                        zipcode: None,
                        count: model::zero_count(),
                    },
            ),
        decreases row.len() - col,
    {
        let ghost prev = units_view(units@);
        units.push(
            ReportUnit {
                name: row[col].clone(),
                area_number: 0,
                zipcode: None,
                count: Count::zero(),
            },
        );
        col = col + 1;
        proof {
            assert(rv[col - 1] == row@[col - 1]@);
            assert(units@.last()@ == ReportUnitView {
                name: rv[col - 1],
                area_number: 0,
                zipcode: None,
                count: model::zero_count(),
            });
            assert(units_view(units@) =~= prev.push(units@.last()@));
            assert(units_view(units@) =~= Seq::new(
                (col - 5) as nat,
                |k: int|
                    ReportUnitView {
                        name: rv[k + 5],
                        area_number: 0,
                        zipcode: None,
                        count: model::zero_count(),
                    },
            ));
        }
    }
    Ok(units)
}

fn is_titled_row(row: &Vec<String>, label: &str) -> (b: bool)
    ensures
        b == titled_row(row.deep_view(), label@),
{
    row.len() >= 5 && str_eq(row[0].as_str(), label) && row[1].as_str().is_empty()
        && row[2].as_str().is_empty() && row[3].as_str().is_empty() && row[4].as_str().is_empty()
}

fn stat_title(k: usize) -> (t: &'static str)
    requires
        k < 19,
    ensures
        t@ == stat_label(k as int),
{
    if k == 0 { "opgeroepenen" }
    else if k == 1 { "geldige stempas" }
    else if k == 2 { "geldig volmachtbewijs" }
    else if k == 3 { "geldige kiezerspas" }
    else if k == 4 { "toegelaten kiezers" }
    else if k == 5 { "toegelaten kiezers (Briefstembureaus gemeente)" }
    else if k == 6 { "geldige stembiljetten" }
    else if k == 7 { "blanco stembiljetten" }
    else if k == 8 { "ongeldige stembiljetten" }
    else if k == 9 { "aangetroffen stembiljetten" }
    else if k == 10 { "meer stembiljetten dan toegelaten kiezers" }
    else if k == 11 { "minder stembiljetten dan toegelaten kiezers" }
    else if k == 12 { "kiezers met stembiljet hebben niet gestemd" }
    else if k == 13 { "er zijn te weinig stembiljetten uitgereikt" }
    else if k == 14 { "er zijn te veel stembiljetten uitgereikt" }
    else if k == 15 { "geen stembiljet in enveloppe (Briefstembureaus)" }
    else if k == 16 { "meer stembiljetten in een enveloppe (Briefstembureaus)" }
    else if k == 17 { "geen verklaring" }
    else { "andere verklaring" }
}

fn read_stat_row(rows: &Vec<Vec<String>>, i: usize, k: usize, contest: &mut Contest) -> (res: Result<(), ContestError>)
    requires
        k < 19,
    ensures
        match stat_row(rows.deep_view(), i as int, k as int, old(contest)@) {
            Ok(c) => res is Ok && final(contest)@ == c,
            Err(e) => res == Err::<(), ContestError>(e),
        },
{
    if i >= rows.len() {
        return Err(ContestError::MissingRow);
    }
    let row = &rows[i];
    if !(row.len() >= 4 && row[0].as_str().is_empty() && str_eq(row[1].as_str(), stat_title(k))
        && row[2].as_str().is_empty() && row[3].as_str().is_empty()) || row.len() < 5 {
        return Err(ContestError::UnexpectedRow(i));
    }
    let v = match parse_u32(row[4].as_str()) {
        Some(v) => v,
        None => return Err(ContestError::BadNumber(i)),
    };
    match apply_columns(row, i, &mut contest.report_unit, Column::Stat(k)) {
        Ok(()) => {},
        Err(e) => return Err(e),
    }
    contest.total_count.set_stat(k, v);
    proof {
        let c = stat_row(rows.deep_view(), i as int, k as int, old(contest)@).unwrap();
        assert(contest@.total_count =~= c.total_count);
        assert(contest@ =~= c);
    }
    Ok(())
}

fn read_stat_rows(rows: &Vec<Vec<String>>, i: usize, contest: &mut Contest) -> (res: Result<(), ContestError>)
    ensures
        match stat_rows(rows.deep_view(), i as int, 0, old(contest)@) {
            Ok(c) => res is Ok && final(contest)@ == c,
            Err(e) => res == Err::<(), ContestError>(e),
        },
{
    let mut k: usize = 0;
    while k < 19
        invariant
            k <= 19,
            stat_rows(rows.deep_view(), i as int, k as int, contest@) == stat_rows(
                rows.deep_view(),
                i as int,
                0,
                old(contest)@,
            ),
        decreases 19 - k,
    {
        if i > usize::MAX - k {
            // Row `i + k` lies beyond any vector.
            let n = rows.len();
            proof {
                assert(i + k >= rows.deep_view().len());
                assert(stat_row(rows.deep_view(), i + k, k as int, contest@) is Err);
            }
            return Err(ContestError::MissingRow);
        }
        match read_stat_row(rows, i + k, k, contest) {
            Ok(()) => {},
            Err(e) => return Err(e),
        }
        k = k + 1;
    }
    Ok(())
}


fn read_row_votes(row: &Vec<String>, j: usize, contest: &mut Contest) -> (res: Result<(), ContestError>)
    ensures
        match row_votes(row.deep_view(), j as int, old(contest)@) {
            Ok(c) => res is Ok && final(contest)@ == c,
            Err(e) => res == Err::<(), ContestError>(e),
        },
{
    let n = contest.total_count.votes.len();
    if n == 0 {
        return Err(ContestError::CandidateBeforeList(j));
    }
    if row.len() < 5 {
        return Err(ContestError::UnexpectedRow(j));
    }
    let v = match parse_u32(row[4].as_str()) {
        Some(v) => v,
        None => return Err(ContestError::BadNumber(j)),
    };
    match apply_columns(row, j, &mut contest.report_unit, Column::Vote) {
        Ok(()) => {},
        Err(e) => return Err(e),
    }
    let ghost old_votes = contest.total_count.votes@;
    contest.total_count.votes[n - 1].push(v);
    proof {
        let c = row_votes(row.deep_view(), j as int, old(contest)@).unwrap();
        let new_votes = contest.total_count.votes@;
        assert forall|i: int| 0 <= i < n implies #[trigger] new_votes[i]@ == (if i == n - 1 {
            old_votes[i]@.push(v)
        } else {
            old_votes[i]@
        }) by {}
        assert(contest@.total_count.votes =~= c.total_count.votes);
        assert(contest@.total_count =~= c.total_count);
        assert(contest@ =~= c);
    }
    Ok(())
}

fn push_empty_votes(units: &mut Vec<ReportUnit>)
    ensures
        units_view(final(units)@) == units_view(old(units)@).map_values(
            |x: ReportUnitView|
                ReportUnitView {
                    count: CountView { votes: x.count.votes.push(Seq::empty()), ..x.count },
                    ..x
                },
        ),
{
    let ghost before = units_view(units@);
    let ghost target = before.map_values(
        |x: ReportUnitView|
            ReportUnitView {
                count: CountView { votes: x.count.votes.push(Seq::empty()), ..x.count },
                ..x
            },
    );
    let mut u: usize = 0;
    while u < units.len()
        invariant
            u <= units@.len(),
            before.len() == units@.len(),
            target.len() == before.len(),
            target == before.map_values(
                |x: ReportUnitView|
                    ReportUnitView {
                        count: CountView { votes: x.count.votes.push(Seq::empty()), ..x.count },
                        ..x
                    },
            ),
            forall|k: int| 0 <= k < u ==> #[trigger] units_view(units@)[k] == target[k],
            forall|k: int| u <= k < before.len() ==> #[trigger] units_view(units@)[k] == before[k],
        decreases units@.len() - u,
    {
        let ghost prev = units_view(units@);
        units[u].count.votes.push(Vec::new());
        proof {
            let now = units_view(units@);
            assert(now[u as int].count.votes =~= prev[u as int].count.votes.push(Seq::empty()));
            assert(now[u as int].count =~= target[u as int].count);
            assert(now[u as int] =~= target[u as int]);
            assert forall|k: int| 0 <= k < now.len() && k != u implies #[trigger] now[k] == prev[k] by {}
        }
        u = u + 1;
    }
    assert(units_view(units@) =~= target);
}

fn open_list(contest: &mut Contest, number: u8, name: String)
    ensures
        final(contest)@ == with_new_list(old(contest)@, number, name@),
{
    contest.lists.push(List { number: number, name: name, candidates: Vec::new() });
    contest.total_count.votes.push(Vec::new());
    push_empty_votes(&mut contest.report_unit);
    proof {
        let c = with_new_list(old(contest)@, number, name@);
        assert(units_view(contest.report_unit@) =~= c.report_unit);
        assert(contest.lists@.last()@.candidates =~= Seq::<CandidateView>::empty());
        assert(contest@.lists =~= c.lists);
        assert(contest@.total_count.votes =~= c.total_count.votes);
        assert(contest@.total_count =~= c.total_count);
        assert(contest@ =~= c);
    }
}

fn add_candidate(contest: &mut Contest, number: u8, name: String)
    requires
        old(contest).lists@.len() > 0,
    ensures
        final(contest)@ == with_new_candidate(old(contest)@, number, name@),
{
    let n = contest.lists.len();
    contest.lists[n - 1].candidates.push(Candidate { number: number, name: name });
    proof {
        let c = with_new_candidate(old(contest)@, number, name@);
        assert(contest@.lists[n - 1].candidates =~= c.lists[n - 1].candidates);
        assert(contest@.lists[n - 1] =~= c.lists[n - 1]);
        assert(contest@.lists =~= c.lists);
        assert(contest@ =~= c);
    }
}

fn read_list_row(rows: &Vec<Vec<String>>, j: usize, contest: &mut Contest) -> (res: Result<(), ContestError>)
    requires
        j < rows@.len(),
    ensures
        match list_row(rows.deep_view(), j as int, old(contest)@) {
            Ok(c) => res is Ok && final(contest)@ == c,
            Err(e) => res == Err::<(), ContestError>(e),
        },
{
    let row = &rows[j];
    if row.len() == 0 {
        return Err(ContestError::UnexpectedRow(j));
    }
    if !row[0].as_str().is_empty() {
        let number = match parse_u8(row[0].as_str()) {
            Some(v) => v,
            None => return Err(ContestError::BadNumber(j)),
        };
        if row.len() < 2 {
            return Err(ContestError::UnexpectedRow(j));
        }
        if !(row.len() >= 4 && row[2].as_str().is_empty() && row[3].as_str().is_empty()) {
            return Err(ContestError::UnexpectedRow(j));
        }
        open_list(contest, number, row[1].clone());
        read_row_votes(row, j, contest)
    } else {
        if !(row.len() >= 2 && row[1].as_str().is_empty()) {
            return Err(ContestError::UnexpectedRow(j));
        }
        if contest.lists.len() == 0 {
            return Err(ContestError::CandidateBeforeList(j));
        }
        if row.len() < 3 {
            return Err(ContestError::UnexpectedRow(j));
        }
        let number = match parse_u8(row[2].as_str()) {
            Some(v) => v,
            None => return Err(ContestError::BadNumber(j)),
        };
        if row.len() < 4 {
            return Err(ContestError::UnexpectedRow(j));
        }
        add_candidate(contest, number, row[3].clone());
        read_row_votes(row, j, contest)
    }
}

fn read_list_rows(rows: &Vec<Vec<String>>, start: usize, contest: &mut Contest) -> (res: Result<(), ContestError>)
    ensures
        match list_rows(rows.deep_view(), start as int, old(contest)@) {
            Ok(c) => res is Ok && final(contest)@ == c,
            Err(e) => res == Err::<(), ContestError>(e),
        },
{
    let mut j = start;
    while j < rows.len()
        invariant
            start <= j,
            list_rows(rows.deep_view(), j as int, contest@) == list_rows(
                rows.deep_view(),
                start as int,
                old(contest)@,
            ),
        decreases rows@.len() - j,
    {
        match read_list_row(rows, j, contest) {
            Ok(()) => {},
            Err(e) => return Err(e),
        }
        j = j + 1;
    }
    Ok(())
}

proof fn lemma_area_insert_pos_bounds(s: Seq<ReportUnitView>, key: u32)
    ensures
        0 <= area_insert_pos(s, key) <= s.len(),
    decreases s.len(),
{
    if s.len() > 0 {
        lemma_area_insert_pos_bounds(s.drop_last(), key);
    }
}

fn insert_position(sorted: &Vec<ReportUnit>, key: u32) -> (p: usize)
    ensures
        p as int == area_insert_pos(units_view(sorted@), key),
{
    let ghost s = units_view(sorted@);
    let mut p = sorted.len();
    assert(s.take(p as int) =~= s);
    while p > 0 && sorted[p - 1].area_number > key
        invariant
            p <= s.len(),
            s == units_view(sorted@),
            area_insert_pos(s, key) == area_insert_pos(s.take(p as int), key),
        decreases p,
    {
        assert(s.take(p as int).drop_last() =~= s.take(p - 1));
        p = p - 1;
    }
    proof {
        if p == 0 {
            assert(s.take(0).len() == 0);
        }
    }
    p
}

fn sort_units_by_area(units: Vec<ReportUnit>) -> (res: Vec<ReportUnit>)
    ensures
        units_view(res@) == sort_by_area(units_view(units@)),
{
    let ghost orig = units_view(units@);
    let mut rest = units;
    let mut sorted: Vec<ReportUnit> = Vec::new();
    let ghost mut i: int = 0;
    assert(orig.take(0) =~= Seq::<ReportUnitView>::empty());
    assert(orig.skip(0) =~= orig);
    while rest.len() > 0
        invariant
            0 <= i <= orig.len(),
            units_view(sorted@) == sort_by_area(orig.take(i)),
            units_view(sorted@).len() == i,
            units_view(rest@) == orig.skip(i),
        decreases rest@.len(),
    {
        let ghost r0 = rest@;
        assert(units_view(r0).len() == r0.len());
        assert(i < orig.len());
        assert(orig.skip(i)[0] == orig[i]);
        let u = rest.remove(0);
        let ghost uv = u@;
        assert(units_view(r0)[0] == uv);
        assert(uv == orig[i]);
        let p = insert_position(&sorted, u.area_number);
        proof {
            lemma_area_insert_pos_bounds(units_view(sorted@), u.area_number);
        }
        let ghost before = units_view(sorted@);
        sorted.insert(p, u);
        proof {
            assert(orig.take(i + 1).drop_last() =~= orig.take(i));
            assert(units_view(sorted@) =~= before.insert(p as int, uv));
            assert(rest@ =~= r0.subrange(1, r0.len() as int));
            assert forall|k: int| 0 <= k < rest@.len() implies #[trigger] units_view(rest@)[k]
                == orig.skip(i + 1)[k] by {
                assert(units_view(rest@)[k] == units_view(r0)[k + 1]);
                assert(units_view(r0)[k + 1] == orig.skip(i)[k + 1]);
            }
            assert(units_view(rest@) =~= orig.skip(i + 1));
            i = i + 1;
        }
    }
    assert(orig.take(i) =~= orig);
    sorted
}

fn read_contest_body(rows: &Vec<Vec<String>>, contest: &mut Contest) -> (res: Result<(), ContestError>)
    ensures
        match contest_body(rows.deep_view(), old(contest)@) {
            Ok(c) => res is Ok && final(contest)@ == c,
            Err(e) => res == Err::<(), ContestError>(e),
        },
{
    let i: usize = if rows.len() > 4 && rows[4].len() >= 1 && rows[4][0].as_str().is_empty() {
        5
    } else {
        4
    };
    let units = match read_units_row(rows, i) {
        Ok(u) => u,
        Err(e) => return Err(e),
    };
    if i + 1 >= rows.len() {
        return Err(ContestError::MissingRow);
    }
    if !is_titled_row(&rows[i + 1], "Gebiednummer") {
        return Err(ContestError::UnexpectedRow(i + 1));
    }
    contest.report_unit = units;
    match apply_columns(&rows[i + 1], i + 1, &mut contest.report_unit, Column::AreaNumber) {
        Ok(()) => {},
        Err(e) => return Err(e),
    }
    let has_postcode = i + 2 < rows.len() && rows[i + 2].len() >= 1 && str_eq(
        rows[i + 2][0].as_str(),
        "Postcode",
    );
    if has_postcode {
        if !is_titled_row(&rows[i + 2], "Postcode") {
            return Err(ContestError::UnexpectedRow(i + 2));
        }
        match apply_columns(&rows[i + 2], i + 2, &mut contest.report_unit, Column::Zipcode) {
            Ok(()) => {},
            Err(e) => return Err(e),
        }
    }
    let s = if has_postcode { i + 3 } else { i + 2 };
    let ghost c2 = contest@;
    match read_stat_rows(rows, s, contest) {
        Ok(()) => {},
        Err(e) => return Err(e),
    }
    let ghost c3 = contest@;
    match read_list_rows(rows, s + 19, contest) {
        Ok(()) => {},
        Err(e) => return Err(e),
    }
    let mut units = Vec::new();
    std::mem::swap(&mut units, &mut contest.report_unit);
    let ghost c4 = contest@;
    contest.report_unit = sort_units_by_area(units);
    proof {
        let spec_c = contest_body(rows.deep_view(), old(contest)@).unwrap();
        assert(contest@ =~= spec_c);
    }
    Ok(())
}

/// Reads the contest that the rows of an OSV export describe (each row as its fields).
pub fn contest_from_rows(rows: &Vec<Vec<String>>) -> (res: Result<Contest, ContestError>)
    ensures
        contest_result(res) == contest_of_rows(rows.deep_view()),
{
    let mut contest = match read_contest_head(rows) {
        Ok(c) => c,
        Err(e) => return Err(e),
    };
    match read_contest_body(rows, &mut contest) {
        Ok(()) => Ok(contest),
        Err(e) => Err(e),
    }
}

/// Reads the contest that an OSV export describes: the bytes of a `;`-separated file without
/// header line, whose rows may differ in length.
///
/// An export that does not describe a contest gives an error, never a panic: bytes that are
/// not `;`-separated text (`Csv`); a missing row (`MissingRow`); a row with a wrong title or a
/// non-empty filler field (`UnexpectedRow`); a list or candidate number that is no `u8`, or a
/// count that is no `u32` (`BadNumber`); a day-first date that is no date (`CorruptDate`); an
/// area number longer than four bytes (`AreaCodeTooLong`); a name cut inside a character or
/// too short to cut (`BadSlice`); an election name of no known kind (`UnknownElection`,
/// `UnknownWaterBoard`); a row wider than the units row (`TooManyColumns`); a candidate or vote
/// before the first list (`CandidateBeforeList`).
pub fn csv2contest(input: &[u8]) -> (res: Result<Contest, ContestError>)
    ensures
        contest_result(res) == contest_of_export(input@),
{
    match read_records(input, 59u8, true, false) {
        Ok(rows) => contest_from_rows(&rows),
        Err(_) => Err(ContestError::Csv),
    }
}

} // verus!
