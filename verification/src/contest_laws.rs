//! What holds of every contest that an export is read as.
use crate::model::{ContestView, ListView, ReportUnitView};
use crate::osv::{
    apply_column, columns_from, contest_body, contest_head, contest_of_export, election_kind_of,
    padded_area_code, short_area_name,
    list_row, list_rows, row_votes, sort_by_area, area_insert_pos, stat_row, stat_rows,
    titled_row, units_of_row, units_row_index, with_new_candidate, with_new_list, Column,
    ContestError, Rows,
};
use crate::csv_input;
use vstd::prelude::*;

verus! {

/// The fields of a contest that its header rows decide.
pub open spec fn same_header(a: ContestView, b: ContestView) -> bool {
    &&& a.election_identifier_name == b.election_identifier_name
    &&& a.election_date == b.election_date
    &&& a.area_name == b.area_name
    &&& a.area_name_short == b.area_name_short
    &&& a.area_code == b.area_code
    &&& a.election_category == b.election_category
    &&& a.election_subcategory == b.election_subcategory
    &&& a.election_domain == b.election_domain
    &&& a.election_identifier_id == b.election_identifier_id
    &&& a.creation_date_time == b.creation_date_time
    &&& a.contest_id == b.contest_id
    &&& a.contest_name == b.contest_name
}

/// The reporting units in order of area number.
pub open spec fn sorted_by_area(s: Seq<ReportUnitView>) -> bool {
    forall|i: int, j: int| 0 <= i < j < s.len() ==> #[trigger] s[i].area_number <= #[trigger] s[j].area_number
}

proof fn lemma_stat_rows_keep_header(rows: Rows, i: int, k: int, c: ContestView)
    ensures
        stat_rows(rows, i, k, c) matches Ok(c2) ==> same_header(c, c2) && c2.lists == c.lists,
    decreases 19 - k,
{
    if k < 19 {
        if let Ok(c1) = stat_row(rows, i + k, k, c) {
            lemma_stat_rows_keep_header(rows, i, k + 1, c1);
        }
    }
}

proof fn lemma_list_rows_keep_header(rows: Rows, j: int, c: ContestView)
    ensures
        list_rows(rows, j, c) matches Ok(c2) ==> same_header(c, c2),
    decreases rows.len() - j,
{
    if j < rows.len() {
        if let Ok(c1) = list_row(rows, j, c) {
            lemma_list_rows_keep_header(rows, j + 1, c1);
        }
    }
}

proof fn lemma_body_keeps_header(rows: Rows, c: ContestView)
    ensures
        contest_body(rows, c) matches Ok(c2) ==> same_header(c, c2),
{
    let i = units_row_index(rows);
    if let Ok(units) = units_of_row(rows, i) {
        if i + 1 < rows.len() && titled_row(rows[i + 1], "Gebiednummer"@) {
            if let Ok(u1) = columns_from(rows[i + 1], i + 1, units, 5, Column::AreaNumber) {
                let has_postcode = i + 2 < rows.len() && rows[i + 2].len() >= 1 && rows[i
                    + 2][0] == "Postcode"@;
                let zipped = if !has_postcode {
                    Ok(u1)
                } else if !titled_row(rows[i + 2], "Postcode"@) {
                    Err(ContestError::UnexpectedRow((i + 2) as usize))
                } else {
                    columns_from(rows[i + 2], i + 2, u1, 5, Column::Zipcode)
                };
                if let Ok(u2) = zipped {
                    let s = if has_postcode { i + 3 } else { i + 2 };
                    let c1 = ContestView { report_unit: u2, ..c };
                    lemma_stat_rows_keep_header(rows, s, 0, c1);
                    if let Ok(c3) = stat_rows(rows, s, 0, c1) {
                        lemma_list_rows_keep_header(rows, s + 19, c3);
                    }
                }
            }
        }
    }
}

/// Every contest read from an export is stamped with its election date and the fixed time
/// `T12:34:56.789` as its creation time.
pub proof fn lemma_creation_time_is_election_date(input: Seq<u8>)
    ensures
        contest_of_export(input) matches Ok(c) ==> c.creation_date_time == c.election_date
            + "T12:34:56.789"@,
{
    if let Some(rows) = csv_input::csv_records(input, 59u8, true, false) {
        if let Ok(h) = contest_head(rows) {
            lemma_body_keeps_header(rows, h);
        }
    }
}

proof fn lemma_area_insert_pos_splits(s: Seq<ReportUnitView>, key: u32)
    requires
        sorted_by_area(s),
    ensures
        0 <= area_insert_pos(s, key) <= s.len(),
        forall|i: int| 0 <= i < area_insert_pos(s, key) ==> #[trigger] s[i].area_number <= key,
        forall|i: int| area_insert_pos(s, key) <= i < s.len() ==> #[trigger] s[i].area_number > key,
    decreases s.len(),
{
    if s.len() > 0 {
        let p = area_insert_pos(s, key);
        if s.last().area_number <= key {
            assert forall|i: int| 0 <= i < p implies #[trigger] s[i].area_number <= key by {
                if i < s.len() - 1 {
                    assert(s[i].area_number <= s[s.len() - 1].area_number);
                }
            }
        } else {
            let r = s.drop_last();
            assert(sorted_by_area(r)) by {
                assert forall|i: int, j: int| 0 <= i < j < r.len() implies #[trigger] r[i].area_number
                    <= #[trigger] r[j].area_number by {
                    assert(r[i] == s[i] && r[j] == s[j]);
                    assert(s[i].area_number <= s[j].area_number);
                }
            }
            lemma_area_insert_pos_splits(r, key);
            assert forall|i: int| 0 <= i < p implies #[trigger] s[i].area_number <= key by {
                assert(r[i] == s[i]);
            }
            assert forall|i: int| p <= i < s.len() implies #[trigger] s[i].area_number > key by {
                if i < s.len() - 1 {
                    assert(r[i] == s[i]);
                }
            }
        }
    }
}

/// The reporting units of a contest come out ordered by area number, and none is lost,
/// added or doubled on the way: the result holds exactly the units it was given.
pub proof fn lemma_sort_by_area(s: Seq<ReportUnitView>)
    ensures
        sorted_by_area(sort_by_area(s)),
        sort_by_area(s).to_multiset() =~= s.to_multiset(),
        sort_by_area(s).len() == s.len(),
    decreases s.len(),
{
    broadcast use vstd::seq_lib::group_to_multiset_ensures;
    broadcast use vstd::multiset::group_multiset_axioms;

    if s.len() > 0 {
        let rest = s.drop_last();
        let x = s.last();
        lemma_sort_by_area(rest);
        let r = sort_by_area(rest);
        lemma_area_insert_pos_splits(r, x.area_number);
        let p = area_insert_pos(r, x.area_number);
        let t = r.insert(p, x);
        assert(sort_by_area(s) == t);
        assert forall|i: int, j: int| 0 <= i < j < t.len() implies #[trigger] t[i].area_number
            <= #[trigger] t[j].area_number by {
            if j < p {
                assert(t[i] == r[i] && t[j] == r[j]);
            } else if j == p {
                assert(t[i] == r[i]);
            } else if i < p {
                assert(t[i] == r[i] && t[j] == r[j - 1]);
            } else if i == p {
                assert(t[j] == r[j - 1]);
            } else {
                assert(t[i] == r[i - 1] && t[j] == r[j - 1]);
            }
        }
        assert(t.remove(p) =~= r);
        assert(t[p] == x);
        assert(t.remove(p).to_multiset() == t.to_multiset().remove(x));
        assert(t.contains(x));
        assert(t.to_multiset().count(x) > 0);
        assert(t.to_multiset() =~= r.to_multiset().insert(x));
        assert(s =~= rest.push(x));
        assert(s.to_multiset() =~= rest.to_multiset().insert(x));
    }
}

/// The reporting units of every contest read from an export are ordered by area number.
pub proof fn lemma_units_ordered_by_area(input: Seq<u8>)
    ensures
        contest_of_export(input) matches Ok(c) ==> sorted_by_area(c.report_unit),
{
    if let Some(rows) = csv_input::csv_records(input, 59u8, true, false) {
        if let Ok(h) = contest_head(rows) {
            if let Ok(c) = contest_body(rows, h) {
                let i = units_row_index(rows);
                let units = units_of_row(rows, i)->Ok_0;
                let u1 = columns_from(rows[i + 1], i + 1, units, 5, Column::AreaNumber)->Ok_0;
                let has_postcode = i + 2 < rows.len() && rows[i + 2].len() >= 1 && rows[i
                    + 2][0] == "Postcode"@;
                let u2 = if has_postcode {
                    columns_from(rows[i + 2], i + 2, u1, 5, Column::Zipcode)->Ok_0
                } else {
                    u1
                };
                let s = if has_postcode { i + 3 } else { i + 2 };
                let c3 = stat_rows(rows, s, 0, ContestView { report_unit: u2, ..h })->Ok_0;
                let c4 = list_rows(rows, s + 19, c3)->Ok_0;
                lemma_sort_by_area(c4.report_unit);
            }
        }
    }
}

// ---------------------------------------------------------------------------
// The shape of the votes.
// ---------------------------------------------------------------------------

/// The votes of a count, one row per list: `votes[i]` holds the vote of list `i` and then
/// one vote per candidate of it; the last row may lack `lack` of them, and where `exact`
/// is false any row may lack some.
pub open spec fn votes_shaped(lists: Seq<ListView>, votes: Seq<Seq<u32>>, lack: int, exact: bool) -> bool {
    &&& votes.len() == lists.len()
    &&& forall|i: int|
        0 <= i < votes.len() ==> {
            let want = lists[i].candidates.len() + 1 - if i == votes.len() - 1 { lack } else { 0 };
            if exact {
                #[trigger] votes[i].len() == want
            } else {
                votes[i].len() <= want
            }
        }
}

/// The total count holds a vote for each list and each of its candidates (the last list
/// lacking `lack` of them), and the count of every reporting unit holds at most that.
pub open spec fn vote_shape(c: ContestView, lack: int) -> bool {
    &&& votes_shaped(c.lists, c.total_count.votes, lack, true)
    &&& forall|k: int|
        0 <= k < c.report_unit.len() ==> votes_shaped(c.lists, #[trigger] c.report_unit[k].count.votes, lack, false)
}

/// `b` is `a` with at most one vote appended to its last row.
pub open spec fn at_most_one_more(a: Seq<Seq<u32>>, b: Seq<Seq<u32>>) -> bool {
    &&& b.len() == a.len()
    &&& forall|i: int| 0 <= i < a.len() - 1 ==> #[trigger] b[i] == a[i]
    &&& a.len() > 0 ==> b.last().len() <= a.last().len() + 1
}

proof fn lemma_columns_keep_votes(
    row: Seq<Seq<char>>,
    r: int,
    units: Seq<ReportUnitView>,
    col: int,
    target: Column,
)
    requires
        !(target is Vote),
        col >= 5,
    ensures
        columns_from(row, r, units, col, target) matches Ok(u2) ==> {
            &&& u2.len() == units.len()
            &&& forall|k: int| 0 <= k < units.len() ==> #[trigger] u2[k].count.votes == units[k].count.votes
        },
    decreases row.len() - col,
{
    if col < row.len() {
        if let Ok(u) = apply_column(row, r, units, col, target) {
            lemma_columns_keep_votes(row, r, u, col + 1, target);
            assert(u.len() == units.len());
            assert forall|k: int| 0 <= k < units.len() implies #[trigger] u[k].count.votes
                == units[k].count.votes by {
                if k == col - 5 {
                    assert(u[k].count.votes == units[k].count.votes);
                }
            }
        }
    }
}

proof fn lemma_columns_add_votes(row: Seq<Seq<char>>, r: int, units: Seq<ReportUnitView>, col: int)
    requires
        col >= 5,
    ensures
        columns_from(row, r, units, col, Column::Vote) matches Ok(u2) ==> {
            &&& u2.len() == units.len()
            &&& forall|k: int|
                0 <= k < units.len() ==> if k < col - 5 {
                    #[trigger] u2[k].count.votes == units[k].count.votes
                } else {
                    at_most_one_more(units[k].count.votes, u2[k].count.votes)
                }
        },
    decreases row.len() - col,
{
    if col < row.len() {
        if let Ok(u) = apply_column(row, r, units, col, Column::Vote) {
            lemma_columns_add_votes(row, r, u, col + 1);
            if let Ok(u2) = columns_from(row, r, units, col, Column::Vote) {
                assert forall|k: int| 0 <= k < units.len() implies if k < col - 5 {
                    #[trigger] u2[k].count.votes == units[k].count.votes
                } else {
                    at_most_one_more(units[k].count.votes, u2[k].count.votes)
                } by {
                    if k == col - 5 {
                        let a = units[k].count.votes;
                        assert(u2[k].count.votes == u[k].count.votes);
                        assert(a.len() > 0);
                        assert forall|i: int| 0 <= i < a.len() - 1 implies #[trigger] u2[k].count.votes[i] == a[i] by {
                        }
                    } else if k > col - 5 {
                        assert(u[k] == units[k]);
                    }
                }
            }
        }
    }
}

proof fn lemma_stat_rows_keep_shape(rows: Rows, i: int, k: int, c: ContestView)
    requires
        vote_shape(c, 0),
    ensures
        stat_rows(rows, i, k, c) matches Ok(c2) ==> vote_shape(c2, 0),
    decreases 19 - k,
{
    if k < 19 {
        if let Ok(c1) = stat_row(rows, i + k, k, c) {
            let row = rows[i + k];
            lemma_columns_keep_votes(row, i + k, c.report_unit, 5, Column::Stat(k as usize));
            let units = columns_from(row, i + k, c.report_unit, 5, Column::Stat(k as usize))->Ok_0;
            assert(c1.report_unit == units);
            assert(c1.lists == c.lists);
            assert(c1.total_count.votes == c.total_count.votes);
            assert forall|u: int| 0 <= u < c1.report_unit.len() implies votes_shaped(
                c1.lists,
                #[trigger] c1.report_unit[u].count.votes,
                0,
                false,
            ) by {
                assert(c1.report_unit[u].count.votes == c.report_unit[u].count.votes);
            }
            lemma_stat_rows_keep_shape(rows, i, k + 1, c1);
        }
    }
}

proof fn lemma_row_votes_shape(row: Seq<Seq<char>>, j: int, c: ContestView)
    requires
        vote_shape(c, 1),
        c.lists.len() > 0,
    ensures
        row_votes(row, j, c) matches Ok(c2) ==> vote_shape(c2, 0) && c2.lists == c.lists,
{
    if let Ok(c2) = row_votes(row, j, c) {
        lemma_columns_add_votes(row, j, c.report_unit, 5);
        let n = c.lists.len();
        let tv = c.total_count.votes;
        let tv2 = c2.total_count.votes;
        assert(tv2.len() == n);
        assert forall|i: int| 0 <= i < n implies #[trigger] tv2[i].len() == c.lists[i].candidates.len()
            + 1 by {
            if i < n - 1 {
                assert(tv2[i] == tv[i]);
            } else {
                assert(tv2[i] == tv.last().push(tv2[i].last()));
            }
        }
        assert forall|u: int| 0 <= u < c2.report_unit.len() implies votes_shaped(
            c2.lists,
            #[trigger] c2.report_unit[u].count.votes,
            0,
            false,
        ) by {
            let a = c.report_unit[u].count.votes;
            let b = c2.report_unit[u].count.votes;
            assert(votes_shaped(c.lists, a, 1, false));
            assert(at_most_one_more(a, b));
            assert forall|i: int| 0 <= i < b.len() implies #[trigger] b[i].len() <= c2.lists[i].candidates.len()
                + 1 by {
                if i < n - 1 {
                    assert(b[i] == a[i]);
                    assert(a[i].len() <= c.lists[i].candidates.len() + 1);
                } else {
                    assert(a[n - 1].len() <= c.lists[n - 1].candidates.len());
                }
            }
        }
    }
}

proof fn lemma_list_row_shape(rows: Rows, j: int, c: ContestView)
    requires
        vote_shape(c, 0),
        0 <= j < rows.len(),
    ensures
        list_row(rows, j, c) matches Ok(c2) ==> vote_shape(c2, 0),
{
    let row = rows[j];
    if row.len() > 0 && row[0].len() != 0 {
        if let Some(number) = crate::text::parse_u8_of(row[0]) {
            if row.len() >= 4 {
                let c1 = with_new_list(c, number, row[1]);
                let n = c1.lists.len();
                let tv = c1.total_count.votes;
                assert forall|i: int| 0 <= i < tv.len() implies {
                    let want = c1.lists[i].candidates.len() + 1 - if i == tv.len() - 1 { 1int } else { 0 };
                    #[trigger] tv[i].len() == want
                } by {
                    if i < n - 1 {
                        assert(tv[i] == c.total_count.votes[i]);
                        assert(c1.lists[i] == c.lists[i]);
                    }
                }
                assert forall|u: int| 0 <= u < c1.report_unit.len() implies votes_shaped(
                    c1.lists,
                    #[trigger] c1.report_unit[u].count.votes,
                    1,
                    false,
                ) by {
                    let a = c.report_unit[u].count.votes;
                    let b = c1.report_unit[u].count.votes;
                    assert(b == a.push(Seq::<u32>::empty()));
                    assert(votes_shaped(c.lists, a, 0, false));
                    assert forall|i: int| 0 <= i < b.len() implies {
                        let want = c1.lists[i].candidates.len() + 1 - if i == b.len() - 1 { 1int } else { 0 };
                        #[trigger] b[i].len() <= want
                    } by {
                        if i < n - 1 {
                            assert(b[i] == a[i]);
                            assert(c1.lists[i] == c.lists[i]);
                        }
                    }
                }
                lemma_row_votes_shape(row, j, c1);
            }
        }
    } else if row.len() >= 4 && c.lists.len() > 0 {
        if let Some(number) = crate::text::parse_u8_of(row[2]) {
            let c1 = with_new_candidate(c, number, row[3]);
            let n = c1.lists.len();
            assert forall|i: int| 0 <= i < n implies #[trigger] c1.lists[i].candidates.len() == c.lists[i].candidates.len()
                + if i == n - 1 { 1int } else { 0 } by {}
            assert forall|u: int| 0 <= u < c1.report_unit.len() implies votes_shaped(
                c1.lists,
                #[trigger] c1.report_unit[u].count.votes,
                1,
                false,
            ) by {
                assert(votes_shaped(c.lists, c.report_unit[u].count.votes, 0, false));
            }
            lemma_row_votes_shape(row, j, c1);
        }
    }
}

proof fn lemma_list_rows_shape(rows: Rows, j: int, c: ContestView)
    requires
        vote_shape(c, 0),
        0 <= j,
    ensures
        list_rows(rows, j, c) matches Ok(c2) ==> vote_shape(c2, 0),
    decreases rows.len() - j,
{
    if j < rows.len() {
        lemma_list_row_shape(rows, j, c);
        if let Ok(c1) = list_row(rows, j, c) {
            lemma_list_rows_shape(rows, j + 1, c1);
        }
    }
}

/// Every contest read from an export has a vote in its total count for each list and each
/// of its candidates, in the order of the lists, and no more; the count of each reporting
/// unit has one row of votes per list and at most that many votes in each. (A unit lacks
/// votes where a row of the export stops short of its column.)
pub proof fn lemma_votes_follow_lists(input: Seq<u8>)
    ensures
        contest_of_export(input) matches Ok(c) ==> {
            &&& vote_shape(c, 0)
            &&& crate::eml::votes_cover(c.lists, c.total_count)
        },
{
    broadcast use vstd::seq_lib::group_to_multiset_ensures;

    if let Some(rows) = csv_input::csv_records(input, 59u8, true, false) {
        if let Ok(h) = contest_head(rows) {
            if let Ok(c) = contest_body(rows, h) {
                let i = units_row_index(rows);
                let units = units_of_row(rows, i)->Ok_0;
                lemma_columns_keep_votes(rows[i + 1], i + 1, units, 5, Column::AreaNumber);
                let u1 = columns_from(rows[i + 1], i + 1, units, 5, Column::AreaNumber)->Ok_0;
                let has_postcode = i + 2 < rows.len() && rows[i + 2].len() >= 1 && rows[i
                    + 2][0] == "Postcode"@;
                let u2 = if has_postcode {
                    lemma_columns_keep_votes(rows[i + 2], i + 2, u1, 5, Column::Zipcode);
                    columns_from(rows[i + 2], i + 2, u1, 5, Column::Zipcode)->Ok_0
                } else {
                    u1
                };
                let s = if has_postcode { i + 3 } else { i + 2 };
                let c1 = ContestView { report_unit: u2, ..h };
                assert forall|k: int| 0 <= k < c1.report_unit.len() implies votes_shaped(
                    c1.lists,
                    #[trigger] c1.report_unit[k].count.votes,
                    0,
                    false,
                ) by {
                    assert(u2[k].count.votes == u1[k].count.votes);
                    assert(u1[k].count.votes == units[k].count.votes);
                }
                lemma_stat_rows_keep_shape(rows, s, 0, c1);
                let c3 = stat_rows(rows, s, 0, c1)->Ok_0;
                lemma_list_rows_shape(rows, s + 19, c3);
                let c4 = list_rows(rows, s + 19, c3)->Ok_0;
                lemma_sort_by_area(c4.report_unit);
                assert(c.report_unit == sort_by_area(c4.report_unit));
                assert forall|k: int| 0 <= k < c.report_unit.len() implies votes_shaped(
                    c.lists,
                    #[trigger] c.report_unit[k].count.votes,
                    0,
                    false,
                ) by {
                    let x = c.report_unit[k];
                    assert(c.report_unit.contains(x));
                    assert(c.report_unit.to_multiset().count(x) > 0);
                    assert(c4.report_unit.to_multiset().count(x) > 0);
                    assert(c4.report_unit.contains(x));
                    let m = choose|m: int| 0 <= m < c4.report_unit.len() && c4.report_unit[m] == x;
                    assert(votes_shaped(c4.lists, c4.report_unit[m].count.votes, 0, false));
                }
                assert forall|l: int| 0 <= l < c.lists.len() implies #[trigger] c.total_count.votes[l].len()
                    >= c.lists[l].candidates.len() + 1 by {
                    assert(votes_shaped(c.lists, c.total_count.votes, 0, true));
                }
            }
        }
    }
}

// ---------------------------------------------------------------------------
// The kinds of election.
// ---------------------------------------------------------------------------

/// The provinces whose states are elected in two election districts.
pub open spec fn elects_in_two_districts(d: Seq<char>) -> bool {
    ||| d == "Gelderland"@
    ||| d == "Noord-Holland"@
    ||| d == "Zuid-Holland"@
    ||| d == "Noord-Brabant"@
    ||| d == "Limburg"@
}

/// The water boards with a small general board.
pub open spec fn has_small_board(d: Seq<char>) -> bool {
    ||| d == "Noorderzijlvest"@
    ||| d == "Fryslân"@
    ||| d == "Hunze en Aa's"@
    ||| d == "Zuiderzeeland"@
}

/// What the header of a contest tells of its kind: a provincial election (`PS`) has a
/// province as domain and subcategory `PS2` exactly for Gelderland, Noord-Holland,
/// Zuid-Holland, Noord-Brabant and Limburg, `PS1` for any other; a water board election (`AB`)
/// has the board as domain and subcategory `AB1` exactly for Noorderzijlvest, Fryslân, Hunze en
/// Aa's and Zuiderzeeland, `AB2` for any other; a European (`EP`) or house (`TK`) election has
/// no domain, subcategory equal to its category, and contest `alle` or `TODO`.
pub open spec fn kind_fits(
    category: Seq<char>,
    subcategory: Seq<char>,
    domain: Option<Seq<char>>,
    contest_id: Seq<char>,
) -> bool {
    &&& category == "PS"@ || category == "AB"@ || category == "EP"@ || category == "TK"@
    &&& category == "PS"@ ==> {
        &&& domain is Some
        &&& contest_id == "geen"@
        &&& subcategory == (if elects_in_two_districts(domain->0) { "PS2"@ } else { "PS1"@ })
    }
    &&& category == "AB"@ ==> {
        &&& domain is Some
        &&& contest_id == "geen"@
        &&& subcategory == (if has_small_board(domain->0) { "AB1"@ } else { "AB2"@ })
    }
    &&& category == "EP"@ ==> subcategory == "EP"@ && domain is None && contest_id == "alle"@
    &&& category == "TK"@ ==> subcategory == "TK"@ && domain is None && contest_id == "TODO"@
}

proof fn lemma_kind_names_differ()
    ensures
        "PS"@ != "AB"@,
        "PS"@ != "EP"@,
        "PS"@ != "TK"@,
        "AB"@ != "EP"@,
        "AB"@ != "TK"@,
        "EP"@ != "TK"@,
{
    reveal_strlit("PS");
    reveal_strlit("AB");
    reveal_strlit("EP");
    reveal_strlit("TK");
    assert("PS"@[0] == 'P' && "AB"@[0] == 'A' && "EP"@[0] == 'E' && "TK"@[0] == 'T');
}

/// Every election name that is read names a kind of election that fits its category
/// (`kind_fits`).
pub proof fn lemma_election_kind_fits(name: Seq<char>)
    ensures
        election_kind_of(name) matches Ok(k) ==> kind_fits(k.category, k.subcategory, k.domain, k.contest_id),
{
    lemma_kind_names_differ();
}

/// Every contest read from an export has a category, subcategory, domain and contest that fit
/// (`kind_fits`): for instance, a provincial election in Gelderland has subcategory `PS2`,
/// and a water board election for Zuiderzeeland has subcategory `AB1`.
pub proof fn lemma_contest_kind_fits(input: Seq<u8>)
    ensures
        contest_of_export(input) matches Ok(c) ==> kind_fits(
            c.election_category,
            c.election_subcategory,
            c.election_domain,
            c.contest_id,
        ),
{
    if let Some(rows) = csv_input::csv_records(input, 59u8, true, false) {
        if let Ok(h) = contest_head(rows) {
            lemma_body_keeps_header(rows, h);
            let name = crate::osv::header_value(rows, 0, "Verkiezing"@)->Ok_0;
            lemma_election_kind_fits(name);
        }
    }
}

// ---------------------------------------------------------------------------
// The order of reporting units with equal area numbers.
// ---------------------------------------------------------------------------

/// The reporting units of `s` with area number `k`, in their order in `s`.
pub open spec fn units_with_area(s: Seq<ReportUnitView>, k: u32) -> Seq<ReportUnitView>
    decreases s.len(),
{
    if s.len() == 0 {
        s
    } else if s.last().area_number == k {
        units_with_area(s.drop_last(), k).push(s.last())
    } else {
        units_with_area(s.drop_last(), k)
    }
}

proof fn lemma_units_with_area_concat(a: Seq<ReportUnitView>, b: Seq<ReportUnitView>, k: u32)
    ensures
        units_with_area(a + b, k) == units_with_area(a, k) + units_with_area(b, k),
    decreases b.len(),
{
    if b.len() == 0 {
        assert(a + b =~= a);
        assert(units_with_area(a, k) + units_with_area(b, k) =~= units_with_area(a, k));
    } else {
        lemma_units_with_area_concat(a, b.drop_last(), k);
        assert((a + b).drop_last() =~= a + b.drop_last());
        assert((a + b).last() == b.last());
        if b.last().area_number == k {
            assert(units_with_area(a, k) + units_with_area(b.drop_last(), k).push(b.last()) =~= (
            units_with_area(a, k) + units_with_area(b.drop_last(), k)).push(b.last()));
        }
    }
}

proof fn lemma_units_with_area_none(s: Seq<ReportUnitView>, k: u32)
    requires
        forall|i: int| 0 <= i < s.len() ==> #[trigger] s[i].area_number != k,
    ensures
        units_with_area(s, k) == Seq::<ReportUnitView>::empty(),
    decreases s.len(),
{
    if s.len() > 0 {
        lemma_units_with_area_none(s.drop_last(), k);
        assert(s.last().area_number != k);
    }
}

/// Ordering by area number keeps the order of units with equal area numbers: for every area
/// number, the units with that number come out in the order in which they came in.
pub proof fn lemma_sort_by_area_is_stable(s: Seq<ReportUnitView>, k: u32)
    ensures
        units_with_area(sort_by_area(s), k) == units_with_area(s, k),
    decreases s.len(),
{
    if s.len() > 0 {
        let rest = s.drop_last();
        let x = s.last();
        lemma_sort_by_area_is_stable(rest, k);
        lemma_sort_by_area(rest);
        let r = sort_by_area(rest);
        lemma_area_insert_pos_splits(r, x.area_number);
        let p = area_insert_pos(r, x.area_number);
        let front = r.take(p);
        let back = r.skip(p);
        assert(r =~= front + back);
        assert(r.insert(p, x) =~= front + seq![x] + back);
        lemma_units_with_area_concat(front, back, k);
        lemma_units_with_area_concat(front + seq![x], back, k);
        lemma_units_with_area_concat(front, seq![x], k);
        assert(seq![x].drop_last() =~= Seq::<ReportUnitView>::empty());
        assert(seq![x].last() == x);
        assert(units_with_area(Seq::<ReportUnitView>::empty(), k) =~= Seq::<ReportUnitView>::empty());
        assert(units_with_area(seq![x].drop_last(), k) =~= Seq::<ReportUnitView>::empty());
        if x.area_number == k {
            assert forall|i: int| 0 <= i < back.len() implies #[trigger] back[i].area_number != k by {
                assert(back[i] == r[p + i]);
            }
            lemma_units_with_area_none(back, k);
            assert(units_with_area(seq![x], k) =~= seq![x]);
            assert(units_with_area(back, k) + Seq::<ReportUnitView>::empty() =~= units_with_area(back, k));
            assert(units_with_area(front, k) + Seq::<ReportUnitView>::empty() =~= units_with_area(front, k));
            assert(units_with_area(front, k) + seq![x] =~= units_with_area(front, k).push(x));
        } else {
            assert(units_with_area(seq![x], k) =~= Seq::<ReportUnitView>::empty());
            assert(units_with_area(front, k) + Seq::<ReportUnitView>::empty() =~= units_with_area(front, k));
        }
    }
}

// ---------------------------------------------------------------------------
// The area code.
// ---------------------------------------------------------------------------

proof fn lemma_zeros_then_len(z: Seq<char>, s: Seq<char>)
    requires
        forall|i: int| 0 <= i < z.len() ==> z[i] == '0',
    ensures
        crate::text::utf8_len(z + s) == z.len() + crate::text::utf8_len(s),
    decreases z.len(),
{
    if z.len() > 0 {
        lemma_zeros_then_len(z.drop_first(), s);
        assert((z + s).drop_first() =~= z.drop_first() + s);
        assert((z + s)[0] == '0');
        assert(vstd::utf8::encode_scalar('0' as u32).len() == 1);
    }
}

/// The area code is the number from the export padded with zeros in front to four bytes: a
/// number of at most four bytes is kept at the end of the code, behind only zeros, and the code
/// is four bytes long; a longer number is refused.
pub proof fn lemma_area_code_padding(code: Seq<char>)
    ensures
        padded_area_code(code) is Err <==> crate::text::utf8_len(code) > 4,
        padded_area_code(code) matches Ok(p) ==> {
            &&& crate::text::utf8_len(p) == 4
            &&& p.len() >= code.len()
            &&& p.subrange(p.len() - code.len(), p.len() as int) == code
            &&& forall|i: int| 0 <= i < p.len() - code.len() ==> #[trigger] p[i] == '0'
        },
{
    if crate::text::utf8_len(code) <= 4 {
        let z = Seq::new((4 - crate::text::utf8_len(code)) as nat, |i: int| '0');
        let p = z + code;
        assert(padded_area_code(code) == Ok::<Seq<char>, ContestError>(p));
        lemma_zeros_then_len(z, code);
        assert(p.subrange(p.len() - code.len(), p.len() as int) =~= code);
    }
}

/// The area code of every contest read from an export is four bytes long.
pub proof fn lemma_contest_area_code(input: Seq<u8>)
    ensures
        contest_of_export(input) matches Ok(c) ==> crate::text::utf8_len(c.area_code) == 4,
{
    if let Some(rows) = csv_input::csv_records(input, 59u8, true, false) {
        if let Ok(h) = contest_head(rows) {
            lemma_body_keeps_header(rows, h);
            let raw = crate::osv::header_value(rows, 3, "Nummer"@)->Ok_0;
            lemma_area_code_padding(raw);
        }
    }
}

/// The short area name is the area name itself, or, for a name of more than ten bytes, what
/// follows its leading word `Gemeente ` (a municipality): the name is `Gemeente ` followed by
/// the short name.
pub proof fn lemma_short_area_name(name: Seq<char>)
    ensures
        short_area_name(name) matches Ok(s) ==> s == name || (crate::text::utf8_len(name) > 10 && name
            == "Gemeente "@ + s),
{
    broadcast use vstd::utf8::group_utf8_lib;

    if let Ok(s) = short_area_name(name) {
        if s != name {
            let b = vstd::utf8::encode_utf8(name);
            vstd::utf8::decode_utf8_split(b, 9);
            assert(b.subrange(9, b.len() as int) == b.subrange(9, crate::text::utf8_len(name)));
            assert(name == crate::text::byte_slice(name, 0, 9) + crate::text::byte_slice(
                name,
                9,
                crate::text::utf8_len(name),
            ));
        }
    }
}

} // verus!
