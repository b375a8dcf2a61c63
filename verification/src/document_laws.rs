//! What holds of the markup of a document, beyond its being well nested.
use crate::eml::{
    candidate_markup, candidates_markup, contest_markup, count_markup, creator_comment, element,
    election_identifier_markup, eml_markup, eml_open, list_markup, lists_markup, open_tag,
    open_tag_with, reason_entry, reasons_markup, text_element, unit_markup, units_markup,
};
use crate::model::{CandidateView, ContestView, CountView, ListView, ReportUnitView};
use crate::text;
use crate::xml_out::MarkupView;
use vstd::prelude::*;

verus! {

// ---------------------------------------------------------------------------
// The votes that a count writes.
// ---------------------------------------------------------------------------

/// Two rows of votes agree on the votes that the markup of a list with `n` candidates writes:
/// the list's own vote and those of its candidates.
pub open spec fn list_votes_agree(n: int, a: Seq<u32>, b: Seq<u32>) -> bool {
    forall|j: int| 0 <= j <= n ==> #[trigger] a[j] == b[j]
}

/// Two sets of votes agree on every vote that the markup of `lists` writes.
pub open spec fn votes_agree(lists: Seq<ListView>, a: Seq<Seq<u32>>, b: Seq<Seq<u32>>) -> bool {
    forall|i: int| 0 <= i < lists.len() ==> list_votes_agree(lists[i].candidates.len() as int, #[trigger] a[i], b[i])
}

proof fn lemma_candidates_ignore_other_votes(cands: Seq<CandidateView>, a: Seq<u32>, b: Seq<u32>, n: int)
    requires
        forall|j: int| 1 <= j <= n ==> #[trigger] a[j] == b[j],
    ensures
        candidates_markup(cands, a, n) == candidates_markup(cands, b, n),
    decreases n,
{
    if n > 0 {
        lemma_candidates_ignore_other_votes(cands, a, b, n - 1);
        assert(a[n] == b[n]);
    }
}

proof fn lemma_lists_ignore_other_votes(lists: Seq<ListView>, a: Seq<Seq<u32>>, b: Seq<Seq<u32>>, n: int)
    requires
        n <= lists.len(),
        votes_agree(lists, a, b),
    ensures
        lists_markup(lists, a, n) == lists_markup(lists, b, n),
    decreases n,
{
    if n > 0 {
        lemma_lists_ignore_other_votes(lists, a, b, n - 1);
        let l = lists[n - 1];
        assert(list_votes_agree(l.candidates.len() as int, a[n - 1], b[n - 1]));
        assert(a[n - 1][0] == b[n - 1][0]);
        lemma_candidates_ignore_other_votes(l.candidates, a[n - 1], b[n - 1], l.candidates.len() as int);
        assert(list_markup(l, a[n - 1]) == list_markup(l, b[n - 1]));
    }
}

/// The markup of a count reads only its tallies and, of its votes, the vote of each list and
/// of each of its candidates: votes beyond those (further rows, or further votes in a row)
/// change nothing.
pub proof fn lemma_count_ignores_other_votes(lists: Seq<ListView>, c1: CountView, c2: CountView)
    requires
        c1.stats == c2.stats,
        votes_agree(lists, c1.votes, c2.votes),
    ensures
        count_markup(lists, c1) == count_markup(lists, c2),
{
    lemma_lists_ignore_other_votes(lists, c1.votes, c2.votes, lists.len() as int);
}

// ---------------------------------------------------------------------------
// The creation time.
// ---------------------------------------------------------------------------

/// The name of the element that holds the creation time of a document.
pub open spec fn creation_time_tag() -> Seq<char> {
    "kr:CreationDateTime"@
}

/// How many opening tags of `s` are named `name`.
pub open spec fn opens_named(s: Seq<MarkupView>, name: Seq<char>) -> nat
    decreases s.len(),
{
    if s.len() == 0 {
        0
    } else {
        opens_named(s.drop_last(), name) + match s.last() {
            MarkupView::Open { name: n, .. } => if n == name { 1nat } else { 0nat },
            _ => 0nat,
        }
    }
}

proof fn lemma_other_tags()
    ensures
        creation_time_tag() != "EML"@,
        creation_time_tag() != "TransactionId"@,
        creation_time_tag() != "ManagingAuthority"@,
        creation_time_tag() != "AuthorityIdentifier"@,
        creation_time_tag() != "AuthorityAddress"@,
        creation_time_tag() != "ds:CanonicalizationMethod"@,
        creation_time_tag() != "Count"@,
        creation_time_tag() != "EventIdentifier"@,
        creation_time_tag() != "Election"@,
        creation_time_tag() != "ElectionIdentifier"@,
        creation_time_tag() != "ElectionName"@,
        creation_time_tag() != "ElectionCategory"@,
        creation_time_tag() != "kr:ElectionSubcategory"@,
        creation_time_tag() != "kr:ElectionDomain"@,
        creation_time_tag() != "kr:ElectionDate"@,
        creation_time_tag() != "Contests"@,
        creation_time_tag() != "Contest"@,
        creation_time_tag() != "ContestIdentifier"@,
        creation_time_tag() != "ContestName"@,
        creation_time_tag() != "TotalVotes"@,
        creation_time_tag() != "ReportingUnitVotes"@,
        creation_time_tag() != "ReportingUnitIdentifier"@,
        creation_time_tag() != "Selection"@,
        creation_time_tag() != "AffiliationIdentifier"@,
        creation_time_tag() != "RegisteredName"@,
        creation_time_tag() != "ValidVotes"@,
        creation_time_tag() != "Candidate"@,
        creation_time_tag() != "CandidateIdentifier"@,
        creation_time_tag() != "Cast"@,
        creation_time_tag() != "TotalCounted"@,
        creation_time_tag() != "RejectedVotes"@,
        creation_time_tag() != "UncountedVotes"@,
{
    reveal_strlit("kr:CreationDateTime");
    let c = creation_time_tag();
    assert(c.len() == 19 && c[0] == 'k');
    reveal_strlit("EML");
    assert("EML"@.len() == 3);
    reveal_strlit("TransactionId");
    assert("TransactionId"@.len() == 13);
    reveal_strlit("ManagingAuthority");
    assert("ManagingAuthority"@.len() == 17);
    reveal_strlit("AuthorityIdentifier");
    assert("AuthorityIdentifier"@[0] == 'A');
    reveal_strlit("AuthorityAddress");
    assert("AuthorityAddress"@.len() == 16);
    reveal_strlit("ds:CanonicalizationMethod");
    assert("ds:CanonicalizationMethod"@.len() == 25);
    reveal_strlit("Count");
    assert("Count"@.len() == 5);
    reveal_strlit("EventIdentifier");
    assert("EventIdentifier"@.len() == 15);
    reveal_strlit("Election");
    assert("Election"@.len() == 8);
    reveal_strlit("ElectionIdentifier");
    assert("ElectionIdentifier"@.len() == 18);
    reveal_strlit("ElectionName");
    assert("ElectionName"@.len() == 12);
    reveal_strlit("ElectionCategory");
    assert("ElectionCategory"@.len() == 16);
    reveal_strlit("kr:ElectionSubcategory");
    assert("kr:ElectionSubcategory"@.len() == 22);
    reveal_strlit("kr:ElectionDomain");
    assert("kr:ElectionDomain"@.len() == 17);
    reveal_strlit("kr:ElectionDate");
    assert("kr:ElectionDate"@.len() == 15);
    reveal_strlit("Contests");
    assert("Contests"@.len() == 8);
    reveal_strlit("Contest");
    assert("Contest"@.len() == 7);
    reveal_strlit("ContestIdentifier");
    assert("ContestIdentifier"@.len() == 17);
    reveal_strlit("ContestName");
    assert("ContestName"@.len() == 11);
    reveal_strlit("TotalVotes");
    assert("TotalVotes"@.len() == 10);
    reveal_strlit("ReportingUnitVotes");
    assert("ReportingUnitVotes"@.len() == 18);
    reveal_strlit("ReportingUnitIdentifier");
    assert("ReportingUnitIdentifier"@.len() == 23);
    reveal_strlit("Selection");
    assert("Selection"@.len() == 9);
    reveal_strlit("AffiliationIdentifier");
    assert("AffiliationIdentifier"@.len() == 21);
    reveal_strlit("RegisteredName");
    assert("RegisteredName"@.len() == 14);
    reveal_strlit("ValidVotes");
    assert("ValidVotes"@.len() == 10);
    reveal_strlit("Candidate");
    assert("Candidate"@.len() == 9);
    reveal_strlit("CandidateIdentifier");
    assert("CandidateIdentifier"@[0] == 'C');
    reveal_strlit("Cast");
    assert("Cast"@.len() == 4);
    reveal_strlit("TotalCounted");
    assert("TotalCounted"@.len() == 12);
    reveal_strlit("RejectedVotes");
    assert("RejectedVotes"@.len() == 13);
    reveal_strlit("UncountedVotes");
    assert("UncountedVotes"@.len() == 14);
}

proof fn lemma_opens_concat(a: Seq<MarkupView>, b: Seq<MarkupView>, name: Seq<char>)
    ensures
        opens_named(a + b, name) == opens_named(a, name) + opens_named(b, name),
    decreases b.len(),
{
    if b.len() == 0 {
        assert(a + b =~= a);
    } else {
        lemma_opens_concat(a, b.drop_last(), name);
        assert((a + b).drop_last() =~= a + b.drop_last());
    }
}

proof fn lemma_opens_single(m: MarkupView, name: Seq<char>)
    ensures
        opens_named(seq![m], name) == match m {
            MarkupView::Open { name: n, .. } => if n == name { 1nat } else { 0nat },
            _ => 0nat,
        },
{
    assert(seq![m].drop_last() =~= Seq::<MarkupView>::empty());
    assert(opens_named(Seq::<MarkupView>::empty(), name) == 0);
    assert(seq![m].last() == m);
}

/// No opening tag of `s` is a creation-time tag.
pub open spec fn no_creation_tag(s: Seq<MarkupView>) -> bool {
    opens_named(s, creation_time_tag()) == 0
}

proof fn lemma_element_no_creation_tag(name: Seq<char>, attributes: Seq<(Seq<char>, Seq<char>)>, inner: Seq<MarkupView>)
    requires
        name != creation_time_tag(),
        no_creation_tag(inner),
    ensures
        no_creation_tag(element(MarkupView::Open { name: name, attributes: attributes, namespaces: Map::empty() }, inner)),
{
    let o = MarkupView::Open { name: name, attributes: attributes, namespaces: Map::empty() };
    lemma_opens_single(o, creation_time_tag());
    lemma_opens_single(MarkupView::Close, creation_time_tag());
    lemma_opens_concat(seq![o], inner, creation_time_tag());
    lemma_opens_concat(seq![o] + inner, seq![MarkupView::Close], creation_time_tag());
}

proof fn lemma_text_no_creation_tag(name: Seq<char>, attributes: Seq<(Seq<char>, Seq<char>)>, text: Seq<char>)
    requires
        name != creation_time_tag(),
    ensures
        no_creation_tag(text_element(MarkupView::Open { name: name, attributes: attributes, namespaces: Map::empty() }, text)),
{
    lemma_opens_single(MarkupView::Text(text), creation_time_tag());
    lemma_element_no_creation_tag(name, attributes, seq![MarkupView::Text(text)]);
}

proof fn lemma_concat_no_creation_tag(a: Seq<MarkupView>, b: Seq<MarkupView>)
    requires
        no_creation_tag(a),
        no_creation_tag(b),
    ensures
        no_creation_tag(a + b),
{
    lemma_opens_concat(a, b, creation_time_tag());
}

proof fn lemma_empty_no_creation_tag()
    ensures
        no_creation_tag(Seq::<MarkupView>::empty()),
{
}

proof fn lemma_candidates_no_creation_tag(cands: Seq<CandidateView>, votes: Seq<u32>, n: int)
    ensures
        no_creation_tag(candidates_markup(cands, votes, n)),
    decreases n,
{
    lemma_other_tags();
    if n > 0 {
        lemma_candidates_no_creation_tag(cands, votes, n - 1);
        let number = cands[n - 1].number;
        let id = text_element(
            open_tag_with("CandidateIdentifier"@, "Id"@, text::decimal(number as nat)),
            Seq::empty(),
        );
        let valid = text_element(open_tag("ValidVotes"@), text::decimal(votes[n] as nat));
        lemma_text_no_creation_tag("CandidateIdentifier"@, seq![("Id"@, text::decimal(number as nat))], Seq::empty());
        lemma_element_no_creation_tag("Candidate"@, Seq::empty(), id);
        lemma_text_no_creation_tag("ValidVotes"@, Seq::empty(), text::decimal(votes[n] as nat));
        lemma_concat_no_creation_tag(element(open_tag("Candidate"@), id), valid);
        lemma_element_no_creation_tag("Selection"@, Seq::empty(), element(open_tag("Candidate"@), id) + valid);
        lemma_concat_no_creation_tag(candidates_markup(cands, votes, n - 1), candidate_markup(number, votes[n]));
    }
}

proof fn lemma_lists_no_creation_tag(lists: Seq<ListView>, votes: Seq<Seq<u32>>, n: int)
    ensures
        no_creation_tag(lists_markup(lists, votes, n)),
    decreases n,
{
    lemma_other_tags();
    if n > 0 {
        lemma_lists_no_creation_tag(lists, votes, n - 1);
        let l = lists[n - 1];
        let v = votes[n - 1];
        let num = text::decimal(l.number as nat);
        let reg = text_element(open_tag("RegisteredName"@), l.name);
        lemma_text_no_creation_tag("RegisteredName"@, Seq::empty(), l.name);
        lemma_element_no_creation_tag("AffiliationIdentifier"@, seq![("Id"@, num)], reg);
        lemma_text_no_creation_tag("ValidVotes"@, Seq::empty(), text::decimal(v[0] as nat));
        let sel_inner = element(open_tag_with("AffiliationIdentifier"@, "Id"@, num), reg) + text_element(
            open_tag("ValidVotes"@),
            text::decimal(v[0] as nat),
        );
        lemma_concat_no_creation_tag(
            element(open_tag_with("AffiliationIdentifier"@, "Id"@, num), reg),
            text_element(open_tag("ValidVotes"@), text::decimal(v[0] as nat)),
        );
        lemma_element_no_creation_tag("Selection"@, Seq::empty(), sel_inner);
        lemma_candidates_no_creation_tag(l.candidates, v, l.candidates.len() as int);
        lemma_concat_no_creation_tag(
            element(open_tag("Selection"@), sel_inner),
            candidates_markup(l.candidates, v, l.candidates.len() as int),
        );
        lemma_concat_no_creation_tag(lists_markup(lists, votes, n - 1), list_markup(l, v));
    }
}

proof fn lemma_reasons_no_creation_tag(stats: Seq<u32>, n: int)
    ensures
        no_creation_tag(reasons_markup(stats, n)),
    decreases n,
{
    lemma_other_tags();
    if n > 0 {
        lemma_reasons_no_creation_tag(stats, n - 1);
        let (tag, code, k) = reason_entry(n - 1);
        assert(tag == "RejectedVotes"@ || tag == "UncountedVotes"@);
        lemma_text_no_creation_tag(tag, seq![("ReasonCode"@, code)], text::decimal(stats[k] as nat));
        lemma_concat_no_creation_tag(
            reasons_markup(stats, n - 1),
            text_element(open_tag_with(tag, "ReasonCode"@, code), text::decimal(stats[k] as nat)),
        );
    }
}

proof fn lemma_count_no_creation_tag(lists: Seq<ListView>, c: CountView)
    ensures
        no_creation_tag(count_markup(lists, c)),
{
    lemma_other_tags();
    let a = lists_markup(lists, c.votes, lists.len() as int);
    let b = text_element(open_tag("Cast"@), text::decimal(c.stats[0] as nat));
    let d = text_element(open_tag("TotalCounted"@), text::decimal(c.stats[6] as nat));
    let e = reasons_markup(c.stats, 16);
    lemma_lists_no_creation_tag(lists, c.votes, lists.len() as int);
    lemma_text_no_creation_tag("Cast"@, Seq::empty(), text::decimal(c.stats[0] as nat));
    lemma_text_no_creation_tag("TotalCounted"@, Seq::empty(), text::decimal(c.stats[6] as nat));
    lemma_reasons_no_creation_tag(c.stats, 16);
    lemma_concat_no_creation_tag(a, b);
    lemma_concat_no_creation_tag(a + b, d);
    lemma_concat_no_creation_tag(a + b + d, e);
}

proof fn lemma_units_no_creation_tag(lists: Seq<ListView>, area_code: Seq<char>, units: Seq<ReportUnitView>, n: int)
    ensures
        no_creation_tag(units_markup(lists, area_code, units, n)),
    decreases n,
{
    lemma_other_tags();
    if n > 0 {
        lemma_units_no_creation_tag(lists, area_code, units, n - 1);
        let u = units[n - 1];
        let ident = text_element(
            open_tag_with("ReportingUnitIdentifier"@, "Id"@, crate::eml::unit_identifier(area_code, u)),
            crate::eml::unit_description(u),
        );
        lemma_text_no_creation_tag(
            "ReportingUnitIdentifier"@,
            seq![("Id"@, crate::eml::unit_identifier(area_code, u))],
            crate::eml::unit_description(u),
        );
        lemma_count_no_creation_tag(lists, u.count);
        lemma_concat_no_creation_tag(ident, count_markup(lists, u.count));
        lemma_element_no_creation_tag("ReportingUnitVotes"@, Seq::empty(), ident + count_markup(lists, u.count));
        lemma_concat_no_creation_tag(units_markup(lists, area_code, units, n - 1), unit_markup(lists, area_code, u));
    }
}

proof fn lemma_contest_no_creation_tag(c: ContestView)
    ensures
        no_creation_tag(contest_markup(c)),
{
    lemma_other_tags();
    let name_part = if c.contest_name.len() == 0 {
        seq![MarkupView::Text(Seq::empty())]
    } else {
        text_element(open_tag("ContestName"@), c.contest_name)
    };
    if c.contest_name.len() == 0 {
        lemma_opens_single(MarkupView::Text(Seq::empty()), creation_time_tag());
    } else {
        lemma_text_no_creation_tag("ContestName"@, Seq::empty(), c.contest_name);
    }
    lemma_element_no_creation_tag("ContestIdentifier"@, seq![("Id"@, c.contest_id)], name_part);
    lemma_count_no_creation_tag(c.lists, c.total_count);
    lemma_element_no_creation_tag("TotalVotes"@, Seq::empty(), count_markup(c.lists, c.total_count));
    let units = units_markup(c.lists, c.area_code, c.report_unit, c.report_unit.len() as int);
    lemma_units_no_creation_tag(c.lists, c.area_code, c.report_unit, c.report_unit.len() as int);
    let a = element(open_tag_with("ContestIdentifier"@, "Id"@, c.contest_id), name_part);
    let b = element(open_tag("TotalVotes"@), count_markup(c.lists, c.total_count));
    lemma_concat_no_creation_tag(a, b);
    lemma_concat_no_creation_tag(a + b, units);
    lemma_element_no_creation_tag("Contest"@, Seq::empty(), a + b + units);
}

proof fn lemma_election_identifier_no_creation_tag(c: ContestView)
    ensures
        no_creation_tag(election_identifier_markup(c)),
{
    lemma_other_tags();
    let a = text_element(open_tag("ElectionName"@), c.election_identifier_name);
    let b = text_element(open_tag("ElectionCategory"@), c.election_category);
    let d = text_element(open_tag("kr:ElectionSubcategory"@), c.election_subcategory);
    let dom = match c.election_domain {
        Some(x) => text_element(open_tag("kr:ElectionDomain"@), x),
        None => Seq::empty(),
    };
    let e = text_element(open_tag("kr:ElectionDate"@), c.election_date);
    lemma_text_no_creation_tag("ElectionName"@, Seq::empty(), c.election_identifier_name);
    lemma_text_no_creation_tag("ElectionCategory"@, Seq::empty(), c.election_category);
    lemma_text_no_creation_tag("kr:ElectionSubcategory"@, Seq::empty(), c.election_subcategory);
    match c.election_domain {
        Some(x) => lemma_text_no_creation_tag("kr:ElectionDomain"@, Seq::empty(), x),
        None => {},
    }
    lemma_text_no_creation_tag("kr:ElectionDate"@, Seq::empty(), c.election_date);
    lemma_concat_no_creation_tag(a, b);
    lemma_concat_no_creation_tag(a + b, d);
    lemma_concat_no_creation_tag(a + b + d, dom);
    lemma_concat_no_creation_tag(a + b + d + dom, e);
    lemma_element_no_creation_tag("ElectionIdentifier"@, seq![("Id"@, c.election_identifier_id)], a + b + d + dom + e);
}

/// The markup of a document up to its creation-time element: the document's opening tag, the
/// head comment, the transaction id and the managing authority.
pub open spec fn markup_before_creation_time(c: ContestView) -> Seq<MarkupView> {
    seq![eml_open(), MarkupView::Comment(creator_comment())] + text_element(open_tag("TransactionId"@), "1"@)
        + element(
        open_tag("ManagingAuthority"@),
        text_element(open_tag_with("AuthorityIdentifier"@, "Id"@, c.area_code), c.area_name_short)
            + text_element(open_tag("AuthorityAddress"@), Seq::empty()),
    )
}

/// The markup of a document after its creation-time element: the canonicalization method,
/// the count, and the document's closing tag.
pub open spec fn markup_after_creation_time(c: ContestView) -> Seq<MarkupView> {
    text_element(
        open_tag_with(
            "ds:CanonicalizationMethod"@,
            "Algorithm"@,
            "http://www.w3.org/TR/2001/REC-xml-c14n-20010315#WithComments"@,
        ),
        Seq::empty(),
    ) + element(
        open_tag("Count"@),
        text_element(open_tag("EventIdentifier"@), Seq::empty()) + element(
            open_tag("Election"@),
            election_identifier_markup(c) + element(open_tag("Contests"@), contest_markup(c)),
        ),
    ) + seq![MarkupView::Close]
}

/// A document holds exactly one creation-time element, and it holds the contest's creation
/// time: the markup is what comes before, that element, and what comes after, and neither
/// of these holds another.
pub proof fn lemma_one_creation_time_element(c: ContestView)
    ensures
        eml_markup(c) == markup_before_creation_time(c) + text_element(
            open_tag(creation_time_tag()),
            c.creation_date_time,
        ) + markup_after_creation_time(c),
        no_creation_tag(markup_before_creation_time(c)),
        no_creation_tag(markup_after_creation_time(c)),
        opens_named(eml_markup(c), creation_time_tag()) == 1,
{
    lemma_other_tags();
    let before = markup_before_creation_time(c);
    let after = markup_after_creation_time(c);
    let d = text_element(open_tag(creation_time_tag()), c.creation_date_time);
    assert(eml_markup(c) =~= before + d + after);
    // before
    let head = seq![eml_open(), MarkupView::Comment(creator_comment())];
    assert(head =~= seq![eml_open()] + seq![MarkupView::Comment(creator_comment())]);
    lemma_opens_single(eml_open(), creation_time_tag());
    lemma_opens_single(MarkupView::Comment(creator_comment()), creation_time_tag());
    lemma_concat_no_creation_tag(seq![eml_open()], seq![MarkupView::Comment(creator_comment())]);
    lemma_text_no_creation_tag("TransactionId"@, Seq::empty(), "1"@);
    lemma_text_no_creation_tag("AuthorityIdentifier"@, seq![("Id"@, c.area_code)], c.area_name_short);
    lemma_text_no_creation_tag("AuthorityAddress"@, Seq::empty(), Seq::empty());
    let auth = text_element(open_tag_with("AuthorityIdentifier"@, "Id"@, c.area_code), c.area_name_short);
    let addr = text_element(open_tag("AuthorityAddress"@), Seq::empty());
    lemma_concat_no_creation_tag(auth, addr);
    lemma_element_no_creation_tag("ManagingAuthority"@, Seq::empty(), auth + addr);
    let tid = text_element(open_tag("TransactionId"@), "1"@);
    lemma_concat_no_creation_tag(head, tid);
    lemma_concat_no_creation_tag(head + tid, element(open_tag("ManagingAuthority"@), auth + addr));
    // after
    let canon = text_element(
        open_tag_with(
            "ds:CanonicalizationMethod"@,
            "Algorithm"@,
            "http://www.w3.org/TR/2001/REC-xml-c14n-20010315#WithComments"@,
        ),
        Seq::empty(),
    );
    lemma_text_no_creation_tag(
        "ds:CanonicalizationMethod"@,
        seq![("Algorithm"@, "http://www.w3.org/TR/2001/REC-xml-c14n-20010315#WithComments"@)],
        Seq::empty(),
    );
    let ev = text_element(open_tag("EventIdentifier"@), Seq::empty());
    lemma_text_no_creation_tag("EventIdentifier"@, Seq::empty(), Seq::empty());
    lemma_election_identifier_no_creation_tag(c);
    lemma_contest_no_creation_tag(c);
    lemma_element_no_creation_tag("Contests"@, Seq::empty(), contest_markup(c));
    let contests = element(open_tag("Contests"@), contest_markup(c));
    lemma_concat_no_creation_tag(election_identifier_markup(c), contests);
    lemma_element_no_creation_tag("Election"@, Seq::empty(), election_identifier_markup(c) + contests);
    let election = element(open_tag("Election"@), election_identifier_markup(c) + contests);
    lemma_concat_no_creation_tag(ev, election);
    lemma_element_no_creation_tag("Count"@, Seq::empty(), ev + election);
    lemma_concat_no_creation_tag(canon, element(open_tag("Count"@), ev + election));
    lemma_opens_single(MarkupView::Close, creation_time_tag());
    lemma_concat_no_creation_tag(canon + element(open_tag("Count"@), ev + election), seq![MarkupView::Close]);
    // the element itself
    lemma_opens_single(open_tag(creation_time_tag()), creation_time_tag());
    lemma_opens_single(MarkupView::Text(c.creation_date_time), creation_time_tag());
    lemma_opens_single(MarkupView::Close, creation_time_tag());
    lemma_opens_concat(seq![open_tag(creation_time_tag())], seq![MarkupView::Text(c.creation_date_time)], creation_time_tag());
    lemma_opens_concat(
        seq![open_tag(creation_time_tag())] + seq![MarkupView::Text(c.creation_date_time)],
        seq![MarkupView::Close],
        creation_time_tag(),
    );
    lemma_opens_concat(before, d, creation_time_tag());
    lemma_opens_concat(before + d, after, creation_time_tag());
}

/// Two contests that differ only in their creation time give documents whose markup differs
/// only in the text of the creation-time element.
pub proof fn lemma_only_creation_time_differs(c1: ContestView, c2: ContestView)
    requires
        c2 == (ContestView { creation_date_time: c2.creation_date_time, ..c1 }),
    ensures
        markup_before_creation_time(c1) == markup_before_creation_time(c2),
        markup_after_creation_time(c1) == markup_after_creation_time(c2),
        eml_markup(c1) == markup_before_creation_time(c1) + text_element(
            open_tag(creation_time_tag()),
            c1.creation_date_time,
        ) + markup_after_creation_time(c1),
        eml_markup(c2) == markup_before_creation_time(c1) + text_element(
            open_tag(creation_time_tag()),
            c2.creation_date_time,
        ) + markup_after_creation_time(c1),
{
    lemma_one_creation_time_element(c1);
    lemma_one_creation_time_element(c2);
    assert(election_identifier_markup(c1) == election_identifier_markup(c2));
    assert(contest_markup(c1) == contest_markup(c2));
}

// ---------------------------------------------------------------------------
// Where each vote and tally stands in the markup of a count.
// ---------------------------------------------------------------------------

/// An opening tag named `name` with the attributes `attributes` and no namespace bindings.
pub open spec fn plain_tag(name: Seq<char>, attributes: Seq<(Seq<char>, Seq<char>)>) -> MarkupView {
    MarkupView::Open { name: name, attributes: attributes, namespaces: Map::empty() }
}

/// What piece `p` of the selections of candidates `cands` with votes `votes` is: each
/// candidate takes ten pieces; the `j`-th opens its selection at `10 * j`, names the
/// candidate at `10 * j + 2`, opens its votes at `10 * j + 6` and holds `votes[j + 1]` at
/// `10 * j + 7`.
pub open spec fn candidate_piece(cands: Seq<CandidateView>, votes: Seq<u32>, p: int, x: MarkupView) -> bool {
    &&& p % 10 == 0 ==> x == plain_tag("Selection"@, Seq::empty())
    &&& p % 10 == 2 ==> x == plain_tag("CandidateIdentifier"@, seq![("Id"@, text::decimal(cands[p / 10].number as nat))])
    &&& p % 10 == 6 ==> x == plain_tag("ValidVotes"@, Seq::empty())
    &&& p % 10 == 7 ==> x == MarkupView::Text(text::decimal(votes[p / 10 + 1] as nat))
}

/// What piece `p` of the markup of list `l` with votes `votes` is: every `ValidVotes` text
/// (at `p % 10 == 7`) is `votes[p / 10]`, the list's own vote first and then those of its
/// candidates in order; from `p = 10` on each selection names candidate `p / 10 - 1`.
pub open spec fn list_piece(l: ListView, votes: Seq<u32>, p: int, x: MarkupView) -> bool {
    &&& p % 10 == 6 ==> x == plain_tag("ValidVotes"@, Seq::empty())
    &&& p % 10 == 7 ==> x == MarkupView::Text(text::decimal(votes[p / 10] as nat))
    &&& (p >= 10 && p % 10 == 0) ==> x == plain_tag("Selection"@, Seq::empty())
    &&& (p >= 10 && p % 10 == 2) ==> x == plain_tag(
        "CandidateIdentifier"@,
        seq![("Id"@, text::decimal(l.candidates[p / 10 - 1].number as nat))],
    )
}

proof fn lemma_candidates_layout(cands: Seq<CandidateView>, votes: Seq<u32>, n: int)
    requires
        0 <= n,
    ensures
        candidates_markup(cands, votes, n).len() == 10 * n,
        forall|p: int|
            0 <= p < 10 * n ==> candidate_piece(cands, votes, p, #[trigger] candidates_markup(cands, votes, n)[p]),
    decreases n,
{
    if n > 0 {
        lemma_candidates_layout(cands, votes, n - 1);
        let a = candidates_markup(cands, votes, n - 1);
        let b = candidate_markup(cands[n - 1].number, votes[n]);
        assert(b.len() == 10);
        assert forall|p: int| 0 <= p < 10 * n implies candidate_piece(
            cands,
            votes,
            p,
            #[trigger] candidates_markup(cands, votes, n)[p],
        ) by {
            if p >= 10 * (n - 1) {
                let q = p - 10 * (n - 1);
                assert(p / 10 == n - 1 && p % 10 == q) by (nonlinear_arith)
                    requires
                        q == p - 10 * (n - 1),
                        0 <= q < 10,
                ;
                assert((a + b)[p] == b[q]);
            } else {
                assert((a + b)[p] == a[p]);
                assert(candidate_piece(cands, votes, p, a[p]));
            }
        }
    }
}

/// In the markup of a list with the row of votes `votes`, the list's own selection comes
/// first (its number, its name, and its vote `votes[0]`), then one selection of ten pieces
/// per candidate, the `j`-th (from 0) naming candidate `j` and holding its vote
/// `votes[j + 1]`: every `ValidVotes` text at place `p` is `votes[p / 10]`.
pub proof fn lemma_list_markup_layout(l: ListView, votes: Seq<u32>)
    ensures
        ({
            &&& list_markup(l, votes).len() == 10 * (l.candidates.len() + 1)
            &&& list_markup(l, votes)[0] == plain_tag("Selection"@, Seq::empty())
            &&& list_markup(l, votes)[1] == plain_tag(
                "AffiliationIdentifier"@,
                seq![("Id"@, text::decimal(l.number as nat))],
            )
            &&& list_markup(l, votes)[2] == plain_tag("RegisteredName"@, Seq::empty())
            &&& list_markup(l, votes)[3] == MarkupView::Text(l.name)
            &&& forall|p: int|
                0 <= p < list_markup(l, votes).len() ==> list_piece(l, votes, p, #[trigger] list_markup(l, votes)[p])
        }),
{
    let n = l.candidates.len() as int;
    lemma_candidates_layout(l.candidates, votes, n);
    let m = list_markup(l, votes);
    let head = element(
        open_tag("Selection"@),
        element(
            open_tag_with("AffiliationIdentifier"@, "Id"@, text::decimal(l.number as nat)),
            text_element(open_tag("RegisteredName"@), l.name),
        ) + text_element(open_tag("ValidVotes"@), text::decimal(votes[0] as nat)),
    );
    let tail = candidates_markup(l.candidates, votes, n);
    assert(head.len() == 10);
    assert(m == head + tail);
    assert(head[7] == MarkupView::Text(text::decimal(votes[0] as nat)));
    assert forall|p: int| 0 <= p < m.len() implies list_piece(l, votes, p, #[trigger] m[p]) by {
        if p >= 10 {
            let q = p - 10;
            assert(q / 10 == p / 10 - 1 && q % 10 == p % 10) by (nonlinear_arith)
                requires
                    q == p - 10,
                    q >= 0,
            ;
            assert((head + tail)[p] == tail[q]);
            assert(candidate_piece(l.candidates, votes, q, tail[q]));
        } else {
            assert(p / 10 == 0 && p % 10 == p) by (nonlinear_arith)
                requires
                    0 <= p < 10,
            ;
            assert((head + tail)[p] == head[p]);
        }
    }
}

/// The number of pieces that the markup of the first `n` lists takes (ten per list and ten
/// per candidate).
pub open spec fn lists_width(lists: Seq<ListView>, n: int) -> int
    decreases n,
{
    if n <= 0 {
        0
    } else {
        lists_width(lists, n - 1) + 10 * (lists[n - 1].candidates.len() + 1)
    }
}

proof fn lemma_lists_width_grows(lists: Seq<ListView>, i: int, n: int)
    requires
        0 <= i <= n,
    ensures
        lists_width(lists, i) <= lists_width(lists, n),
    decreases n - i,
{
    if i < n {
        lemma_lists_width_grows(lists, i, n - 1);
    }
}

proof fn lemma_lists_layout(lists: Seq<ListView>, votes: Seq<Seq<u32>>, n: int, i: int)
    requires
        0 <= i < n <= lists.len(),
    ensures
        lists_markup(lists, votes, n).len() == lists_width(lists, n),
        lists_markup(lists, votes, n).subrange(lists_width(lists, i), lists_width(lists, i + 1))
            == list_markup(lists[i], votes[i]),
    decreases n,
{
    let a = lists_markup(lists, votes, n - 1);
    let b = list_markup(lists[n - 1], votes[n - 1]);
    lemma_list_markup_layout(lists[n - 1], votes[n - 1]);
    if n - 1 > 0 {
        lemma_lists_layout(lists, votes, n - 1, if i < n - 1 { i } else { 0 });
    }
    assert(a.len() == lists_width(lists, n - 1));
    if i < n - 1 {
        lemma_lists_width_grows(lists, i + 1, n - 1);
        lemma_lists_width_grows(lists, 0, i);
        assert((a + b).subrange(lists_width(lists, i), lists_width(lists, i + 1)) =~= a.subrange(
            lists_width(lists, i),
            lists_width(lists, i + 1),
        ));
    } else {
        lemma_lists_width_grows(lists, 0, i);
        assert((a + b).subrange(lists_width(lists, i), lists_width(lists, i + 1)) =~= b);
    }
}

proof fn lemma_lists_len(lists: Seq<ListView>, votes: Seq<Seq<u32>>, n: int)
    requires
        n <= lists.len(),
    ensures
        lists_markup(lists, votes, n).len() == lists_width(lists, n),
{
    if n > 0 {
        lemma_lists_layout(lists, votes, n, 0);
    }
}

proof fn lemma_reasons_layout_at(stats: Seq<u32>, n: int, r: int)
    requires
        0 <= r < n,
    ensures
        reasons_markup(stats, n).len() == 3 * n,
        reasons_markup(stats, n)[3 * r] == plain_tag(reason_entry(r).0, seq![("ReasonCode"@, reason_entry(r).1)]),
        reasons_markup(stats, n)[3 * r + 1] == MarkupView::Text(text::decimal(stats[reason_entry(r).2] as nat)),
    decreases n,
{
    let a = reasons_markup(stats, n - 1);
    let (tag, code, k) = reason_entry(n - 1);
    let b = text_element(open_tag_with(tag, "ReasonCode"@, code), text::decimal(stats[k] as nat));
    if n - 1 > 0 {
        lemma_reasons_layout_at(stats, n - 1, if r < n - 1 { r } else { 0 });
    }
    assert(a.len() == 3 * (n - 1));
    if r < n - 1 {
        assert((a + b)[3 * r] == a[3 * r]);
        assert((a + b)[3 * r + 1] == a[3 * r + 1]);
    } else {
        assert((a + b)[3 * r] == b[0]);
        assert((a + b)[3 * r + 1] == b[1]);
    }
}

/// The markup of a count: the markup of each list `i` with the votes `c.votes[i]`, in turn
/// (list `i` taking the places `lists_width(lists, i)` up to `lists_width(lists, i + 1)`);
/// then the votes cast (`stats[0]`, `cast`) and counted (`stats[6]`, valid ballots); then the
/// rejected and uncounted votes, each with its reason code and the tally it reports, in this
/// order: invalid (`stats[8]`), blank (`stats[7]`), valid polling cards (`stats[1]`), valid
/// proxy certificates (`stats[2]`), valid voter passes (`stats[3]`), admitted voters
/// (`stats[4]`), admitted voters at postal polling stations (`stats[5]`), more ballots
/// counted (`stats[10]`), fewer ballots counted (`stats[11]`), ballots taken along
/// (`stats[12]`), too few ballots issued (`stats[13]`), too many ballots issued
/// (`stats[14]`), no ballot in the envelope (`stats[15]`), several ballots in an envelope
/// (`stats[16]`), no explanation (`stats[17]`) and another explanation (`stats[18]`).
pub proof fn lemma_count_markup_layout(lists: Seq<ListView>, c: CountView)
    ensures
        count_markup(lists, c).len() == lists_width(lists, lists.len() as int) + 54,
        forall|i: int|
            0 <= i < lists.len() ==> count_markup(lists, c).subrange(lists_width(lists, i), lists_width(lists, i + 1))
                == list_markup(lists[i], #[trigger] c.votes[i]),
        count_markup(lists, c)[lists_width(lists, lists.len() as int)] == plain_tag("Cast"@, Seq::empty()),
        count_markup(lists, c)[lists_width(lists, lists.len() as int) + 1] == MarkupView::Text(text::decimal(c.stats[0] as nat)),
        count_markup(lists, c)[lists_width(lists, lists.len() as int) + 3] == plain_tag("TotalCounted"@, Seq::empty()),
        count_markup(lists, c)[lists_width(lists, lists.len() as int) + 4] == MarkupView::Text(text::decimal(c.stats[6] as nat)),
        count_markup(lists, c)[lists_width(lists, lists.len() as int) + 6] == plain_tag("RejectedVotes"@, seq![("ReasonCode"@, "ongeldig"@)]),
        count_markup(lists, c)[lists_width(lists, lists.len() as int) + 7] == MarkupView::Text(text::decimal(c.stats[8] as nat)),
        count_markup(lists, c)[lists_width(lists, lists.len() as int) + 9] == plain_tag("RejectedVotes"@, seq![("ReasonCode"@, "blanco"@)]),
        count_markup(lists, c)[lists_width(lists, lists.len() as int) + 10] == MarkupView::Text(text::decimal(c.stats[7] as nat)),
        count_markup(lists, c)[lists_width(lists, lists.len() as int) + 12] == plain_tag("UncountedVotes"@, seq![("ReasonCode"@, "geldige stempassen"@)]),
        count_markup(lists, c)[lists_width(lists, lists.len() as int) + 13] == MarkupView::Text(text::decimal(c.stats[1] as nat)),
        count_markup(lists, c)[lists_width(lists, lists.len() as int) + 15] == plain_tag("UncountedVotes"@, seq![("ReasonCode"@, "geldige volmachtbewijzen"@)]),
        count_markup(lists, c)[lists_width(lists, lists.len() as int) + 16] == MarkupView::Text(text::decimal(c.stats[2] as nat)),
        count_markup(lists, c)[lists_width(lists, lists.len() as int) + 18] == plain_tag("UncountedVotes"@, seq![("ReasonCode"@, "geldige kiezerspassen"@)]),
        count_markup(lists, c)[lists_width(lists, lists.len() as int) + 19] == MarkupView::Text(text::decimal(c.stats[3] as nat)),
        count_markup(lists, c)[lists_width(lists, lists.len() as int) + 21] == plain_tag("UncountedVotes"@, seq![("ReasonCode"@, "toegelaten kiezers"@)]),
        count_markup(lists, c)[lists_width(lists, lists.len() as int) + 22] == MarkupView::Text(text::decimal(c.stats[4] as nat)),
        count_markup(lists, c)[lists_width(lists, lists.len() as int) + 24] == plain_tag("UncountedVotes"@, seq![("ReasonCode"@, "toegelaten kiezers (Briefstembureaus gemeente)"@)]),
        count_markup(lists, c)[lists_width(lists, lists.len() as int) + 25] == MarkupView::Text(text::decimal(c.stats[5] as nat)),
        count_markup(lists, c)[lists_width(lists, lists.len() as int) + 27] == plain_tag("UncountedVotes"@, seq![("ReasonCode"@, "meer getelde stembiljetten"@)]),
        count_markup(lists, c)[lists_width(lists, lists.len() as int) + 28] == MarkupView::Text(text::decimal(c.stats[10] as nat)),
        count_markup(lists, c)[lists_width(lists, lists.len() as int) + 30] == plain_tag("UncountedVotes"@, seq![("ReasonCode"@, "minder getelde stembiljetten"@)]),
        count_markup(lists, c)[lists_width(lists, lists.len() as int) + 31] == MarkupView::Text(text::decimal(c.stats[11] as nat)),
        count_markup(lists, c)[lists_width(lists, lists.len() as int) + 33] == plain_tag("UncountedVotes"@, seq![("ReasonCode"@, "meegenomen stembiljetten"@)]),
        count_markup(lists, c)[lists_width(lists, lists.len() as int) + 34] == MarkupView::Text(text::decimal(c.stats[12] as nat)),
        count_markup(lists, c)[lists_width(lists, lists.len() as int) + 36] == plain_tag("UncountedVotes"@, seq![("ReasonCode"@, "te weinig uitgereikte stembiljetten"@)]),
        count_markup(lists, c)[lists_width(lists, lists.len() as int) + 37] == MarkupView::Text(text::decimal(c.stats[13] as nat)),
        count_markup(lists, c)[lists_width(lists, lists.len() as int) + 39] == plain_tag("UncountedVotes"@, seq![("ReasonCode"@, "te veel uitgereikte stembiljetten"@)]),
        count_markup(lists, c)[lists_width(lists, lists.len() as int) + 40] == MarkupView::Text(text::decimal(c.stats[14] as nat)),
        count_markup(lists, c)[lists_width(lists, lists.len() as int) + 42] == plain_tag("UncountedVotes"@, seq![("ReasonCode"@, "geen stembiljet in enveloppe (Briefstembureaus)"@)]),
        count_markup(lists, c)[lists_width(lists, lists.len() as int) + 43] == MarkupView::Text(text::decimal(c.stats[15] as nat)),
        count_markup(lists, c)[lists_width(lists, lists.len() as int) + 45] == plain_tag("UncountedVotes"@, seq![("ReasonCode"@, "meer stembiljetten in een enveloppe (Briefstembureaus)"@)]),
        count_markup(lists, c)[lists_width(lists, lists.len() as int) + 46] == MarkupView::Text(text::decimal(c.stats[16] as nat)),
        count_markup(lists, c)[lists_width(lists, lists.len() as int) + 48] == plain_tag("UncountedVotes"@, seq![("ReasonCode"@, "geen verklaring"@)]),
        count_markup(lists, c)[lists_width(lists, lists.len() as int) + 49] == MarkupView::Text(text::decimal(c.stats[17] as nat)),
        count_markup(lists, c)[lists_width(lists, lists.len() as int) + 51] == plain_tag("UncountedVotes"@, seq![("ReasonCode"@, "andere verklaring"@)]),
        count_markup(lists, c)[lists_width(lists, lists.len() as int) + 52] == MarkupView::Text(text::decimal(c.stats[18] as nat)),
{
    let n = lists.len() as int;
    let a = lists_markup(lists, c.votes, n);
    lemma_lists_len(lists, c.votes, n);
    let cast = text_element(open_tag("Cast"@), text::decimal(c.stats[0] as nat));
    let counted = text_element(open_tag("TotalCounted"@), text::decimal(c.stats[6] as nat));
    let reasons = reasons_markup(c.stats, 16);
    lemma_reasons_layout_at(c.stats, 16, 0);
    lemma_reasons_layout_at(c.stats, 16, 1);
    lemma_reasons_layout_at(c.stats, 16, 2);
    lemma_reasons_layout_at(c.stats, 16, 3);
    lemma_reasons_layout_at(c.stats, 16, 4);
    lemma_reasons_layout_at(c.stats, 16, 5);
    lemma_reasons_layout_at(c.stats, 16, 6);
    lemma_reasons_layout_at(c.stats, 16, 7);
    lemma_reasons_layout_at(c.stats, 16, 8);
    lemma_reasons_layout_at(c.stats, 16, 9);
    lemma_reasons_layout_at(c.stats, 16, 10);
    lemma_reasons_layout_at(c.stats, 16, 11);
    lemma_reasons_layout_at(c.stats, 16, 12);
    lemma_reasons_layout_at(c.stats, 16, 13);
    lemma_reasons_layout_at(c.stats, 16, 14);
    lemma_reasons_layout_at(c.stats, 16, 15);
    let m = count_markup(lists, c);
    let w = lists_width(lists, n);
    assert(m == a + cast + counted + reasons);
    assert(m =~= a + (cast + counted + reasons));
    let rest = cast + counted + reasons;
    assert forall|q: int| 0 <= q < rest.len() implies m[w + q] == #[trigger] rest[q] by {}
    assert(rest[0] == cast[0]);
    assert(rest[1] == cast[1]);
    assert(rest[3] == counted[0]);
    assert(rest[4] == counted[1]);
    assert forall|q: int| 0 <= q < 48 implies #[trigger] rest[6 + q] == reasons[q] by {}
    assert forall|i: int| 0 <= i < n implies m.subrange(lists_width(lists, i), lists_width(lists, i + 1))
        == list_markup(lists[i], #[trigger] c.votes[i]) by {
        lemma_lists_layout(lists, c.votes, n, i);
        lemma_lists_width_grows(lists, i + 1, n);
        lemma_lists_width_grows(lists, 0, i);
        assert(m.subrange(lists_width(lists, i), lists_width(lists, i + 1)) =~= a.subrange(
            lists_width(lists, i),
            lists_width(lists, i + 1),
        ));
    }
}

/// The markup of a reporting unit: it opens `ReportingUnitVotes`, then names the unit by the
/// area code, `::SB` and its area number, and describes it as `Stembureau`, its name and, if
/// it has one, ` (postcode: ` its postcode `)`; then comes the markup of its count, and the
/// element closes.
pub proof fn lemma_unit_markup_layout(lists: Seq<ListView>, area_code: Seq<char>, u: ReportUnitView)
    ensures
        unit_markup(lists, area_code, u)[0] == plain_tag("ReportingUnitVotes"@, Seq::empty()),
        unit_markup(lists, area_code, u)[1] == plain_tag(
            "ReportingUnitIdentifier"@,
            seq![("Id"@, area_code + "::SB"@ + text::decimal(u.area_number as nat))],
        ),
        unit_markup(lists, area_code, u)[2] == MarkupView::Text(
            "Stembureau "@ + u.name + match u.zipcode {
                Some(z) => " (postcode: "@ + z + ")"@,
                None => Seq::<char>::empty(),
            },
        ),
        unit_markup(lists, area_code, u)[3] == MarkupView::Close,
        unit_markup(lists, area_code, u).subrange(4, unit_markup(lists, area_code, u).len() - 1)
            == count_markup(lists, u.count),
        unit_markup(lists, area_code, u).last() == MarkupView::Close,
{
    let m = unit_markup(lists, area_code, u);
    let c = count_markup(lists, u.count);
    assert(m.subrange(4, m.len() - 1) =~= c);
}

/// The number of pieces that the markup of one reporting unit takes: five around its count,
/// and the count (whose length depends on the lists only).
pub open spec fn unit_width(lists: Seq<ListView>) -> int {
    lists_width(lists, lists.len() as int) + 59
}

proof fn lemma_unit_markup_len(lists: Seq<ListView>, area_code: Seq<char>, u: ReportUnitView)
    ensures
        unit_markup(lists, area_code, u).len() == unit_width(lists),
{
    lemma_count_markup_layout(lists, u.count);
}

/// The markup of the reporting units: each unit in turn, unit `i` taking the places
/// `i * unit_width(lists)` up to `(i + 1) * unit_width(lists)`.
pub proof fn lemma_units_markup_layout(lists: Seq<ListView>, area_code: Seq<char>, units: Seq<ReportUnitView>, n: int)
    requires
        0 <= n <= units.len(),
    ensures
        units_markup(lists, area_code, units, n).len() == n * unit_width(lists),
        forall|i: int|
            0 <= i < n ==> units_markup(lists, area_code, units, n).subrange(
                i * unit_width(lists),
                (i + 1) * unit_width(lists),
            ) == unit_markup(lists, area_code, #[trigger] units[i]),
    decreases n,
{
    let w = unit_width(lists);
    lemma_lists_width_grows(lists, 0, lists.len() as int);
    assert(0 * w == 0) by (nonlinear_arith);
    if n > 0 {
        lemma_units_markup_layout(lists, area_code, units, n - 1);
        let a = units_markup(lists, area_code, units, n - 1);
        let b = unit_markup(lists, area_code, units[n - 1]);
        lemma_unit_markup_len(lists, area_code, units[n - 1]);
        assert((n - 1) * w + w == n * w) by (nonlinear_arith);
        assert forall|i: int| 0 <= i < n implies (a + b).subrange(i * w, (i + 1) * w) == unit_markup(
            lists,
            area_code,
            #[trigger] units[i],
        ) by {
            if i < n - 1 {
                assert((i + 1) * w <= (n - 1) * w && 0 <= i * w && i * w + w == (i + 1) * w) by (nonlinear_arith)
                    requires
                        0 <= i < n - 1,
                        w >= 0,
                ;
                assert((a + b).subrange(i * w, (i + 1) * w) =~= a.subrange(i * w, (i + 1) * w));
            } else {
                assert(i * w == (n - 1) * w && (i + 1) * w == n * w) by (nonlinear_arith)
                    requires
                        i == n - 1,
                ;
                assert((a + b).subrange(i * w, (i + 1) * w) =~= b);
            }
        }
    }
}

/// The markup of a contest: it opens `Contest`; identifies the contest (with its name where it
/// has one); then the total votes, whose markup is that of the total count; then each
/// reporting unit in turn; and it closes.
pub proof fn lemma_contest_markup_layout(c: ContestView)
    ensures
        ({
            let ident = if c.contest_name.len() == 0 { 3int } else { 5int };
            let count_end = 2 + ident + lists_width(c.lists, c.lists.len() as int) + 54;
            &&& contest_markup(c)[0] == plain_tag("Contest"@, Seq::empty())
            &&& contest_markup(c)[1] == plain_tag("ContestIdentifier"@, seq![("Id"@, c.contest_id)])
            &&& contest_markup(c)[1 + ident] == plain_tag("TotalVotes"@, Seq::empty())
            &&& contest_markup(c).subrange(2 + ident, count_end) == count_markup(c.lists, c.total_count)
            &&& contest_markup(c)[count_end] == MarkupView::Close
            &&& contest_markup(c).subrange(count_end + 1, contest_markup(c).len() - 1) == units_markup(
                c.lists,
                c.area_code,
                c.report_unit,
                c.report_unit.len() as int,
            )
            &&& contest_markup(c).last() == MarkupView::Close
        }),
{
    lemma_count_len(c.lists, c.total_count);
    let ident = if c.contest_name.len() == 0 { 3int } else { 5int };
    let id_part = element(
        open_tag_with("ContestIdentifier"@, "Id"@, c.contest_id),
        if c.contest_name.len() == 0 {
            seq![MarkupView::Text(Seq::empty())]
        } else {
            text_element(open_tag("ContestName"@), c.contest_name)
        },
    );
    assert(id_part.len() == ident);
    assert(id_part[0] == open_tag_with("ContestIdentifier"@, "Id"@, c.contest_id));
    lemma_contest_shape(
        open_tag("Contest"@),
        id_part,
        open_tag("TotalVotes"@),
        count_markup(c.lists, c.total_count),
        units_markup(c.lists, c.area_code, c.report_unit, c.report_unit.len() as int),
    );
}

proof fn lemma_element_parts(open: MarkupView, inner: Seq<MarkupView>)
    ensures
        element(open, inner).len() == inner.len() + 2,
        element(open, inner)[0] == open,
        element(open, inner).last() == MarkupView::Close,
        element(open, inner).subrange(1, inner.len() + 1int) == inner,
{
    assert(element(open, inner).subrange(1, inner.len() + 1int) =~= inner);
}

proof fn lemma_three_parts(x: Seq<MarkupView>, y: Seq<MarkupView>, z: Seq<MarkupView>)
    ensures
        (x + y + z).len() == x.len() + y.len() + z.len(),
        (x + y + z).subrange(x.len() as int, x.len() + y.len() as int) == y,
        (x + y + z).subrange(x.len() + y.len() as int, (x + y + z).len() as int) == z,
        forall|i: int| 0 <= i < y.len() ==> (x + y + z)[x.len() + i] == #[trigger] y[i],
        forall|i: int| 0 <= i < x.len() ==> (x + y + z)[i] == #[trigger] x[i],
{
    assert((x + y + z).subrange(x.len() as int, x.len() + y.len() as int) =~= y);
    assert((x + y + z).subrange(x.len() + y.len() as int, (x + y + z).len() as int) =~= z);
}

proof fn lemma_count_len(lists: Seq<ListView>, c: CountView)
    ensures
        count_markup(lists, c).len() == lists_width(lists, lists.len() as int) + 54,
{
    lemma_count_markup_layout(lists, c);
}

proof fn lemma_contest_shape(
    open_c: MarkupView,
    id_part: Seq<MarkupView>,
    open_t: MarkupView,
    cm: Seq<MarkupView>,
    units: Seq<MarkupView>,
)
    requires
        id_part.len() > 0,
    ensures
        ({
            let m = element(open_c, id_part + element(open_t, cm) + units);
            let count_end = 2 + id_part.len() as int + cm.len() as int;
            &&& m[0] == open_c
            &&& m[1] == id_part[0]
            &&& m[1 + id_part.len() as int] == open_t
            &&& m.subrange(2 + id_part.len() as int, count_end) == cm
            &&& m[count_end] == MarkupView::Close
            &&& m.subrange(count_end + 1, m.len() - 1) == units
            &&& m.last() == MarkupView::Close
        }),
{
    let m = element(open_c, id_part + element(open_t, cm) + units);
    let count_end = 2 + id_part.len() as int + cm.len() as int;
    assert(m.subrange(2 + id_part.len() as int, count_end) =~= cm);
    assert(m.subrange(count_end + 1, m.len() - 1) =~= units);
}

} // verus!
