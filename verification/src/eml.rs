//! Writing a contest as an EML_NL count document (XML).
use crate::model::{self, Candidate, Contest, ContestView, Count, CountView, List, ListView, ReportUnit, ReportUnitView};
use crate::text::{self, concat, decimal_string, owned, string_from_utf8};
use crate::xml_out::{
    self, xml_builder_attr, xml_builder_ns, xml_into_bytes, xml_start_element, xml_write_characters,
    xml_write_comment, xml_write_end, xml_write_start, xml_writer_new, Markup, MarkupView,
};
use vstd::prelude::*;

verus! {

// ---------------------------------------------------------------------------
// The markup of a document, as a specification.
// ---------------------------------------------------------------------------

/// An opening tag without attributes or namespace bindings.
pub open spec fn open_tag(name: Seq<char>) -> MarkupView {
    MarkupView::Open { name: name, attributes: Seq::empty(), namespaces: Map::empty() }
}

/// An opening tag with one attribute.
pub open spec fn open_tag_with(name: Seq<char>, attr: Seq<char>, value: Seq<char>) -> MarkupView {
    MarkupView::Open { name: name, attributes: seq![(attr, value)], namespaces: Map::empty() }
}

/// An element: its opening tag, its content and its closing tag.
pub open spec fn element(open: MarkupView, inner: Seq<MarkupView>) -> Seq<MarkupView> {
    seq![open] + inner + seq![MarkupView::Close]
}

/// An element that holds only text.
pub open spec fn text_element(open: MarkupView, text: Seq<char>) -> Seq<MarkupView> {
    element(open, seq![MarkupView::Text(text)])
}

/// The selection of a candidate and its votes.
pub open spec fn candidate_markup(number: u8, vote: u32) -> Seq<MarkupView> {
    element(
        open_tag("Selection"@),
        element(
            open_tag("Candidate"@),
            text_element(
                open_tag_with("CandidateIdentifier"@, "Id"@, text::decimal(number as nat)),
                Seq::empty(),
            ),
        ) + text_element(open_tag("ValidVotes"@), text::decimal(vote as nat)),
    )
}

/// The selections of the first `n` candidates of a list; the votes of candidate `j` are
/// `votes[j + 1]`.
pub open spec fn candidates_markup(cands: Seq<model::CandidateView>, votes: Seq<u32>, n: int) -> Seq<MarkupView>
    decreases n,
{
    if n <= 0 {
        Seq::empty()
    } else {
        candidates_markup(cands, votes, n - 1) + candidate_markup(cands[n - 1].number, votes[n])
    }
}

/// The selection of a list with its votes (`votes[0]`), then those of its candidates.
pub open spec fn list_markup(l: ListView, votes: Seq<u32>) -> Seq<MarkupView> {
    element(
        open_tag("Selection"@),
        element(
            open_tag_with("AffiliationIdentifier"@, "Id"@, text::decimal(l.number as nat)),
            text_element(open_tag("RegisteredName"@), l.name),
        ) + text_element(open_tag("ValidVotes"@), text::decimal(votes[0] as nat)),
    ) + candidates_markup(l.candidates, votes, l.candidates.len() as int)
}

/// The selections of the first `n` lists.
pub open spec fn lists_markup(lists: Seq<ListView>, votes: Seq<Seq<u32>>, n: int) -> Seq<MarkupView>
    decreases n,
{
    if n <= 0 {
        Seq::empty()
    } else {
        lists_markup(lists, votes, n - 1) + list_markup(lists[n - 1], votes[n - 1])
    }
}

/// The rejected and uncounted votes, in the order written: the element, the reason code and
/// the index of the tally in a `Count`.
pub open spec fn reason_entry(i: int) -> (Seq<char>, Seq<char>, int) {
    if i == 0 { ("RejectedVotes"@, "ongeldig"@, 8) }
    else if i == 1 { ("RejectedVotes"@, "blanco"@, 7) }
    else if i == 2 { ("UncountedVotes"@, "geldige stempassen"@, 1) }
    else if i == 3 { ("UncountedVotes"@, "geldige volmachtbewijzen"@, 2) }
    else if i == 4 { ("UncountedVotes"@, "geldige kiezerspassen"@, 3) }
    else if i == 5 { ("UncountedVotes"@, "toegelaten kiezers"@, 4) }
    else if i == 6 { ("UncountedVotes"@, "toegelaten kiezers (Briefstembureaus gemeente)"@, 5) }
    else if i == 7 { ("UncountedVotes"@, "meer getelde stembiljetten"@, 10) }
    else if i == 8 { ("UncountedVotes"@, "minder getelde stembiljetten"@, 11) }
    else if i == 9 { ("UncountedVotes"@, "meegenomen stembiljetten"@, 12) }
    else if i == 10 { ("UncountedVotes"@, "te weinig uitgereikte stembiljetten"@, 13) }
    else if i == 11 { ("UncountedVotes"@, "te veel uitgereikte stembiljetten"@, 14) }
    else if i == 12 { ("UncountedVotes"@, "geen stembiljet in enveloppe (Briefstembureaus)"@, 15) }
    else if i == 13 { ("UncountedVotes"@, "meer stembiljetten in een enveloppe (Briefstembureaus)"@, 16) }
    else if i == 14 { ("UncountedVotes"@, "geen verklaring"@, 17) }
    else { ("UncountedVotes"@, "andere verklaring"@, 18) }
}

/// The elements of the first `n` reasons.
pub open spec fn reasons_markup(stats: Seq<u32>, n: int) -> Seq<MarkupView>
    decreases n,
{
    if n <= 0 {
        Seq::empty()
    } else {
        let (tag, code, k) = reason_entry(n - 1);
        reasons_markup(stats, n - 1) + text_element(
            open_tag_with(tag, "ReasonCode"@, code),
            text::decimal(stats[k] as nat),
        )
    }
}

/// The markup of a count: the selections of all lists, the votes cast and counted, and the
/// sixteen reasons.
pub open spec fn count_markup(lists: Seq<ListView>, c: CountView) -> Seq<MarkupView> {
    lists_markup(lists, c.votes, lists.len() as int) + text_element(
        open_tag("Cast"@),
        text::decimal(c.stats[0] as nat),
    ) + text_element(open_tag("TotalCounted"@), text::decimal(c.stats[6] as nat))
        + reasons_markup(c.stats, 16)
}

/// The identifier of a reporting unit: the area code, `::SB` and the area number.
pub open spec fn unit_identifier(area_code: Seq<char>, u: ReportUnitView) -> Seq<char> {
    area_code + "::SB"@ + text::decimal(u.area_number as nat)
}

/// The description of a reporting unit: `Stembureau`, its name, and its postcode if any.
pub open spec fn unit_description(u: ReportUnitView) -> Seq<char> {
    "Stembureau "@ + u.name + match u.zipcode {
        Some(z) => " (postcode: "@ + z + ")"@,
        None => Seq::empty(),
    }
}

/// The votes of a reporting unit.
pub open spec fn unit_markup(lists: Seq<ListView>, area_code: Seq<char>, u: ReportUnitView) -> Seq<MarkupView> {
    element(
        open_tag("ReportingUnitVotes"@),
        text_element(
            open_tag_with("ReportingUnitIdentifier"@, "Id"@, unit_identifier(area_code, u)),
            unit_description(u),
        ) + count_markup(lists, u.count),
    )
}

/// The votes of the first `n` reporting units.
pub open spec fn units_markup(
    lists: Seq<ListView>,
    area_code: Seq<char>,
    units: Seq<ReportUnitView>,
    n: int,
) -> Seq<MarkupView>
    decreases n,
{
    if n <= 0 {
        Seq::empty()
    } else {
        units_markup(lists, area_code, units, n - 1) + unit_markup(lists, area_code, units[n - 1])
    }
}

/// The opening tag of the document, with its namespaces and schema attributes.
pub open spec fn eml_open() -> MarkupView {
    MarkupView::Open {
        name: "EML"@,
        attributes: seq![("Id"@, "510b"@), ("SchemaVersion"@, "5"@)],
        namespaces: xml_out::bindings(
            seq![
                (""@, "urn:oasis:names:tc:evs:schema:eml"@),
                ("ds"@, "http://www.w3.org/2000/09/xmldsig#"@),
                ("kr"@, "http://www.kiesraad.nl/extensions"@),
                ("xal"@, "urn:oasis:names:tc:ciq:xsdschema:xAL:2.0"@),
                ("xnl"@, "urn:oasis:names:tc:ciq:xsdschema:xNL:2.0"@),
            ],
        ),
    }
}

/// The election identifier and its names, category, domain and date.
pub open spec fn election_identifier_markup(c: ContestView) -> Seq<MarkupView> {
    element(
        open_tag_with("ElectionIdentifier"@, "Id"@, c.election_identifier_id),
        text_element(open_tag("ElectionName"@), c.election_identifier_name) + text_element(
            open_tag("ElectionCategory"@),
            c.election_category,
        ) + text_element(open_tag("kr:ElectionSubcategory"@), c.election_subcategory) + match c.election_domain {
            Some(d) => text_element(open_tag("kr:ElectionDomain"@), d),
            None => Seq::empty(),
        } + text_element(open_tag("kr:ElectionDate"@), c.election_date),
    )
}

/// The contest: its identifier (and name, if it has one), its total votes and the votes of
/// each reporting unit.
pub open spec fn contest_markup(c: ContestView) -> Seq<MarkupView> {
    element(
        open_tag("Contest"@),
        element(
            open_tag_with("ContestIdentifier"@, "Id"@, c.contest_id),
            if c.contest_name.len() == 0 {
                seq![MarkupView::Text(Seq::empty())]
            } else {
                text_element(open_tag("ContestName"@), c.contest_name)
            },
        ) + element(open_tag("TotalVotes"@), count_markup(c.lists, c.total_count))
            + units_markup(c.lists, c.area_code, c.report_unit, c.report_unit.len() as int),
    )
}

/// The comment at the head of the document: the program and version that made it.
pub open spec fn creator_comment() -> Seq<char> {
    "Created by: Ondersteunende Software Verkiezingen by IVU Traffic Technologies AG, program: P4_PSB, version: 2.23.6"@
}

/// The markup of the EML document of a contest.
pub open spec fn eml_markup(c: ContestView) -> Seq<MarkupView> {
    element(
        eml_open(),
        seq![MarkupView::Comment(creator_comment())] + text_element(open_tag("TransactionId"@), "1"@) + element(
            open_tag("ManagingAuthority"@),
            text_element(open_tag_with("AuthorityIdentifier"@, "Id"@, c.area_code), c.area_name_short)
                + text_element(open_tag("AuthorityAddress"@), Seq::empty()),
        ) + text_element(open_tag("kr:CreationDateTime"@), c.creation_date_time) + text_element(
            open_tag_with(
                "ds:CanonicalizationMethod"@,
                "Algorithm"@,
                "http://www.w3.org/TR/2001/REC-xml-c14n-20010315#WithComments"@,
            ),
            Seq::empty(),
        ) + element(
            open_tag("Count"@),
            text_element(open_tag("EventIdentifier"@), Seq::empty()) + element(
                open_tag("Election"@),
                election_identifier_markup(c) + element(open_tag("Contests"@), contest_markup(c)),
            ),
        ),
    )
}

/// The EML document of a contest: the text that an `xml-rs` writer without document
/// declaration produces for its markup.
pub open spec fn eml_text(c: ContestView) -> Seq<char> {
    vstd::utf8::decode_utf8(
        xml_out::xml_document(
            xml_out::XmlWriterView {
                document_declaration: false,
                autopad_comments: false,
                events: eml_markup(c),
            },
        ),
    )
}

/// Every count holds a vote for each list and each of its candidates: the votes that the
/// document writes.
pub open spec fn votes_cover(lists: Seq<ListView>, c: CountView) -> bool {
    &&& c.votes.len() >= lists.len()
    &&& forall|i: int| 0 <= i < lists.len() ==> #[trigger] c.votes[i].len() >= lists[i].candidates.len() + 1
}

/// The total count and the count of every reporting unit hold all votes that the document
/// writes.
pub open spec fn complete_votes(c: ContestView) -> bool {
    &&& votes_cover(c.lists, c.total_count)
    &&& forall|u: int| 0 <= u < c.report_unit.len() ==> votes_cover(c.lists, #[trigger] c.report_unit[u].count)
}

// ---------------------------------------------------------------------------
// Well-nested markup.
// ---------------------------------------------------------------------------

/// No prefix of `s` closes more elements than it opened.
pub open spec fn never_underflows(s: Seq<MarkupView>) -> bool {
    forall|k: int| 0 <= k <= s.len() ==> xml_out::open_depth(#[trigger] s.take(k)) >= 0
}

/// Markup in which every closing tag closes an element that it opened, and which closes all
/// it opens.
pub open spec fn well_nested(s: Seq<MarkupView>) -> bool {
    never_underflows(s) && xml_out::open_depth(s) == 0
}

proof fn lemma_depth_concat(a: Seq<MarkupView>, b: Seq<MarkupView>)
    ensures
        xml_out::open_depth(a + b) == xml_out::open_depth(a) + xml_out::open_depth(b),
    decreases b.len(),
{
    if b.len() == 0 {
        assert(a + b =~= a);
    } else {
        lemma_depth_concat(a, b.drop_last());
        assert((a + b).drop_last() =~= a + b.drop_last());
    }
}

proof fn lemma_depth_single(m: MarkupView)
    ensures
        xml_out::open_depth(seq![m]) == match m {
            MarkupView::Open { .. } => 1int,
            MarkupView::Close => -1int,
            MarkupView::Text(_) => 0int,
            MarkupView::Comment(_) => 0int,
        },
{
    assert(seq![m].drop_last() =~= Seq::<MarkupView>::empty());
    assert(xml_out::open_depth(Seq::<MarkupView>::empty()) == 0);
}

pub proof fn lemma_concat_well_nested(a: Seq<MarkupView>, b: Seq<MarkupView>)
    requires
        well_nested(a),
        well_nested(b),
    ensures
        well_nested(a + b),
{
    lemma_depth_concat(a, b);
    assert forall|k: int| 0 <= k <= (a + b).len() implies xml_out::open_depth(#[trigger] (a + b).take(k)) >= 0 by {
        if k <= a.len() {
            assert((a + b).take(k) =~= a.take(k));
        } else {
            assert((a + b).take(k) =~= a + b.take(k - a.len()));
            lemma_depth_concat(a, b.take(k - a.len()));
            assert(a.take(a.len() as int) =~= a);
        }
    }
}

pub proof fn lemma_element_well_nested(open: MarkupView, inner: Seq<MarkupView>)
    requires
        open is Open,
        well_nested(inner),
    ensures
        well_nested(element(open, inner)),
{
    let s = element(open, inner);
    let o = seq![open];
    lemma_depth_concat(o, inner);
    lemma_depth_concat(o + inner, seq![MarkupView::Close]);
    lemma_depth_single(open);
    lemma_depth_single(MarkupView::Close);
    assert forall|k: int| 0 <= k <= s.len() implies xml_out::open_depth(#[trigger] s.take(k)) >= 0 by {
        if k == 0 {
            assert(s.take(0) =~= Seq::<MarkupView>::empty());
        } else if k <= inner.len() + 1 {
            assert(s.take(k) =~= o + inner.take(k - 1));
            lemma_depth_concat(o, inner.take(k - 1));
        } else {
            assert(s.take(k) =~= s);
        }
    }
}

proof fn lemma_text_element_well_nested(open: MarkupView, t: Seq<char>)
    requires
        open is Open,
    ensures
        well_nested(text_element(open, t)),
{
    let inner = seq![MarkupView::Text(t)];
    lemma_depth_single(MarkupView::Text(t));
    assert forall|k: int| 0 <= k <= inner.len() implies xml_out::open_depth(#[trigger] inner.take(k)) >= 0 by {
        if k == 0 {
            assert(inner.take(0) =~= Seq::<MarkupView>::empty());
        } else {
            assert(inner.take(1) =~= inner);
        }
    }
    lemma_element_well_nested(open, inner);
}


proof fn lemma_empty_well_nested()
    ensures
        well_nested(Seq::<MarkupView>::empty()),
{
    assert forall|k: int| 0 <= k <= 0 implies xml_out::open_depth(
        #[trigger] Seq::<MarkupView>::empty().take(k),
    ) >= 0 by {
        assert(Seq::<MarkupView>::empty().take(k) =~= Seq::<MarkupView>::empty());
    }
}

proof fn lemma_candidates_well_nested(cands: Seq<model::CandidateView>, votes: Seq<u32>, n: int)
    ensures
        well_nested(candidates_markup(cands, votes, n)),
    decreases n,
{
    if n <= 0 {
        lemma_empty_well_nested();
    } else {
        lemma_candidates_well_nested(cands, votes, n - 1);
        let number = cands[n - 1].number;
        lemma_text_element_well_nested(
            open_tag_with("CandidateIdentifier"@, "Id"@, text::decimal(number as nat)),
            Seq::empty(),
        );
        lemma_element_well_nested(
            open_tag("Candidate"@),
            text_element(
                open_tag_with("CandidateIdentifier"@, "Id"@, text::decimal(number as nat)),
                Seq::empty(),
            ),
        );
        lemma_text_element_well_nested(open_tag("ValidVotes"@), text::decimal(votes[n] as nat));
        lemma_concat_well_nested(
            element(
                open_tag("Candidate"@),
                text_element(
                    open_tag_with("CandidateIdentifier"@, "Id"@, text::decimal(number as nat)),
                    Seq::empty(),
                ),
            ),
            text_element(open_tag("ValidVotes"@), text::decimal(votes[n] as nat)),
        );
        lemma_element_well_nested(
            open_tag("Selection"@),
            element(
                open_tag("Candidate"@),
                text_element(
                    open_tag_with("CandidateIdentifier"@, "Id"@, text::decimal(number as nat)),
                    Seq::empty(),
                ),
            ) + text_element(open_tag("ValidVotes"@), text::decimal(votes[n] as nat)),
        );
        lemma_concat_well_nested(
            candidates_markup(cands, votes, n - 1),
            candidate_markup(number, votes[n]),
        );
    }
}

proof fn lemma_list_well_nested(l: ListView, votes: Seq<u32>)
    ensures
        well_nested(list_markup(l, votes)),
{
    let ident = open_tag_with("AffiliationIdentifier"@, "Id"@, text::decimal(l.number as nat));
    lemma_text_element_well_nested(open_tag("RegisteredName"@), l.name);
    lemma_element_well_nested(ident, text_element(open_tag("RegisteredName"@), l.name));
    lemma_text_element_well_nested(open_tag("ValidVotes"@), text::decimal(votes[0] as nat));
    lemma_concat_well_nested(
        element(ident, text_element(open_tag("RegisteredName"@), l.name)),
        text_element(open_tag("ValidVotes"@), text::decimal(votes[0] as nat)),
    );
    lemma_element_well_nested(
        open_tag("Selection"@),
        element(ident, text_element(open_tag("RegisteredName"@), l.name)) + text_element(
            open_tag("ValidVotes"@),
            text::decimal(votes[0] as nat),
        ),
    );
    lemma_candidates_well_nested(l.candidates, votes, l.candidates.len() as int);
    lemma_concat_well_nested(
        element(
            open_tag("Selection"@),
            element(ident, text_element(open_tag("RegisteredName"@), l.name)) + text_element(
                open_tag("ValidVotes"@),
                text::decimal(votes[0] as nat),
            ),
        ),
        candidates_markup(l.candidates, votes, l.candidates.len() as int),
    );
}

proof fn lemma_lists_well_nested(lists: Seq<ListView>, votes: Seq<Seq<u32>>, n: int)
    ensures
        well_nested(lists_markup(lists, votes, n)),
    decreases n,
{
    if n <= 0 {
        lemma_empty_well_nested();
    } else {
        lemma_lists_well_nested(lists, votes, n - 1);
        lemma_list_well_nested(lists[n - 1], votes[n - 1]);
        lemma_concat_well_nested(lists_markup(lists, votes, n - 1), list_markup(lists[n - 1], votes[n - 1]));
    }
}

proof fn lemma_reasons_well_nested(stats: Seq<u32>, n: int)
    ensures
        well_nested(reasons_markup(stats, n)),
    decreases n,
{
    if n <= 0 {
        lemma_empty_well_nested();
    } else {
        lemma_reasons_well_nested(stats, n - 1);
        let (tag, code, k) = reason_entry(n - 1);
        lemma_text_element_well_nested(open_tag_with(tag, "ReasonCode"@, code), text::decimal(stats[k] as nat));
        lemma_concat_well_nested(
            reasons_markup(stats, n - 1),
            text_element(open_tag_with(tag, "ReasonCode"@, code), text::decimal(stats[k] as nat)),
        );
    }
}

/// The markup of a count is well nested: every element it opens it also closes, so writing
/// it inside an open element leaves the same elements open.
pub proof fn lemma_count_well_nested(lists: Seq<ListView>, c: CountView)
    ensures
        well_nested(count_markup(lists, c)),
{
    let a = lists_markup(lists, c.votes, lists.len() as int);
    let b = text_element(open_tag("Cast"@), text::decimal(c.stats[0] as nat));
    let d = text_element(open_tag("TotalCounted"@), text::decimal(c.stats[6] as nat));
    let e = reasons_markup(c.stats, 16);
    lemma_lists_well_nested(lists, c.votes, lists.len() as int);
    lemma_text_element_well_nested(open_tag("Cast"@), text::decimal(c.stats[0] as nat));
    lemma_text_element_well_nested(open_tag("TotalCounted"@), text::decimal(c.stats[6] as nat));
    lemma_reasons_well_nested(c.stats, 16);
    lemma_concat_well_nested(a, b);
    lemma_concat_well_nested(a + b, d);
    lemma_concat_well_nested(a + b + d, e);
}

proof fn lemma_units_well_nested(lists: Seq<ListView>, area_code: Seq<char>, units: Seq<ReportUnitView>, n: int)
    ensures
        well_nested(units_markup(lists, area_code, units, n)),
    decreases n,
{
    if n <= 0 {
        lemma_empty_well_nested();
    } else {
        let u = units[n - 1];
        let ident = open_tag_with("ReportingUnitIdentifier"@, "Id"@, unit_identifier(area_code, u));
        lemma_units_well_nested(lists, area_code, units, n - 1);
        lemma_text_element_well_nested(ident, unit_description(u));
        lemma_count_well_nested(lists, u.count);
        lemma_concat_well_nested(text_element(ident, unit_description(u)), count_markup(lists, u.count));
        lemma_element_well_nested(
            open_tag("ReportingUnitVotes"@),
            text_element(ident, unit_description(u)) + count_markup(lists, u.count),
        );
        lemma_concat_well_nested(units_markup(lists, area_code, units, n - 1), unit_markup(lists, area_code, u));
    }
}

proof fn lemma_election_identifier_well_nested(c: ContestView)
    ensures
        well_nested(election_identifier_markup(c)),
{
    let a = text_element(open_tag("ElectionName"@), c.election_identifier_name);
    let b = text_element(open_tag("ElectionCategory"@), c.election_category);
    let d = text_element(open_tag("kr:ElectionSubcategory"@), c.election_subcategory);
    let e = match c.election_domain {
        Some(x) => text_element(open_tag("kr:ElectionDomain"@), x),
        None => Seq::empty(),
    };
    let f = text_element(open_tag("kr:ElectionDate"@), c.election_date);
    lemma_text_element_well_nested(open_tag("ElectionName"@), c.election_identifier_name);
    lemma_text_element_well_nested(open_tag("ElectionCategory"@), c.election_category);
    lemma_text_element_well_nested(open_tag("kr:ElectionSubcategory"@), c.election_subcategory);
    match c.election_domain {
        Some(x) => lemma_text_element_well_nested(open_tag("kr:ElectionDomain"@), x),
        None => lemma_empty_well_nested(),
    }
    lemma_text_element_well_nested(open_tag("kr:ElectionDate"@), c.election_date);
    lemma_concat_well_nested(a, b);
    lemma_concat_well_nested(a + b, d);
    lemma_concat_well_nested(a + b + d, e);
    lemma_concat_well_nested(a + b + d + e, f);
    lemma_element_well_nested(
        open_tag_with("ElectionIdentifier"@, "Id"@, c.election_identifier_id),
        a + b + d + e + f,
    );
}

proof fn lemma_contest_well_nested(c: ContestView)
    ensures
        well_nested(contest_markup(c)),
{
    let name_part = if c.contest_name.len() == 0 {
        seq![MarkupView::Text(Seq::empty())]
    } else {
        text_element(open_tag("ContestName"@), c.contest_name)
    };
    if c.contest_name.len() == 0 {
        lemma_depth_single(MarkupView::Text(Seq::empty()));
        assert forall|k: int| 0 <= k <= name_part.len() implies xml_out::open_depth(
            #[trigger] name_part.take(k),
        ) >= 0 by {
            if k == 0 {
                assert(name_part.take(0) =~= Seq::<MarkupView>::empty());
            } else {
                assert(name_part.take(1) =~= name_part);
            }
        }
    } else {
        lemma_text_element_well_nested(open_tag("ContestName"@), c.contest_name);
    }
    let ident = element(open_tag_with("ContestIdentifier"@, "Id"@, c.contest_id), name_part);
    lemma_element_well_nested(open_tag_with("ContestIdentifier"@, "Id"@, c.contest_id), name_part);
    lemma_count_well_nested(c.lists, c.total_count);
    let total = element(open_tag("TotalVotes"@), count_markup(c.lists, c.total_count));
    lemma_element_well_nested(open_tag("TotalVotes"@), count_markup(c.lists, c.total_count));
    let units = units_markup(c.lists, c.area_code, c.report_unit, c.report_unit.len() as int);
    lemma_units_well_nested(c.lists, c.area_code, c.report_unit, c.report_unit.len() as int);
    lemma_concat_well_nested(ident, total);
    lemma_concat_well_nested(ident + total, units);
    lemma_element_well_nested(open_tag("Contest"@), ident + total + units);
}

/// The markup of every contest is well nested: each closing tag closes an element opened
/// before it, and all elements are closed in the end.
pub proof fn lemma_eml_markup_well_nested(c: ContestView)
    ensures
        well_nested(eml_markup(c)),
{
    let cm = seq![MarkupView::Comment(creator_comment())];
    let a = text_element(open_tag("TransactionId"@), "1"@);
    let auth = text_element(open_tag_with("AuthorityIdentifier"@, "Id"@, c.area_code), c.area_name_short);
    let addr = text_element(open_tag("AuthorityAddress"@), Seq::empty());
    let b = element(open_tag("ManagingAuthority"@), auth + addr);
    let d = text_element(open_tag("kr:CreationDateTime"@), c.creation_date_time);
    let canon = open_tag_with(
        "ds:CanonicalizationMethod"@,
        "Algorithm"@,
        "http://www.w3.org/TR/2001/REC-xml-c14n-20010315#WithComments"@,
    );
    let e = text_element(canon, Seq::empty());
    let ev = text_element(open_tag("EventIdentifier"@), Seq::empty());
    let contests = element(open_tag("Contests"@), contest_markup(c));
    let election = element(open_tag("Election"@), election_identifier_markup(c) + contests);
    let f = element(open_tag("Count"@), ev + election);
    lemma_text_element_well_nested(open_tag("TransactionId"@), "1"@);
    lemma_text_element_well_nested(open_tag_with("AuthorityIdentifier"@, "Id"@, c.area_code), c.area_name_short);
    lemma_text_element_well_nested(open_tag("AuthorityAddress"@), Seq::empty());
    lemma_concat_well_nested(auth, addr);
    lemma_element_well_nested(open_tag("ManagingAuthority"@), auth + addr);
    lemma_text_element_well_nested(open_tag("kr:CreationDateTime"@), c.creation_date_time);
    lemma_text_element_well_nested(canon, Seq::empty());
    lemma_text_element_well_nested(open_tag("EventIdentifier"@), Seq::empty());
    lemma_contest_well_nested(c);
    lemma_element_well_nested(open_tag("Contests"@), contest_markup(c));
    lemma_election_identifier_well_nested(c);
    lemma_concat_well_nested(election_identifier_markup(c), contests);
    lemma_element_well_nested(open_tag("Election"@), election_identifier_markup(c) + contests);
    lemma_concat_well_nested(ev, election);
    lemma_element_well_nested(open_tag("Count"@), ev + election);
    lemma_depth_single(MarkupView::Comment(creator_comment()));
    assert forall|k: int| 0 <= k <= cm.len() implies xml_out::open_depth(#[trigger] cm.take(k)) >= 0 by {
        if k == 0 {
            assert(cm.take(0) =~= Seq::<MarkupView>::empty());
        } else {
            assert(cm.take(1) =~= cm);
        }
    }
    lemma_concat_well_nested(cm, a);
    lemma_concat_well_nested(cm + a, b);
    lemma_concat_well_nested(cm + a + b, d);
    lemma_concat_well_nested(cm + a + b + d, e);
    lemma_concat_well_nested(cm + a + b + d + e, f);
    lemma_element_well_nested(eml_open(), cm + a + b + d + e + f);
}


// ---------------------------------------------------------------------------
// Building the markup.
// ---------------------------------------------------------------------------

pub open spec fn markup_view(v: Seq<Markup>) -> Seq<MarkupView> {
    v.map_values(|m: Markup| m@)
}

pub open spec fn lists_view(v: Seq<List>) -> Seq<ListView> {
    v.map_values(|l: List| l@)
}

fn open_markup(name: &str) -> (m: Markup)
    ensures
        m@ == open_tag(name@),
{
    let attributes: Vec<(String, String)> = Vec::new();
    let namespaces: Vec<(String, String)> = Vec::new();
    proof {
        assert(xml_out::pairs_view(attributes@) =~= Seq::empty());
        assert(xml_out::pairs_view(namespaces@) =~= Seq::empty());
    }
    Markup::Open { name: owned(name), attributes: attributes, namespaces: namespaces }
}

fn open_markup_with(name: &str, attr: &str, value: String) -> (m: Markup)
    ensures
        m@ == open_tag_with(name@, attr@, value@),
{
    let mut attributes: Vec<(String, String)> = Vec::new();
    attributes.push((owned(attr), value));
    let namespaces: Vec<(String, String)> = Vec::new();
    proof {
        assert(xml_out::pairs_view(attributes@) =~= seq![(attr@, value@)]);
        assert(xml_out::pairs_view(namespaces@) =~= Seq::empty());
    }
    Markup::Open { name: owned(name), attributes: attributes, namespaces: namespaces }
}

fn append_markup(out: &mut Vec<Markup>, more: Vec<Markup>)
    ensures
        markup_view(final(out)@) == markup_view(old(out)@) + markup_view(more@),
{
    let mut more = more;
    let ghost m = more@;
    out.append(&mut more);
    assert(markup_view(out@) =~= markup_view(old(out)@) + markup_view(m));
}

fn element_markup(open: Markup, inner: Vec<Markup>) -> (res: Vec<Markup>)
    ensures
        markup_view(res@) == element(open@, markup_view(inner@)),
{
    let mut res: Vec<Markup> = Vec::new();
    res.push(open);
    assert(markup_view(res@) =~= seq![open@]);
    append_markup(&mut res, inner);
    let ghost before = markup_view(res@);
    res.push(Markup::Close);
    assert(markup_view(res@) =~= before + seq![MarkupView::Close]);
    res
}

fn text_element_markup(open: Markup, text: String) -> (res: Vec<Markup>)
    ensures
        markup_view(res@) == text_element(open@, text@),
{
    let mut inner: Vec<Markup> = Vec::new();
    inner.push(Markup::Text(text));
    assert(markup_view(inner@) =~= seq![MarkupView::Text(text@)]);
    element_markup(open, inner)
}

fn candidate_markup_exec(number: u8, vote: u32) -> (res: Vec<Markup>)
    ensures
        markup_view(res@) == candidate_markup(number, vote),
{
    let ident = text_element_markup(
        open_markup_with("CandidateIdentifier", "Id", decimal_string(number as u32)),
        String::new(),
    );
    let mut inner = element_markup(open_markup("Candidate"), ident);
    append_markup(&mut inner, text_element_markup(open_markup("ValidVotes"), decimal_string(vote)));
    element_markup(open_markup("Selection"), inner)
}

fn list_markup_exec(l: &List, votes: &Vec<u32>) -> (res: Vec<Markup>)
    requires
        votes@.len() >= l.candidates@.len() + 1,
    ensures
        markup_view(res@) == list_markup(l@, votes@),
{
    let name = text_element_markup(open_markup("RegisteredName"), l.name.clone());
    let mut inner = element_markup(
        open_markup_with("AffiliationIdentifier", "Id", decimal_string(l.number as u32)),
        name,
    );
    append_markup(&mut inner, text_element_markup(open_markup("ValidVotes"), decimal_string(votes[0])));
    let mut res = element_markup(open_markup("Selection"), inner);
    let ghost head = markup_view(res@);
    let mut j: usize = 0;
    while j < l.candidates.len()
        invariant
            j <= l.candidates@.len(),
            votes@.len() >= l.candidates@.len() + 1,
            markup_view(res@) == head + candidates_markup(l@.candidates, votes@, j as int),
        decreases l.candidates@.len() - j,
    {
        append_markup(&mut res, candidate_markup_exec(l.candidates[j].number, votes[j + 1]));
        j = j + 1;
        proof {
            assert(l@.candidates[j - 1].number == l.candidates@[j - 1].number);
            assert(head + candidates_markup(l@.candidates, votes@, j as int) =~= head
                + candidates_markup(l@.candidates, votes@, j - 1) + candidate_markup(
                l.candidates@[j - 1].number,
                votes@[j as int],
            ));
        }
    }
    res
}

fn reason_entry_exec(i: usize) -> (res: (&'static str, &'static str, usize))
    requires
        i < 16,
    ensures
        res.0@ == reason_entry(i as int).0,
        res.1@ == reason_entry(i as int).1,
        res.2 as int == reason_entry(i as int).2,
{
    if i == 0 { ("RejectedVotes", "ongeldig", 8) }
    else if i == 1 { ("RejectedVotes", "blanco", 7) }
    else if i == 2 { ("UncountedVotes", "geldige stempassen", 1) }
    else if i == 3 { ("UncountedVotes", "geldige volmachtbewijzen", 2) }
    else if i == 4 { ("UncountedVotes", "geldige kiezerspassen", 3) }
    else if i == 5 { ("UncountedVotes", "toegelaten kiezers", 4) }
    else if i == 6 { ("UncountedVotes", "toegelaten kiezers (Briefstembureaus gemeente)", 5) }
    else if i == 7 { ("UncountedVotes", "meer getelde stembiljetten", 10) }
    else if i == 8 { ("UncountedVotes", "minder getelde stembiljetten", 11) }
    else if i == 9 { ("UncountedVotes", "meegenomen stembiljetten", 12) }
    else if i == 10 { ("UncountedVotes", "te weinig uitgereikte stembiljetten", 13) }
    else if i == 11 { ("UncountedVotes", "te veel uitgereikte stembiljetten", 14) }
    else if i == 12 { ("UncountedVotes", "geen stembiljet in enveloppe (Briefstembureaus)", 15) }
    else if i == 13 { ("UncountedVotes", "meer stembiljetten in een enveloppe (Briefstembureaus)", 16) }
    else if i == 14 { ("UncountedVotes", "geen verklaring", 17) }
    else { ("UncountedVotes", "andere verklaring", 18) }
}

/// The markup of a count (the selections of the lists and candidates, the votes cast and
/// counted, and the rejected and uncounted votes).
fn write_count(lists: &Vec<List>, c: &Count) -> (res: Vec<Markup>)
    requires
        votes_cover(lists_view(lists@), c@),
    ensures
        markup_view(res@) == count_markup(lists_view(lists@), c@),
{
    let ghost lv = lists_view(lists@);
    let mut res: Vec<Markup> = Vec::new();
    let mut i: usize = 0;
    while i < lists.len()
        invariant
            i <= lists@.len(),
            lv == lists_view(lists@),
            votes_cover(lv, c@),
            markup_view(res@) == lists_markup(lv, c@.votes, i as int),
        decreases lists@.len() - i,
    {
        proof {
            assert(c@.votes[i as int].len() >= lv[i as int].candidates.len() + 1);
            assert(lv[i as int] == lists@[i as int]@);
        }
        append_markup(&mut res, list_markup_exec(&lists[i], &c.votes[i]));
        i = i + 1;
    }
    append_markup(&mut res, text_element_markup(open_markup("Cast"), decimal_string(c.stat(0))));
    append_markup(&mut res, text_element_markup(open_markup("TotalCounted"), decimal_string(c.stat(6))));
    let ghost head = markup_view(res@);
    let mut r: usize = 0;
    while r < 16
        invariant
            r <= 16,
            markup_view(res@) == head + reasons_markup(c@.stats, r as int),
        decreases 16 - r,
    {
        let (tag, code, k) = reason_entry_exec(r);
        append_markup(
            &mut res,
            text_element_markup(open_markup_with(tag, "ReasonCode", owned(code)), decimal_string(c.stat(k))),
        );
        r = r + 1;
        proof {
            assert(head + reasons_markup(c@.stats, r as int) =~= head + reasons_markup(c@.stats, r - 1)
                + text_element(
                open_tag_with(reason_entry(r - 1).0, "ReasonCode"@, reason_entry(r - 1).1),
                text::decimal(c@.stats[reason_entry(r - 1).2] as nat),
            ));
        }
    }
    proof {
        assert(count_markup(lv, c@) =~= lists_markup(lv, c@.votes, lv.len() as int) + text_element(
            open_tag("Cast"@),
            text::decimal(c@.stats[0] as nat),
        ) + text_element(open_tag("TotalCounted"@), text::decimal(c@.stats[6] as nat))
            + reasons_markup(c@.stats, 16));
    }
    res
}


pub open spec fn units_view(v: Seq<ReportUnit>) -> Seq<ReportUnitView> {
    v.map_values(|u: ReportUnit| u@)
}

fn unit_markup_exec(lists: &Vec<List>, area_code: &str, u: &ReportUnit) -> (res: Vec<Markup>)
    requires
        votes_cover(lists_view(lists@), u@.count),
    ensures
        markup_view(res@) == unit_markup(lists_view(lists@), area_code@, u@),
{
    let mut ident = concat(area_code, "::SB");
    ident.append(decimal_string(u.area_number).as_str());
    let mut description = concat("Stembureau ", u.name.as_str());
    match &u.zipcode {
        Some(z) => {
            let mut zip = concat(" (postcode: ", z.as_str());
            zip.append(")");
            description.append(zip.as_str());
        },
        None => {
            assert(description@ =~= description@ + Seq::<char>::empty());
        },
    }
    let mut inner = text_element_markup(
        open_markup_with("ReportingUnitIdentifier", "Id", ident),
        description,
    );
    append_markup(&mut inner, write_count(lists, &u.count));
    element_markup(open_markup("ReportingUnitVotes"), inner)
}

fn election_identifier_exec(c: &Contest) -> (res: Vec<Markup>)
    ensures
        markup_view(res@) == election_identifier_markup(c@),
{
    let mut inner = text_element_markup(open_markup("ElectionName"), c.election_identifier_name.clone());
    append_markup(&mut inner, text_element_markup(open_markup("ElectionCategory"), c.election_category.clone()));
    append_markup(
        &mut inner,
        text_element_markup(open_markup("kr:ElectionSubcategory"), c.election_subcategory.clone()),
    );
    match &c.election_domain {
        Some(d) => {
            append_markup(&mut inner, text_element_markup(open_markup("kr:ElectionDomain"), d.clone()));
        },
        None => {
            assert(markup_view(inner@) =~= markup_view(inner@) + Seq::<MarkupView>::empty());
        },
    }
    append_markup(&mut inner, text_element_markup(open_markup("kr:ElectionDate"), c.election_date.clone()));
    element_markup(
        open_markup_with("ElectionIdentifier", "Id", c.election_identifier_id.clone()),
        inner,
    )
}

fn contest_markup_exec(c: &Contest) -> (res: Vec<Markup>)
    requires
        complete_votes(c@),
    ensures
        markup_view(res@) == contest_markup(c@),
{
    let name_part = if c.contest_name.as_str().is_empty() {
        let mut v: Vec<Markup> = Vec::new();
        v.push(Markup::Text(String::new()));
        assert(markup_view(v@) =~= seq![MarkupView::Text(Seq::empty())]);
        v
    } else {
        text_element_markup(open_markup("ContestName"), c.contest_name.clone())
    };
    let mut inner = element_markup(
        open_markup_with("ContestIdentifier", "Id", c.contest_id.clone()),
        name_part,
    );
    append_markup(&mut inner, element_markup(open_markup("TotalVotes"), write_count(&c.lists, &c.total_count)));
    let ghost head = markup_view(inner@);
    let ghost cv = c@;
    let mut u: usize = 0;
    while u < c.report_unit.len()
        invariant
            u <= c.report_unit@.len(),
            cv == c@,
            complete_votes(cv),
            markup_view(inner@) == head + units_markup(cv.lists, cv.area_code, cv.report_unit, u as int),
        decreases c.report_unit@.len() - u,
    {
        proof {
            assert(cv.report_unit[u as int] == c.report_unit@[u as int]@);
            assert(votes_cover(cv.lists, cv.report_unit[u as int].count));
        }
        append_markup(&mut inner, unit_markup_exec(&c.lists, c.area_code.as_str(), &c.report_unit[u]));
        u = u + 1;
        proof {
            assert(head + units_markup(cv.lists, cv.area_code, cv.report_unit, u as int) =~= head
                + units_markup(cv.lists, cv.area_code, cv.report_unit, u - 1) + unit_markup(
                cv.lists,
                cv.area_code,
                cv.report_unit[u - 1],
            ));
        }
    }
    element_markup(open_markup("Contest"), inner)
}

fn eml_open_exec() -> (m: Markup)
    ensures
        m@ == eml_open(),
{
    let mut attributes: Vec<(String, String)> = Vec::new();
    attributes.push((owned("Id"), owned("510b")));
    attributes.push((owned("SchemaVersion"), owned("5")));
    let mut namespaces: Vec<(String, String)> = Vec::new();
    namespaces.push((String::new(), owned("urn:oasis:names:tc:evs:schema:eml")));
    namespaces.push((owned("ds"), owned("http://www.w3.org/2000/09/xmldsig#")));
    namespaces.push((owned("kr"), owned("http://www.kiesraad.nl/extensions")));
    namespaces.push((owned("xal"), owned("urn:oasis:names:tc:ciq:xsdschema:xAL:2.0")));
    namespaces.push((owned("xnl"), owned("urn:oasis:names:tc:ciq:xsdschema:xNL:2.0")));
    proof {
        assert(xml_out::pairs_view(attributes@) =~= seq![("Id"@, "510b"@), ("SchemaVersion"@, "5"@)]);
        assert(Seq::<char>::empty() == ""@) by {
            reveal_strlit("");
        }
        assert(xml_out::pairs_view(namespaces@) =~= seq![
            (""@, "urn:oasis:names:tc:evs:schema:eml"@),
            ("ds"@, "http://www.w3.org/2000/09/xmldsig#"@),
            ("kr"@, "http://www.kiesraad.nl/extensions"@),
            ("xal"@, "urn:oasis:names:tc:ciq:xsdschema:xAL:2.0"@),
            ("xnl"@, "urn:oasis:names:tc:ciq:xsdschema:xNL:2.0"@),
        ]);
    }
    Markup::Open { name: owned("EML"), attributes: attributes, namespaces: namespaces }
}

/// The markup of the EML document of a contest.
fn eml_markup_exec(c: &Contest) -> (res: Vec<Markup>)
    requires
        complete_votes(c@),
    ensures
        markup_view(res@) == eml_markup(c@),
{
    let mut inner: Vec<Markup> = Vec::new();
    inner.push(Markup::Comment(owned(
        "Created by: Ondersteunende Software Verkiezingen by IVU Traffic Technologies AG, program: P4_PSB, version: 2.23.6",
    )));
    assert(markup_view(inner@) =~= seq![MarkupView::Comment(creator_comment())]);
    append_markup(&mut inner, text_element_markup(open_markup("TransactionId"), owned("1")));
    let mut authority = text_element_markup(
        open_markup_with("AuthorityIdentifier", "Id", c.area_code.clone()),
        c.area_name_short.clone(),
    );
    append_markup(&mut authority, text_element_markup(open_markup("AuthorityAddress"), String::new()));
    append_markup(&mut inner, element_markup(open_markup("ManagingAuthority"), authority));
    append_markup(
        &mut inner,
        text_element_markup(open_markup("kr:CreationDateTime"), c.creation_date_time.clone()),
    );
    append_markup(
        &mut inner,
        text_element_markup(
            open_markup_with(
                "ds:CanonicalizationMethod",
                "Algorithm",
                owned("http://www.w3.org/TR/2001/REC-xml-c14n-20010315#WithComments"),
            ),
            String::new(),
        ),
    );
    let mut election = election_identifier_exec(c);
    append_markup(&mut election, element_markup(open_markup("Contests"), contest_markup_exec(c)));
    let mut count = text_element_markup(open_markup("EventIdentifier"), String::new());
    append_markup(&mut count, element_markup(open_markup("Election"), election));
    append_markup(&mut inner, element_markup(open_markup("Count"), count));
    element_markup(eml_open_exec(), inner)
}


// ---------------------------------------------------------------------------
// Writing the document.
// ---------------------------------------------------------------------------

proof fn lemma_depth_step(s: Seq<MarkupView>, k: int)
    requires
        0 <= k < s.len(),
    ensures
        xml_out::open_depth(s.take(k + 1)) == xml_out::open_depth(s.take(k)) + match s[k] {
            MarkupView::Open { .. } => 1int,
            MarkupView::Close => -1int,
            MarkupView::Text(_) => 0int,
            MarkupView::Comment(_) => 0int,
        },
{
    assert(s.take(k + 1).drop_last() =~= s.take(k));
}

fn write_open(
    w: &mut xml::writer::EventWriter<Vec<u8>>,
    name: &String,
    attributes: &Vec<(String, String)>,
    namespaces: &Vec<(String, String)>,
)
    ensures
        xml_out::xml_writer_state(*final(w)) == (xml_out::XmlWriterView {
            events: xml_out::xml_writer_state(*old(w)).events.push(
                MarkupView::Open {
                    name: name@,
                    attributes: xml_out::pairs_view(attributes@),
                    namespaces: xml_out::bindings(xml_out::pairs_view(namespaces@)),
                },
            ),
            ..xml_out::xml_writer_state(*old(w))
        }),
{
    let mut b = xml_start_element(name.as_str());
    let mut i: usize = 0;
    while i < namespaces.len()
        invariant
            i <= namespaces@.len(),
            xml_out::xml_pending(b) == (
                name@,
                Seq::<(Seq<char>, Seq<char>)>::empty(),
                xml_out::bindings(xml_out::pairs_view(namespaces@).take(i as int)),
            ),
        decreases namespaces@.len() - i,
    {
        b = xml_builder_ns(b, namespaces[i].0.as_str(), namespaces[i].1.as_str());
        i = i + 1;
        proof {
            let s = xml_out::pairs_view(namespaces@).take(i as int);
            assert(s.drop_last() =~= xml_out::pairs_view(namespaces@).take(i - 1));
            assert(s.last() == (namespaces@[i - 1].0@, namespaces@[i - 1].1@));
        }
    }
    assert(xml_out::pairs_view(namespaces@).take(namespaces@.len() as int) =~= xml_out::pairs_view(namespaces@));
    let mut j: usize = 0;
    while j < attributes.len()
        invariant
            j <= attributes@.len(),
            xml_out::xml_pending(b) == (
                name@,
                xml_out::pairs_view(attributes@).take(j as int),
                xml_out::bindings(xml_out::pairs_view(namespaces@)),
            ),
        decreases attributes@.len() - j,
    {
        b = xml_builder_attr(b, attributes[j].0.as_str(), attributes[j].1.as_str());
        j = j + 1;
        assert(xml_out::pairs_view(attributes@).take(j as int) =~= xml_out::pairs_view(attributes@).take(
            j - 1,
        ).push((attributes@[j - 1].0@, attributes@[j - 1].1@)));
    }
    assert(xml_out::pairs_view(namespaces@).take(namespaces@.len() as int) =~= xml_out::pairs_view(namespaces@));
    assert(xml_out::pairs_view(attributes@).take(attributes@.len() as int) =~= xml_out::pairs_view(attributes@));
    match xml_write_start(w, b) {
        Ok(()) => {},
        Err(_) => vstd::pervasive::unreached(),
    }
}

/// Writes well-nested markup to a fresh writer, event by event.
fn write_markup(w: &mut xml::writer::EventWriter<Vec<u8>>, events: &Vec<Markup>)
    requires
        xml_out::xml_writer_state(*old(w)).events == Seq::<MarkupView>::empty(),
        well_nested(markup_view(events@)),
    ensures
        xml_out::xml_writer_state(*final(w)) == (xml_out::XmlWriterView {
            events: markup_view(events@),
            ..xml_out::xml_writer_state(*old(w))
        }),
{
    let ghost all = markup_view(events@);
    let ghost start = xml_out::xml_writer_state(*w);
    let mut k: usize = 0;
    assert(all.take(0) =~= Seq::<MarkupView>::empty());
    while k < events.len()
        invariant
            k <= events@.len(),
            all == markup_view(events@),
            well_nested(all),
            xml_out::xml_writer_state(*w) == (xml_out::XmlWriterView { events: all.take(k as int), ..start }),
        decreases events@.len() - k,
    {
        proof {
            lemma_depth_step(all, k as int);
            assert(xml_out::open_depth(all.take(k + 1)) >= 0);
            assert(all[k as int] == events@[k as int]@);
        }
        match &events[k] {
            Markup::Open { name, attributes, namespaces } => {
                write_open(w, name, attributes, namespaces);
            },
            Markup::Text(t) => {
                match xml_write_characters(w, t.as_str()) {
                    Ok(()) => {},
                    Err(_) => vstd::pervasive::unreached(),
                }
            },
            Markup::Comment(t) => {
                match xml_write_comment(w, t.as_str()) {
                    Ok(()) => {},
                    Err(_) => vstd::pervasive::unreached(),
                }
            },
            Markup::Close => {
                match xml_write_end(w) {
                    Ok(()) => {},
                    Err(_) => vstd::pervasive::unreached(),
                }
            },
        }
        k = k + 1;
        assert(all.take(k as int) =~= all.take(k - 1).push(all[k - 1]));
    }
    assert(all.take(k as int) =~= all);
}

/// Whether every count of the contest holds the votes that its document writes: one for
/// each list and for each candidate of it.
pub fn has_complete_votes(contest: &Contest) -> (b: bool)
    ensures
        b == complete_votes(contest@),
{
    let lv = &contest.lists;
    assert(contest@.lists == lists_view(contest.lists@));
    if !count_covers(lv, &contest.total_count) {
        return false;
    }
    let mut u: usize = 0;
    while u < contest.report_unit.len()
        invariant
            u <= contest.report_unit@.len(),
            forall|x: int| 0 <= x < u ==> votes_cover(contest@.lists, #[trigger] contest@.report_unit[x].count),
        decreases contest.report_unit@.len() - u,
    {
        proof {
            assert(contest@.report_unit[u as int].count == contest.report_unit@[u as int].count@);
            assert(contest@.lists == lists_view(contest.lists@));
        }
        if !count_covers(&contest.lists, &contest.report_unit[u].count) {
            assert(!votes_cover(contest@.lists, contest@.report_unit[u as int].count));
            return false;
        }
        assert(votes_cover(contest@.lists, contest@.report_unit[u as int].count));
        u = u + 1;
    }
    true
}

fn count_covers(lists: &Vec<List>, c: &Count) -> (b: bool)
    ensures
        b == votes_cover(lists_view(lists@), c@),
{
    if c.votes.len() < lists.len() {
        return false;
    }
    let mut i: usize = 0;
    while i < lists.len()
        invariant
            i <= lists@.len(),
            c@.votes.len() >= lists@.len(),
            forall|x: int| 0 <= x < i ==> #[trigger] c@.votes[x].len() >= lists_view(lists@)[x].candidates.len() + 1,
        decreases lists@.len() - i,
    {
        proof {
            assert(lists_view(lists@)[i as int].candidates.len() == lists@[i as int].candidates@.len());
            assert(c@.votes[i as int].len() == c.votes@[i as int]@.len());
        }
        if c.votes[i].len() <= lists[i].candidates.len() {
            return false;
        }
        i = i + 1;
    }
    true
}

/// Writes a contest as an EML_NL count document: the XML that `xml-rs` writes, without a
/// document declaration, for the markup `eml_markup`.
pub fn contest2eml(contest: &Contest) -> (eml: String)
    requires
        complete_votes(contest@),
    ensures
        eml@ == eml_text(contest@),
{
    let events = eml_markup_exec(contest);
    proof {
        lemma_eml_markup_well_nested(contest@);
    }
    let mut w = xml_writer_new(false, false);
    write_markup(&mut w, &events);
    let bytes = xml_into_bytes(w);
    match string_from_utf8(bytes) {
        Some(s) => s,
        None => vstd::pervasive::unreached(),
    }
}

} // verus!
