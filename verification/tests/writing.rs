use osv2osv::{contest2eml, has_complete_votes, Candidate, Contest, Count, List, ReportUnit};

fn count(base: u32, votes: Vec<Vec<u32>>) -> Count {
    let mut c = Count::zero();
    for k in 0..19usize {
        c.set_stat(k, base + k as u32);
    }
    c.votes = votes;
    c
}

fn small_contest() -> Contest {
    Contest {
        election_identifier_name: "Provinciale Staten Fryslân 2019".to_string(),
        election_date: "2019-03-20".to_string(),
        area_name: "Gemeente Tytsjerksteradiel".to_string(),
        area_name_short: "Tytsjerksteradiel".to_string(),
        area_code: "0737".to_string(),
        election_category: "PS".to_string(),
        election_subcategory: "PS1".to_string(),
        election_domain: Some("Fryslân".to_string()),
        election_identifier_id: "PS2019_Fryslan".to_string(),
        creation_date_time: "2019-03-20T12:34:56.789".to_string(),
        contest_id: "geen".to_string(),
        contest_name: "".to_string(),
        total_count: count(100, vec![vec![30, 20]]),
        report_unit: vec![ReportUnit {
            name: "Sporthal".to_string(),
            area_number: 1,
            zipcode: Some("9254 BB".to_string()),
            count: count(40, vec![vec![10, 8]]),
        }],
        lists: vec![List {
            number: 1,
            name: "CDA".to_string(),
            candidates: vec![Candidate { number: 1, name: "Jansen, A.".to_string() }],
        }],
    }
}

/// The markup of a count with tallies `base..base+19` in field order and the votes of one
/// list with one candidate.
fn count_xml(base: u32, list_votes: u32, cand_votes: u32) -> String {
    let mut s = String::new();
    s.push_str("<Selection><AffiliationIdentifier Id=\"1\"><RegisteredName>CDA</RegisteredName></AffiliationIdentifier>");
    s.push_str(&format!("<ValidVotes>{}</ValidVotes></Selection>", list_votes));
    s.push_str("<Selection><Candidate><CandidateIdentifier Id=\"1\"></CandidateIdentifier></Candidate>");
    s.push_str(&format!("<ValidVotes>{}</ValidVotes></Selection>", cand_votes));
    s.push_str(&format!("<Cast>{}</Cast><TotalCounted>{}</TotalCounted>", base, base + 6));
    let reasons: [(&str, &str, u32); 16] = [
        ("RejectedVotes", "ongeldig", 8),
        ("RejectedVotes", "blanco", 7),
        ("UncountedVotes", "geldige stempassen", 1),
        ("UncountedVotes", "geldige volmachtbewijzen", 2),
        ("UncountedVotes", "geldige kiezerspassen", 3),
        ("UncountedVotes", "toegelaten kiezers", 4),
        ("UncountedVotes", "toegelaten kiezers (Briefstembureaus gemeente)", 5),
        ("UncountedVotes", "meer getelde stembiljetten", 10),
        ("UncountedVotes", "minder getelde stembiljetten", 11),
        ("UncountedVotes", "meegenomen stembiljetten", 12),
        ("UncountedVotes", "te weinig uitgereikte stembiljetten", 13),
        ("UncountedVotes", "te veel uitgereikte stembiljetten", 14),
        ("UncountedVotes", "geen stembiljet in enveloppe (Briefstembureaus)", 15),
        ("UncountedVotes", "meer stembiljetten in een enveloppe (Briefstembureaus)", 16),
        ("UncountedVotes", "geen verklaring", 17),
        ("UncountedVotes", "andere verklaring", 18),
    ];
    for (tag, code, k) in reasons.iter() {
        s.push_str(&format!("<{} ReasonCode=\"{}\">{}</{}>", tag, code, base + k, tag));
    }
    s
}

fn expected_document() -> String {
    let mut s = String::new();
    s.push_str("<EML xmlns=\"urn:oasis:names:tc:evs:schema:eml\" xmlns:ds=\"http://www.w3.org/2000/09/xmldsig#\" xmlns:kr=\"http://www.kiesraad.nl/extensions\" xmlns:xal=\"urn:oasis:names:tc:ciq:xsdschema:xAL:2.0\" xmlns:xnl=\"urn:oasis:names:tc:ciq:xsdschema:xNL:2.0\" Id=\"510b\" SchemaVersion=\"5\">");
    s.push_str("<!--Created by: Ondersteunende Software Verkiezingen by IVU Traffic Technologies AG, program: P4_PSB, version: 2.23.6-->");
    s.push_str("<TransactionId>1</TransactionId>");
    s.push_str("<ManagingAuthority><AuthorityIdentifier Id=\"0737\">Tytsjerksteradiel</AuthorityIdentifier><AuthorityAddress></AuthorityAddress></ManagingAuthority>");
    s.push_str("<kr:CreationDateTime>2019-03-20T12:34:56.789</kr:CreationDateTime>");
    s.push_str("<ds:CanonicalizationMethod Algorithm=\"http://www.w3.org/TR/2001/REC-xml-c14n-20010315#WithComments\"></ds:CanonicalizationMethod>");
    s.push_str("<Count><EventIdentifier></EventIdentifier><Election>");
    s.push_str("<ElectionIdentifier Id=\"PS2019_Fryslan\"><ElectionName>Provinciale Staten Fryslân 2019</ElectionName><ElectionCategory>PS</ElectionCategory><kr:ElectionSubcategory>PS1</kr:ElectionSubcategory><kr:ElectionDomain>Fryslân</kr:ElectionDomain><kr:ElectionDate>2019-03-20</kr:ElectionDate></ElectionIdentifier>");
    s.push_str("<Contests><Contest><ContestIdentifier Id=\"geen\"></ContestIdentifier>");
    s.push_str("<TotalVotes>");
    s.push_str(&count_xml(100, 30, 20));
    s.push_str("</TotalVotes>");
    s.push_str("<ReportingUnitVotes><ReportingUnitIdentifier Id=\"0737::SB1\">Stembureau Sporthal (postcode: 9254 BB)</ReportingUnitIdentifier>");
    s.push_str(&count_xml(40, 10, 8));
    s.push_str("</ReportingUnitVotes>");
    s.push_str("</Contest></Contests></Election></Count></EML>");
    s
}

#[test]
fn writes_the_whole_document() {
    let c = small_contest();
    assert!(has_complete_votes(&c));
    assert_eq!(contest2eml(&c), expected_document());
}

#[test]
fn contest_name_and_missing_domain() {
    let mut c = small_contest();
    c.contest_name = "Kieskring 1".to_string();
    c.election_domain = None;
    c.report_unit[0].zipcode = None;
    let eml = contest2eml(&c);
    assert!(eml.contains("<ContestIdentifier Id=\"geen\"><ContestName>Kieskring 1</ContestName></ContestIdentifier>"));
    assert!(!eml.contains("kr:ElectionDomain"));
    assert!(eml.contains(">Stembureau Sporthal</ReportingUnitIdentifier>"));
}

#[test]
fn text_is_escaped() {
    let mut c = small_contest();
    c.lists[0].name = "A & B <list>".to_string();
    let eml = contest2eml(&c);
    assert!(eml.contains("<RegisteredName>A &amp; B &lt;list&gt;</RegisteredName>"));
}

#[test]
fn votes_that_are_missing_are_detected() {
    let mut c = small_contest();
    c.report_unit[0].count.votes = vec![vec![10]];
    assert!(!has_complete_votes(&c));
    let mut d = small_contest();
    d.total_count.votes = vec![];
    assert!(!has_complete_votes(&d));
    let mut e = small_contest();
    e.report_unit[0].count.votes = vec![vec![10, 8, 99]];
    assert!(has_complete_votes(&e));
}

#[test]
fn document_is_well_nested() {
    let eml = contest2eml(&small_contest());
    assert!(eml.starts_with("<EML "));
    assert!(eml.ends_with("</EML>"));
    assert_eq!(eml.matches("<Selection>").count(), eml.matches("</Selection>").count());
}

#[test]
fn csv_export_to_document() {
    let mut s = String::new();
    s.push_str("Verkiezing;;Provinciale Staten Fryslân 2019\nDatum;;20-03-2019\nGebied;;Gemeente Tytsjerksteradiel\nNummer;;737\n");
    s.push_str("Lijstnummer;Aanduiding;Volgnummer;Naam kandidaat;Totaal;Sporthal\n");
    s.push_str("Gebiednummer;;;;;1\nPostcode;;;;;9254 BB\n");
    let labels = [
        "opgeroepenen", "geldige stempas", "geldig volmachtbewijs", "geldige kiezerspas",
        "toegelaten kiezers", "toegelaten kiezers (Briefstembureaus gemeente)", "geldige stembiljetten",
        "blanco stembiljetten", "ongeldige stembiljetten", "aangetroffen stembiljetten",
        "meer stembiljetten dan toegelaten kiezers", "minder stembiljetten dan toegelaten kiezers",
        "kiezers met stembiljet hebben niet gestemd", "er zijn te weinig stembiljetten uitgereikt",
        "er zijn te veel stembiljetten uitgereikt", "geen stembiljet in enveloppe (Briefstembureaus)",
        "meer stembiljetten in een enveloppe (Briefstembureaus)", "geen verklaring", "andere verklaring",
    ];
    for (k, label) in labels.iter().enumerate() {
        s.push_str(&format!(";{};;;{};{}\n", label, 100 + k, 40 + k));
    }
    s.push_str("1;CDA;;;30;10\n;;1;Jansen, A.;20;8\n");
    let c = osv2osv::csv2contest(s.as_bytes()).unwrap();
    assert!(has_complete_votes(&c));
    assert_eq!(contest2eml(&c), expected_document());
}

#[test]
fn one_creation_time_element() {
    let eml = contest2eml(&small_contest());
    assert_eq!(eml.matches("<kr:CreationDateTime>").count(), 1);
    assert!(eml.contains("<kr:CreationDateTime>2019-03-20T12:34:56.789</kr:CreationDateTime>"));
}

#[test]
fn only_the_creation_time_differs() {
    let a = small_contest();
    let mut b = small_contest();
    b.creation_date_time = "2019-03-21T06:57:22.834".to_string();
    let ea = contest2eml(&a);
    let eb = contest2eml(&b);
    assert_ne!(ea, eb);
    assert_eq!(ea.replace("2019-03-20T12:34:56.789", "2019-03-21T06:57:22.834"), eb);
}

#[test]
fn votes_beyond_the_lists_are_not_written() {
    let a = small_contest();
    let mut b = small_contest();
    b.total_count.votes = vec![vec![30, 20, 7, 7], vec![1, 2, 3]];
    b.report_unit[0].count.votes = vec![vec![10, 8, 5]];
    assert_eq!(contest2eml(&a), contest2eml(&b));
}
