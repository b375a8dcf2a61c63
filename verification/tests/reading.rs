use osv2osv::{contest_from_rows, csv2contest, ContestError, Contest};

const STAT_LABELS: [&str; 19] = [
    "opgeroepenen",
    "geldige stempas",
    "geldig volmachtbewijs",
    "geldige kiezerspas",
    "toegelaten kiezers",
    "toegelaten kiezers (Briefstembureaus gemeente)",
    "geldige stembiljetten",
    "blanco stembiljetten",
    "ongeldige stembiljetten",
    "aangetroffen stembiljetten",
    "meer stembiljetten dan toegelaten kiezers",
    "minder stembiljetten dan toegelaten kiezers",
    "kiezers met stembiljet hebben niet gestemd",
    "er zijn te weinig stembiljetten uitgereikt",
    "er zijn te veel stembiljetten uitgereikt",
    "geen stembiljet in enveloppe (Briefstembureaus)",
    "meer stembiljetten in een enveloppe (Briefstembureaus)",
    "geen verklaring",
    "andere verklaring",
];

fn header(name: &str, date: &str, area: &str, code: &str) -> String {
    format!(
        "Verkiezing;;{}\nDatum;;{}\nGebied;;{}\nNummer;;{}\n;\n",
        name, date, area, code
    )
}

fn body(with_postcode: bool) -> String {
    let mut s = String::new();
    s.push_str("Lijstnummer;Aanduiding;Volgnummer;Naam kandidaat;Totaal;Dorpshuis;Sporthal\n");
    s.push_str("Gebiednummer;;;;;2;1\n");
    if with_postcode {
        s.push_str("Postcode;;;;;9251 AA;9254 BB\n");
    }
    for (k, label) in STAT_LABELS.iter().enumerate() {
        let total = 100 + k as u32;
        s.push_str(&format!(";{};;;{};{};{}\n", label, total, 60 + k, 40 + k));
    }
    s.push_str("1;CDA;;;30;20;10\n");
    s.push_str(";;1;Jansen, A.;20;12;8\n");
    s.push_str(";;2;Vries, B. de;10;8;2\n");
    s.push_str("2;FNP;;;15;10;5\n");
    s.push_str(";;1;Pietersma, C.;15;10;5\n");
    s
}

fn fryslan_export() -> String {
    header("Provinciale Staten Fryslân 2019", "20-03-2019", "Gemeente Tytsjerksteradiel", "737")
        + &body(true)
}

fn read(text: &str) -> Result<Contest, ContestError> {
    csv2contest(text.as_bytes())
}

#[test]
fn reads_the_header_of_a_provincial_election() {
    let c = read(&fryslan_export()).unwrap();
    assert_eq!(c.election_identifier_name, "Provinciale Staten Fryslân 2019");
    assert_eq!(c.election_date, "2019-03-20");
    assert_eq!(c.area_name, "Gemeente Tytsjerksteradiel");
    assert_eq!(c.area_name_short, "Tytsjerksteradiel");
    assert_eq!(c.area_code, "0737");
    assert_eq!(c.election_category, "PS");
    assert_eq!(c.election_subcategory, "PS1");
    assert_eq!(c.election_domain, Some("Fryslân".to_string()));
    assert_eq!(c.election_identifier_id, "PS2019_Fryslan");
    assert_eq!(c.contest_id, "geen");
    assert_eq!(c.contest_name, "");
}

#[test]
fn creation_time_is_the_election_date_at_a_fixed_time() {
    let c = read(&fryslan_export()).unwrap();
    assert_eq!(c.creation_date_time, "2019-03-20T12:34:56.789");
    let iso = header("Provinciale Staten Fryslân 2019", "2019-03-20", "Leeuwarden", "80") + &body(false);
    let c2 = read(&iso).unwrap();
    assert_eq!(c2.election_date, "2019-03-20");
    assert_eq!(c2.creation_date_time, "2019-03-20T12:34:56.789");
    assert_eq!(c2.area_name_short, "Leeuwarden");
    assert_eq!(c2.area_code, "0080");
}

#[test]
fn two_district_provinces_and_water_boards() {
    let c = read(&(header("Provinciale Staten Noord-Holland 2019", "2019-03-20", "Gemeente Haarlem", "392") + &body(false))).unwrap();
    assert_eq!(c.election_subcategory, "PS2");
    assert_eq!(c.election_identifier_id, "PS2019_NoordHolland");
    let w = read(&(header("Algemeen bestuur van het waterschap Hunze en Aa's 2019", "2019-03-20", "Gemeente Assen", "106") + &body(false))).unwrap();
    assert_eq!(w.election_category, "AB");
    assert_eq!(w.election_subcategory, "AB1");
    assert_eq!(w.election_domain, Some("Hunze en Aa's".to_string()));
    assert_eq!(w.election_identifier_id, "AB2019_HunzeenAas");
    let h = read(&(header("Algemeen bestuur van het hoogheemraadschap Delfland 2019", "2019-03-20", "Gemeente Delft", "503") + &body(false))).unwrap();
    assert_eq!(h.election_subcategory, "AB2");
    assert_eq!(h.election_identifier_id, "AB2019_Delfland");
    let f = read(&(header("Algemeen bestuur van het wetterskip Fryslân 2019", "2019-03-20", "Gemeente Sneek", "1900") + &body(false))).unwrap();
    assert_eq!(f.election_subcategory, "AB1");
    assert_eq!(f.election_identifier_id, "AB2019_Fryslan");
    assert_eq!(f.area_code, "1900");
}

#[test]
fn european_and_house_elections_have_no_domain() {
    let e = read(&(header("Europees Parlement 2019", "23-05-2019", "Gemeente Utrecht", "344") + &body(false))).unwrap();
    assert_eq!(e.election_category, "EP");
    assert_eq!(e.election_subcategory, "EP");
    assert_eq!(e.election_domain, None);
    assert_eq!(e.contest_id, "alle");
    assert_eq!(e.election_identifier_id, "EP2019");
    assert_eq!(e.election_date, "2019-05-23");
    let t = read(&(header("Tweede Kamer der Staten-Generaal 2017", "2017-03-15", "Gemeente Utrecht", "344") + &body(false))).unwrap();
    assert_eq!(t.election_category, "TK");
    assert_eq!(t.contest_id, "TODO");
    assert_eq!(t.election_identifier_id, "TK2017");
}

#[test]
fn reads_units_tallies_lists_and_votes() {
    let c = read(&fryslan_export()).unwrap();
    assert_eq!(c.report_unit.len(), 2);
    // ordered by area number: the second column (area 1) comes first
    assert_eq!(c.report_unit[0].name, "Sporthal");
    assert_eq!(c.report_unit[0].area_number, 1);
    assert_eq!(c.report_unit[0].zipcode, Some("9254 BB".to_string()));
    assert_eq!(c.report_unit[1].name, "Dorpshuis");
    assert_eq!(c.report_unit[1].area_number, 2);
    assert_eq!(c.report_unit[1].zipcode, Some("9251 AA".to_string()));
    assert_eq!(c.total_count.cast, 100);
    assert_eq!(c.total_count.geldige_stembiljetten, 106);
    assert_eq!(c.total_count.andere_verklaring, 118);
    assert_eq!(c.report_unit[0].count.cast, 40);
    assert_eq!(c.report_unit[1].count.cast, 60);
    assert_eq!(c.report_unit[0].count.blanco_stembiljetten, 47);
    assert_eq!(c.lists.len(), 2);
    assert_eq!(c.lists[0].number, 1);
    assert_eq!(c.lists[0].name, "CDA");
    assert_eq!(c.lists[0].candidates.len(), 2);
    assert_eq!(c.lists[0].candidates[1].number, 2);
    assert_eq!(c.lists[0].candidates[1].name, "Vries, B. de");
    assert_eq!(c.lists[1].name, "FNP");
    assert_eq!(c.total_count.votes, vec![vec![30, 20, 10], vec![15, 15]]);
    assert_eq!(c.report_unit[0].count.votes, vec![vec![10, 8, 2], vec![5, 5]]);
    assert_eq!(c.report_unit[1].count.votes, vec![vec![20, 12, 8], vec![10, 10]]);
}

#[test]
fn units_come_out_ordered_by_area_number_stably() {
    let mut s = header("Europees Parlement 2019", "2019-05-23", "Gemeente Utrecht", "344");
    s.push_str("Lijstnummer;Aanduiding;Volgnummer;Naam kandidaat;Totaal;a;b;c;d\n");
    s.push_str("Gebiednummer;;;;;7;3;7;1\n");
    for label in STAT_LABELS.iter() {
        s.push_str(&format!(";{};;;0;0;0;0;0\n", label));
    }
    let c = read(&s).unwrap();
    let names: Vec<&str> = c.report_unit.iter().map(|u| u.name.as_str()).collect();
    assert_eq!(names, vec!["d", "b", "a", "c"]);
    assert_eq!(c.report_unit[0].zipcode, None);
    assert!(c.lists.is_empty());
    assert!(c.total_count.votes.is_empty());
}

#[test]
fn a_short_row_leaves_later_units_without_that_vote() {
    let mut s = header("Europees Parlement 2019", "2019-05-23", "Gemeente Utrecht", "344");
    s.push_str("Lijstnummer;Aanduiding;Volgnummer;Naam kandidaat;Totaal;a;b\n");
    s.push_str("Gebiednummer;;;;;1;2\n");
    for label in STAT_LABELS.iter() {
        s.push_str(&format!(";{};;;0;0;0\n", label));
    }
    s.push_str("3;D66;;;9;4\n");
    let c = read(&s).unwrap();
    assert_eq!(c.total_count.votes, vec![vec![9]]);
    assert_eq!(c.report_unit[0].count.votes, vec![vec![4]]);
    assert_eq!(c.report_unit[1].count.votes, vec![Vec::<u32>::new()]);
    assert!(!osv2osv::has_complete_votes(&c));
}

fn header_error(name: &str, date: &str, area: &str, code: &str) -> ContestError {
    read(&(header(name, date, area, code) + &body(false))).err().unwrap()
}

#[test]
fn header_errors() {
    assert_eq!(header_error("Gemeenteraad 2018", "2018-03-21", "Gemeente Utrecht", "344"), ContestError::UnknownElection);
    assert_eq!(header_error("Algemeen bestuur van het schap Foo en Bar 2019", "2019-03-20", "Gemeente Utrecht", "344"), ContestError::UnknownWaterBoard);
    assert_eq!(header_error("Europees Parlement 2019", "32-13-2019", "Gemeente Utrecht", "344"), ContestError::CorruptDate);
    assert_eq!(header_error("Europees Parlement 2019", "2019-05-23", "Gemeente Utrecht", "12345"), ContestError::AreaCodeTooLong);
    assert_eq!(header_error("Europees Parlement 2019", "201", "Gemeente Utrecht", "344"), ContestError::BadSlice);
    let s = "Verkiezingen;;Europees Parlement 2019\n";
    assert_eq!(read(s).err(), Some(ContestError::UnexpectedRow(0)));
    let s2 = "Verkiezing;;Europees Parlement 2019\nDatum;;2019-05-23\n";
    assert_eq!(read(s2).err(), Some(ContestError::MissingRow));
}

#[test]
fn body_errors() {
    let h = header("Europees Parlement 2019", "2019-05-23", "Gemeente Utrecht", "344");
    let bad_number = h.clone() + &body(false).replace("Gebiednummer;;;;;2;1", "Gebiednummer;;;;;2;x");
    assert_eq!(read(&bad_number).err(), Some(ContestError::BadNumber(6)));
    let too_many = h.clone() + &body(false).replace("Gebiednummer;;;;;2;1", "Gebiednummer;;;;;2;1;3");
    assert_eq!(read(&too_many).err(), Some(ContestError::TooManyColumns(6)));
    let no_units = h.clone() + "Lijst;Aanduiding\n";
    assert_eq!(read(&no_units).err(), Some(ContestError::UnexpectedRow(5)));
    let candidate_first = h.clone() + &body(false).replace("1;CDA;;;30;20;10\n", "");
    assert_eq!(read(&candidate_first).err(), Some(ContestError::CandidateBeforeList(26)));
    let big_list = h.clone() + &body(false).replace("2;FNP", "256;FNP");
    assert_eq!(read(&big_list).err(), Some(ContestError::BadNumber(29)));
    let missing_stats = h + "Lijstnummer;Aanduiding;Volgnummer;Naam kandidaat;Totaal;a\nGebiednummer;;;;;1\n";
    assert_eq!(read(&missing_stats).err(), Some(ContestError::MissingRow));
}

#[test]
fn bytes_that_are_not_text_are_refused() {
    let bytes: Vec<u8> = vec![b'V', 0xff, 0xfe, b';', b';', b'x', b'\n'];
    assert_eq!(csv2contest(&bytes).err(), Some(ContestError::Csv));
}

#[test]
fn numbers_may_carry_a_plus() {
    let s = fryslan_export().replace("1;CDA;;;30;", "1;CDA;;;+30;");
    let c = read(&s).unwrap();
    assert_eq!(c.total_count.votes[0][0], 30);
}

#[test]
fn rows_already_split_read_the_same() {
    let text = fryslan_export();
    let rows: Vec<Vec<String>> = text
        .lines()
        .map(|l| l.split(';').map(|f| f.to_string()).collect())
        .collect();
    let a = contest_from_rows(&rows).unwrap();
    let b = read(&text).unwrap();
    assert_eq!(a.election_identifier_id, b.election_identifier_id);
    assert_eq!(a.total_count.votes, b.total_count.votes);
    assert_eq!(a.report_unit.len(), b.report_unit.len());
    assert_eq!(a.report_unit[0].name, "Sporthal");
    let short: Vec<Vec<String>> = rows[..3].to_vec();
    assert_eq!(contest_from_rows(&short).err(), Some(ContestError::MissingRow));
}

#[test]
fn day_first_dates_are_rewritten_by_the_calendar() {
    let leap = read(&(header("Europees Parlement 2020", "29-02-2020", "Gemeente Utrecht", "344") + &body(false))).unwrap();
    assert_eq!(leap.election_date, "2020-02-29");
    assert_eq!(leap.creation_date_time, "2020-02-29T12:34:56.789");
    assert_eq!(header_error("Europees Parlement 2019", "29-02-2019", "Gemeente Utrecht", "344"), ContestError::CorruptDate);
    let short = read(&(header("Europees Parlement 2019", "1-5-2019", "Gemeente Utrecht", "344") + &body(false)));
    // the third byte is no dash, so the date is kept as written
    assert_eq!(short.unwrap().election_date, "1-5-2019");
}
