use crypto::digest::Digest;
use crypto::sha2::Sha256;
use osv2osv::{contest2eml, contest2eml_find_sha, Candidate, Contest, Count, FindShaError, List, ReportUnit};

fn count(base: u32, votes: Vec<Vec<u32>>) -> Count {
    let mut c = Count::zero();
    for k in 0..19usize {
        c.set_stat(k, base + k as u32);
    }
    c.votes = votes;
    c
}

fn contest(short_name: &str, contest_name: &str) -> Contest {
    Contest {
        election_identifier_name: "Europees Parlement 2019".to_string(),
        election_date: "2019-05-23".to_string(),
        area_name: "Gemeente Utrecht".to_string(),
        area_name_short: short_name.to_string(),
        area_code: "0344".to_string(),
        election_category: "EP".to_string(),
        election_subcategory: "EP".to_string(),
        election_domain: None,
        election_identifier_id: "EP2019".to_string(),
        creation_date_time: "2019-05-23T12:34:56.789".to_string(),
        contest_id: "alle".to_string(),
        contest_name: contest_name.to_string(),
        total_count: count(10, vec![vec![3, 2]]),
        report_unit: vec![ReportUnit {
            name: "Stadhuis".to_string(),
            area_number: 4,
            zipcode: None,
            count: count(5, vec![vec![1, 1]]),
        }],
        lists: vec![List {
            number: 2,
            name: "VVD".to_string(),
            candidates: vec![Candidate { number: 1, name: "Rutte, M.".to_string() }],
        }],
    }
}

/// The hash of the document with the version text replaced by `version` and the creation
/// time by `time`, cut as the search cuts it.
fn hash_of(eml: &str, version: &str, time: &str) -> String {
    let mut parts = eml.split("version: 2.23.6");
    let first = parts.next().unwrap();
    let rest = parts.next().unwrap();
    let mut parts2 = rest.split("2019-05-23T12:34:56.789");
    let middle = parts2.next().unwrap();
    let last = parts2.next().unwrap();
    let mut h = Sha256::new();
    h.input_str(first);
    h.input_str(version);
    h.input_str(middle);
    h.input_str(time);
    h.input_str(last);
    h.result_str()
}

#[test]
fn the_creation_time_must_follow_the_version_text() {
    // the area name repeats the version text before the creation time, which cuts it off
    let c = contest("version: 2.23.6", "");
    let r = contest2eml_find_sha(&c, "0".repeat(64), vec!["v".to_string()], Some("2019-05-23T23:".to_string()));
    assert_eq!(r.err(), Some(FindShaError::NoCreationTime));
}

#[test]
fn a_date_to_search_must_be_given() {
    let c = contest("Utrecht", "");
    let r = contest2eml_find_sha(&c, "0".repeat(64), vec!["v".to_string()], None);
    assert_eq!(r.err(), Some(FindShaError::NoDate));
}

#[test]
fn tries_every_millisecond_of_two_seconds_per_version() {
    let c = contest("Utrecht", "");
    let versions = vec!["version: 2.23.6".to_string(), "version: 2.24.3".to_string()];
    let r = contest2eml_find_sha(&c, "0".repeat(64), versions, Some("2019-05-23T23:".to_string())).unwrap();
    assert_eq!(r.eml, contest2eml(&c));
    assert_eq!(r.found, None);
    assert_eq!(r.attempts.len(), 4000);
    assert_eq!(r.attempts[0].0, "2019-05-23T23:39:48.000");
    assert_eq!(r.attempts[7].0, "2019-05-23T23:39:48.007");
    assert_eq!(r.attempts[1999].0, "2019-05-23T23:39:49.999");
    assert_eq!(r.attempts[2000].0, r.attempts[0].0);
    assert_eq!(r.attempts[0].1, hash_of(&r.eml, "version: 2.23.6", "2019-05-23T23:39:48.000"));
    assert_eq!(r.attempts[2000].1, hash_of(&r.eml, "version: 2.24.3", "2019-05-23T23:39:48.000"));
    assert_ne!(r.attempts[2000].1, r.attempts[0].1);
    assert_eq!(r.attempts[0].1.len(), 64);
}

#[test]
fn stops_at_the_hash_sought() {
    let c = contest("Utrecht", "");
    let eml = contest2eml(&c);
    let target = hash_of(&eml, "version: 2.23.6", "2019-05-23T23:39:49.005");
    let r = contest2eml_find_sha(&c, target.clone(), vec!["version: 2.23.6".to_string()], Some("2019-05-23T23:".to_string())).unwrap();
    assert_eq!(r.found, Some(0));
    assert_eq!(r.attempts.len(), 1006);
    assert_eq!(r.attempts[1005], ("2019-05-23T23:39:49.005".to_string(), target));
}

#[test]
fn a_hash_close_enough_counts_as_found() {
    let c = contest("Utrecht", "");
    let eml = contest2eml(&c);
    let exact = hash_of(&eml, "version: 2.23.6", "2019-05-23T23:39:48.003");
    let mut near: Vec<char> = exact.chars().collect();
    for i in 0..3 {
        near[i] = if near[i] == 'f' { '0' } else { 'f' };
    }
    let near: String = near.into_iter().collect();
    let r = contest2eml_find_sha(&c, near, vec!["version: 2.23.6".to_string()], Some("2019-05-23T23:".to_string())).unwrap();
    assert_eq!(r.found, Some(3));
    assert_eq!(r.attempts.len(), 4);
    assert_eq!(r.attempts[3].1, exact);
}

#[test]
fn no_versions_no_attempts() {
    let c = contest("Utrecht", "");
    let r = contest2eml_find_sha(&c, "0".repeat(64), vec![], Some("d".to_string())).unwrap();
    assert!(r.attempts.is_empty());
    assert_eq!(r.found, None);
}

#[test]
fn finds_a_hash_made_with_a_later_version() {
    let c = contest("Utrecht", "");
    let eml = contest2eml(&c);
    let target = hash_of(&eml, "version: 2.24.3", "2019-05-23T23:39:48.002");
    let versions = vec!["version: 2.23.6".to_string(), "version: 2.24.3".to_string()];
    let r = contest2eml_find_sha(&c, target.clone(), versions, Some("2019-05-23T23:".to_string())).unwrap();
    assert_eq!(r.found, Some(0));
    assert_eq!(r.attempts.len(), 2003);
    assert_eq!(r.attempts[2002], ("2019-05-23T23:39:48.002".to_string(), target));
}
