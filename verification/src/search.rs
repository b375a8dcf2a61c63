//! Searching the creation time of a published count by its SHA-256 hash.
use crate::digest::{self, sha256_input_str, sha256_new, sha256_result_str};
use crate::eml::{self, contest2eml};
use crate::model::{self, Contest};
use crate::text::{self, chars_of, concat, difference, owned, str_eq, string_push, zero_padded_string};
use vstd::prelude::*;

verus! {

/// Whether `p` occurs in `s` at position `i`.
pub open spec fn occurs_at(s: Seq<char>, p: Seq<char>, i: int) -> bool {
    0 <= i && i + p.len() <= s.len() && s.subrange(i, i + p.len()) == p
}

/// The first position from `from` on at which `p` occurs in `s`.
pub open spec fn find_from(s: Seq<char>, p: Seq<char>, from: int) -> Option<int>
    decreases s.len() + 1 - from,
{
    if from < 0 || from + p.len() > s.len() {
        None
    } else if occurs_at(s, p, from) {
        Some(from)
    } else {
        find_from(s, p, from + 1)
    }
}

/// The first two pieces of `s.split(p)`: the text before the first occurrence of `p`, and,
/// if `p` occurs, the text from there up to its next occurrence (or the end).
pub open spec fn split_two(s: Seq<char>, p: Seq<char>) -> (Seq<char>, Option<Seq<char>>) {
    match find_from(s, p, 0) {
        None => (s, None),
        Some(i) => (
            s.take(i),
            Some(
                match find_from(s, p, i + p.len()) {
                    None => s.subrange(i + p.len(), s.len() as int),
                    Some(j) => s.subrange(i + p.len(), j),
                },
            ),
        ),
    }
}

/// The version text that the document carries in its head comment (`eml::creator_comment`).
pub open spec fn version_marker() -> Seq<char> {
    "version: 2.23.6"@
}

/// The creation time tried as attempt `k` (0 to 1999): the given date prefix, minute 39,
/// second 48 or 49 and a millisecond, as `{date}{:02}:{:02}.{:03}`.
pub open spec fn stamp(date: Seq<char>, k: int) -> Seq<char> {
    date + text::zero_padded(39, 2) + ":"@ + text::zero_padded((48 + k / 1000) as nat, 2) + "."@
        + text::zero_padded((k % 1000) as nat, 3)
}

/// The pieces of a document around its version and creation time.
pub struct Pieces {
    pub first: Seq<char>,
    pub middle: Seq<char>,
    pub last: Seq<char>,
}

/// The document cut at the version text and then at the creation time; `None` where either
/// is missing.
pub open spec fn pieces(doc: Seq<char>, creation: Seq<char>) -> Option<Pieces> {
    let (first, rest) = split_two(doc, version_marker());
    match rest {
        None => None,
        Some(r) => {
            let (middle, tail) = split_two(r, creation);
            match tail {
                None => None,
                Some(last) => Some(Pieces { first: first, middle: middle, last: last }),
            }
        },
    }
}

/// The hexadecimal hash of attempt `k`: the document with the version replaced by `version`
/// and the creation time by `stamp(date, k)`.
pub open spec fn attempt_hex(p: Pieces, version: Seq<char>, date: Seq<char>, k: int) -> Seq<char> {
    digest::sha256_hex(
        vstd::utf8::encode_utf8(p.first) + vstd::utf8::encode_utf8(version) + vstd::utf8::encode_utf8(
            p.middle,
        ) + vstd::utf8::encode_utf8(stamp(date, k)) + vstd::utf8::encode_utf8(p.last),
    )
}

/// A hash that counts as found: the one sought, or one that differs from it in fewer than 20
/// positions.
pub open spec fn hits(hex: Seq<char>, hashcode: Seq<char>) -> bool {
    hex == hashcode || text::mismatches(hex, hashcode) < 20
}

/// Whether attempt `k` with `version` counts as found.
pub open spec fn is_hit(p: Pieces, version: Seq<char>, date: Seq<char>, hashcode: Seq<char>, k: int) -> bool {
    hits(attempt_hex(p, version, date, k), hashcode)
}

/// The first attempt, as its round `v` (which tries `versions[v]`) and time `k` (below 2000),
/// from round `v` time `k` on, in order of rounds and then times, that counts as found.
pub open spec fn first_hit_from(
    p: Pieces,
    versions: Seq<Seq<char>>,
    date: Seq<char>,
    hashcode: Seq<char>,
    v: int,
    k: int,
) -> Option<(int, int)>
    decreases versions.len() - v, 2000 - k,
{
    if v < 0 || v >= versions.len() || k < 0 {
        None
    } else if k >= 2000 {
        first_hit_from(p, versions, date, hashcode, v + 1, 0)
    } else if is_hit(p, versions[v], date, hashcode, k) {
        Some((v, k))
    } else {
        first_hit_from(p, versions, date, hashcode, v, k + 1)
    }
}

/// Why a creation time could not be searched.
#[derive(Debug, Clone, Copy, PartialEq, Eq, Structural)]
pub enum FindShaError {
    /// The document does not hold the version text. (Its head comment always carries it, so a
    /// document that `contest2eml` writes holds it.)
    NoVersion,
    /// After the version, the document does not hold the creation time.
    NoCreationTime,
    /// No date to search was given.
    NoDate,
}

/// The outcome of a search: the document, each attempt as its creation time and hash, and,
/// where an attempt was found, how many characters its hash differs from the one sought
/// (the found attempt is then the last).
pub struct ShaSearch {
    pub eml: String,
    pub attempts: Vec<(String, String)>,
    pub found: Option<u8>,
}

/// The first `k` attempts of a round with `version`: each time tried, and its hash.
pub open spec fn round_attempts(p: Pieces, version: Seq<char>, date: Seq<char>, k: int) -> Seq<(Seq<char>, Seq<char>)> {
    Seq::new(k as nat, |t: int| (stamp(date, t), attempt_hex(p, version, date, t)))
}

/// The attempts of the first `v` rounds, all 2000 times of each, round `r` with `versions[r]`.
pub open spec fn rounds_attempts(p: Pieces, versions: Seq<Seq<char>>, date: Seq<char>, v: int) -> Seq<(Seq<char>, Seq<char>)>
    decreases v,
{
    if v <= 0 {
        Seq::empty()
    } else {
        rounds_attempts(p, versions, date, v - 1) + round_attempts(p, versions[v - 1], date, 2000)
    }
}

/// The attempts made and the outcome of a search: one round per given version, trying the
/// 2000 times with that version, until the first attempt found, which ends the list.
pub open spec fn search_outcome(
    p: Pieces,
    versions: Seq<Seq<char>>,
    date: Seq<char>,
    hashcode: Seq<char>,
) -> (Seq<(Seq<char>, Seq<char>)>, Option<u8>) {
    match first_hit_from(p, versions, date, hashcode, 0, 0) {
        Some((v, k)) => (
            rounds_attempts(p, versions, date, v) + round_attempts(p, versions[v], date, k + 1),
            Some(text::mismatches(attempt_hex(p, versions[v], date, k), hashcode) as u8),
        ),
        None => (rounds_attempts(p, versions, date, versions.len() as int), None),
    }
}

pub open spec fn strings_view(v: Seq<String>) -> Seq<Seq<char>> {
    v.map_values(|s: String| s@)
}

pub open spec fn attempts_view(v: Seq<(String, String)>) -> Seq<(Seq<char>, Seq<char>)> {
    v.map_values(|a: (String, String)| (a.0@, a.1@))
}

/// What `contest2eml_find_sha` comes to for a contest's document: an error, or the attempts
/// and outcome of the search.
pub open spec fn find_sha_outcome(
    doc: Seq<char>,
    creation: Seq<char>,
    hashcode: Seq<char>,
    versions: Seq<Seq<char>>,
    dates: Option<Seq<char>>,
) -> Result<(Seq<(Seq<char>, Seq<char>)>, Option<u8>), FindShaError> {
    let (first, rest) = split_two(doc, version_marker());
    match rest {
        None => Err(FindShaError::NoVersion),
        Some(r) => match split_two(r, creation).1 {
            None => Err(FindShaError::NoCreationTime),
            Some(_) => match dates {
                None => Err(FindShaError::NoDate),
                Some(d) => Ok(search_outcome(pieces(doc, creation).unwrap(), versions, d, hashcode)),
            },
        },
    }
}


// ---------------------------------------------------------------------------
// Cutting the document.
// ---------------------------------------------------------------------------

fn occurs_at_exec(s: &Vec<char>, p: &Vec<char>, i: usize) -> (b: bool)
    ensures
        b == occurs_at(s@, p@, i as int),
{
    if i > s.len() || p.len() > s.len() - i {
        return false;
    }
    let end = i + p.len();
    let mut j: usize = 0;
    while j < p.len()
        invariant
            end == i + p@.len(),
            end <= s@.len(),
            j <= p@.len(),
            forall|x: int| 0 <= x < j ==> s@[i + x] == p@[x],
        decreases p@.len() - j,
    {
        let at = i + j;
        if s[at] != p[j] {
            assert(s@.subrange(i as int, i + p@.len())[j as int] != p@[j as int]);
            return false;
        }
        j = j + 1;
    }
    assert(s@.subrange(i as int, i + p@.len()) =~= p@);
    true
}

fn find_from_exec(s: &Vec<char>, p: &Vec<char>, from: usize) -> (r: Option<usize>)
    ensures
        r is None <==> find_from(s@, p@, from as int) is None,
        r matches Some(i) ==> find_from(s@, p@, from as int) == Some(i as int) && from <= i
            && occurs_at(s@, p@, i as int),
{
    let mut i = from;
    while i < s.len() && p.len() <= s.len() - i
        invariant
            from <= i,
            i > s@.len() ==> i == from,
            find_from(s@, p@, i as int) == find_from(s@, p@, from as int),
        decreases s@.len() - i,
    {
        if occurs_at_exec(s, p, i) {
            return Some(i);
        }
        i = i + 1;
    }
    if i <= s.len() && p.len() <= s.len() - i && occurs_at_exec(s, p, i) {
        return Some(i);
    }
    proof {
        if i <= s@.len() && p@.len() <= s@.len() - i {
            assert(find_from(s@, p@, i + 1) is None);
        }
    }
    None
}

fn sub_chars(s: &Vec<char>, from: usize, to: usize) -> (r: Vec<char>)
    requires
        from <= to <= s@.len(),
    ensures
        r@ == s@.subrange(from as int, to as int),
{
    let mut r: Vec<char> = Vec::new();
    let mut i = from;
    while i < to
        invariant
            from <= i <= to <= s@.len(),
            r@ == s@.subrange(from as int, i as int),
        decreases to - i,
    {
        r.push(s[i]);
        i = i + 1;
        assert(r@ =~= s@.subrange(from as int, i as int));
    }
    r
}

fn string_of(s: &Vec<char>) -> (r: String)
    ensures
        r@ == s@,
{
    let mut r = String::new();
    let mut i: usize = 0;
    while i < s.len()
        invariant
            i <= s@.len(),
            r@ == s@.take(i as int),
        decreases s@.len() - i,
    {
        string_push(&mut r, s[i]);
        i = i + 1;
        assert(r@ =~= s@.take(i as int));
    }
    assert(s@.take(i as int) =~= s@);
    r
}

proof fn lemma_find_from_bounds(s: Seq<char>, p: Seq<char>, from: int)
    ensures
        find_from(s, p, from) matches Some(j) ==> from <= j && occurs_at(s, p, j),
    decreases s.len() + 1 - from,
{
    if from < 0 || from + p.len() > s.len() {
    } else if occurs_at(s, p, from) {
    } else {
        lemma_find_from_bounds(s, p, from + 1);
    }
}

fn split_two_exec(s: &Vec<char>, p: &Vec<char>) -> (r: (Vec<char>, Option<Vec<char>>))
    ensures
        r.0@ == split_two(s@, p@).0,
        match split_two(s@, p@).1 {
            Some(t) => r.1 matches Some(v) && v@ == t,
            None => r.1 is None,
        },
{
    match find_from_exec(s, p, 0) {
        None => {
            let all = sub_chars(s, 0, s.len());
            assert(all@ =~= s@);
            (all, None)
        },
        Some(i) => {
            let first = sub_chars(s, 0, i);
            let sl = s.len();
            let start = i + p.len();
            let second = match find_from_exec(s, p, start) {
                None => sub_chars(s, start, s.len()),
                Some(j) => sub_chars(s, start, j),
            };
            (first, Some(second))
        },
    }
}

// ---------------------------------------------------------------------------
// The search.
// ---------------------------------------------------------------------------

fn stamp_string(date: &str, k: u32) -> (r: String)
    requires
        k < 2000,
    ensures
        r@ == stamp(date@, k as int),
{
    let mut r = concat(date, zero_padded_string(39, 2).as_str());
    r.append(":");
    r.append(zero_padded_string(48 + k / 1000, 2).as_str());
    r.append(".");
    r.append(zero_padded_string(k % 1000, 3).as_str());
    r
}

fn attempt_hash(first: &str, version: &str, middle: &str, time: &str, last: &str) -> (hex: String)
    ensures
        hex@ == digest::sha256_hex(
            vstd::utf8::encode_utf8(first@) + vstd::utf8::encode_utf8(version@)
                + vstd::utf8::encode_utf8(middle@) + vstd::utf8::encode_utf8(time@)
                + vstd::utf8::encode_utf8(last@),
        ),
        hex@.len() == 64,
{
    let mut h = sha256_new();
    sha256_input_str(&mut h, first);
    sha256_input_str(&mut h, version);
    sha256_input_str(&mut h, middle);
    sha256_input_str(&mut h, time);
    sha256_input_str(&mut h, last);
    assert(Seq::<u8>::empty() + vstd::utf8::encode_utf8(first@) =~= vstd::utf8::encode_utf8(first@));
    sha256_result_str(&mut h)
}

/// Writes the contest as an EML document (as `contest2eml`) and searches the version and
/// creation time under which the document's SHA-256 hash is `hashcode`. The document is cut
/// at its version text and at its creation time; then each given version is tried in turn,
/// and with it the times `{date}39:48.000` to `{date}39:49.999`, each attempt hashing the
/// document with that version and time in place, until a hash equals `hashcode` or differs
/// from it in fewer than 20 characters.
///
/// Where the search cannot run the result is an error, not a panic: `NoVersion` where the
/// document does not hold the version text, `NoCreationTime` where the creation time does
/// not follow it (before the version text's next occurrence), `NoDate` where no date is
/// given.
pub fn contest2eml_find_sha(
    contest: &Contest,
    hashcode: String,
    optversions: Vec<String>,
    optdates: Option<String>,
) -> (res: Result<ShaSearch, FindShaError>)
    requires
        eml::complete_votes(contest@),
    ensures
        match find_sha_outcome(
            eml::eml_text(contest@),
            contest@.election_date + "T12:34:56.789"@,
            hashcode@,
            strings_view(optversions@),
            model::opt_view(optdates),
        ) {
            Err(e) => res == Err::<ShaSearch, FindShaError>(e),
            Ok((attempts, found)) => res matches Ok(r) && r.eml@ == eml::eml_text(contest@)
                && attempts_view(r.attempts@) == attempts && r.found == found,
        },
{
    let eml = contest2eml(contest);
    let doc = chars_of(eml.as_str());
    let marker = chars_of("version: 2.23.6");
    let (first, rest) = split_two_exec(&doc, &marker);
    let rest = match rest {
        Some(r) => r,
        None => return Err(FindShaError::NoVersion),
    };
    let creation = concat(contest.election_date.as_str(), "T12:34:56.789");
    let creation_chars = chars_of(creation.as_str());
    let (middle, tail) = split_two_exec(&rest, &creation_chars);
    let last = match tail {
        Some(t) => t,
        None => return Err(FindShaError::NoCreationTime),
    };
    let date = match optdates {
        Some(d) => d,
        None => return Err(FindShaError::NoDate),
    };
    let first = string_of(&first);
    let middle = string_of(&middle);
    let last = string_of(&last);
    let ghost pc = Pieces { first: first@, middle: middle@, last: last@ };
    assert(pieces(eml::eml_text(contest@), contest@.election_date + "T12:34:56.789"@) == Some(pc));
    let ghost outcome = search_outcome(pc, strings_view(optversions@), date@, hashcode@);
    assert(find_sha_outcome(
        eml::eml_text(contest@),
        contest@.election_date + "T12:34:56.789"@,
        hashcode@,
        strings_view(optversions@),
        model::opt_view(optdates),
    ) == Ok::<(Seq<(Seq<char>, Seq<char>)>, Option<u8>), FindShaError>(outcome));
    let mut attempts: Vec<(String, String)> = Vec::new();
    let ghost vs = strings_view(optversions@);
    let n = optversions.len();
    let mut v: usize = 0;
    assert(attempts_view(attempts@) =~= rounds_attempts(pc, vs, date@, 0));
    while v < n
        invariant
            n == optversions@.len(),
            vs == strings_view(optversions@),
            outcome == search_outcome(pc, vs, date@, hashcode@),
            find_sha_outcome(
                eml::eml_text(contest@),
                contest@.election_date + "T12:34:56.789"@,
                hashcode@,
                strings_view(optversions@),
                model::opt_view(optdates),
            ) == Ok::<(Seq<(Seq<char>, Seq<char>)>, Option<u8>), FindShaError>(outcome),
            eml@ == eml::eml_text(contest@),
            pc == (Pieces { first: first@, middle: middle@, last: last@ }),
            v <= n,
            attempts_view(attempts@) == rounds_attempts(pc, vs, date@, v as int),
            first_hit_from(pc, vs, date@, hashcode@, 0, 0) == first_hit_from(pc, vs, date@, hashcode@, v as int, 0),
        decreases n - v,
    {
        let mut k: u32 = 0;
        assert(round_attempts(pc, vs[v as int], date@, 0) =~= Seq::<(Seq<char>, Seq<char>)>::empty());
        assert(attempts_view(attempts@) =~= rounds_attempts(pc, vs, date@, v as int) + round_attempts(pc, vs[v as int], date@, 0));
        while k < 2000
            invariant
                n == optversions@.len(),
                vs == strings_view(optversions@),
                outcome == search_outcome(pc, vs, date@, hashcode@),
                find_sha_outcome(
                    eml::eml_text(contest@),
                    contest@.election_date + "T12:34:56.789"@,
                    hashcode@,
                    strings_view(optversions@),
                    model::opt_view(optdates),
                ) == Ok::<(Seq<(Seq<char>, Seq<char>)>, Option<u8>), FindShaError>(outcome),
                eml@ == eml::eml_text(contest@),
                pc == (Pieces { first: first@, middle: middle@, last: last@ }),
                v < n,
                k <= 2000,
                attempts_view(attempts@) == rounds_attempts(pc, vs, date@, v as int) + round_attempts(
                    pc,
                    vs[v as int],
                    date@,
                    k as int,
                ),
                first_hit_from(pc, vs, date@, hashcode@, 0, 0) == first_hit_from(pc, vs, date@, hashcode@, v as int, k as int),
            decreases 2000 - k,
        {
            let time = stamp_string(date.as_str(), k);
            let hex = attempt_hash(
                first.as_str(),
                optversions[v].as_str(),
                middle.as_str(),
                time.as_str(),
                last.as_str(),
            );
            proof {
                text::lemma_difference_laws(hex@, hashcode@);
                assert(vs[v as int] == optversions@[v as int]@);
                assert(hex@ == attempt_hex(pc, vs[v as int], date@, k as int));
            }
            let d = difference(hex.as_str(), hashcode.as_str());
            let hit = str_eq(hex.as_str(), hashcode.as_str()) || d < 20;
            assert(hit == is_hit(pc, vs[v as int], date@, hashcode@, k as int));
            let ghost before = attempts_view(attempts@);
            let ghost tv = time@;
            let ghost hv = hex@;
            attempts.push((time, hex));
            proof {
                assert(attempts_view(attempts@) =~= before.push((tv, hv)));
                assert(round_attempts(pc, vs[v as int], date@, k + 1) =~= round_attempts(
                    pc,
                    vs[v as int],
                    date@,
                    k as int,
                ).push((stamp(date@, k as int), attempt_hex(pc, vs[v as int], date@, k as int))));
                assert(attempts_view(attempts@) =~= rounds_attempts(pc, vs, date@, v as int) + round_attempts(
                    pc,
                    vs[v as int],
                    date@,
                    k + 1,
                ));
            }
            if hit {
                return Ok(ShaSearch { eml: eml, attempts: attempts, found: Some(d) });
            }
            k = k + 1;
        }
        assert(rounds_attempts(pc, vs, date@, v + 1) == rounds_attempts(pc, vs, date@, v as int) + round_attempts(
            pc,
            vs[v as int],
            date@,
            2000,
        ));
        v = v + 1;
    }
    Ok(ShaSearch { eml: eml, attempts: attempts, found: None })
}


// ---------------------------------------------------------------------------
// Laws.
// ---------------------------------------------------------------------------

proof fn lemma_rounds_attempts(p: Pieces, versions: Seq<Seq<char>>, date: Seq<char>, v: int)
    requires
        0 <= v,
    ensures
        rounds_attempts(p, versions, date, v).len() == 2000 * v,
        forall|i: int|
            0 <= i < 2000 * v ==> #[trigger] rounds_attempts(p, versions, date, v)[i] == (
                stamp(date, i % 2000),
                attempt_hex(p, versions[i / 2000], date, i % 2000),
            ),
    decreases v,
{
    if v > 0 {
        lemma_rounds_attempts(p, versions, date, v - 1);
        let a = rounds_attempts(p, versions, date, v - 1);
        let b = round_attempts(p, versions[v - 1], date, 2000);
        assert forall|i: int| 0 <= i < 2000 * v implies #[trigger] rounds_attempts(p, versions, date, v)[i] == (
            stamp(date, i % 2000),
            attempt_hex(p, versions[i / 2000], date, i % 2000),
        ) by {
            if i >= 2000 * (v - 1) {
                let t = i - 2000 * (v - 1);
                assert(i / 2000 == v - 1 && i % 2000 == t) by (nonlinear_arith)
                    requires
                        t == i - 2000 * (v - 1),
                        0 <= t < 2000,
                ;
                assert((a + b)[i] == b[t]);
            } else {
                assert((a + b)[i] == a[i]);
            }
        }
    }
}

/// Round `r` time `t` comes before round `v` time `k`.
pub open spec fn attempt_before(r: int, t: int, v: int, k: int) -> bool {
    r < v || (r == v && t < k)
}

proof fn lemma_first_hit_from(p: Pieces, versions: Seq<Seq<char>>, date: Seq<char>, hashcode: Seq<char>, v: int, k: int)
    requires
        0 <= v,
        0 <= k <= 2000,
    ensures
        first_hit_from(p, versions, date, hashcode, v, k) matches Some((v1, k1)) ==> {
            &&& v <= v1 < versions.len()
            &&& 0 <= k1 < 2000
            &&& !attempt_before(v1, k1, v, k)
            &&& is_hit(p, versions[v1], date, hashcode, k1)
            &&& forall|r: int, t: int|
                0 <= t < 2000 && !attempt_before(r, t, v, k) && attempt_before(r, t, v1, k1)
                    ==> !#[trigger] is_hit(p, versions[r], date, hashcode, t)
        },
        first_hit_from(p, versions, date, hashcode, v, k) is None ==> forall|r: int, t: int|
            0 <= t < 2000 && !attempt_before(r, t, v, k) && r < versions.len()
                ==> !#[trigger] is_hit(p, versions[r], date, hashcode, t),
    decreases versions.len() - v, 2000 - k,
{
    if v < versions.len() {
        if k >= 2000 {
            lemma_first_hit_from(p, versions, date, hashcode, v + 1, 0);
        } else if !is_hit(p, versions[v], date, hashcode, k) {
            lemma_first_hit_from(p, versions, date, hashcode, v, k + 1);
        }
    }
}

/// A search tries the given versions in turn, each with the 2000 times in order: attempt
/// `i` hashes the document with version `versions[i / 2000]` and time `stamp(date, i % 2000)`.
/// It stops at the first attempt whose hash is the one sought or differs from it in fewer
/// than 20 characters: that attempt is the last one listed, `found` is its number of
/// differing characters, and every attempt before it missed. A search that finds nothing
/// lists 2000 attempts per version, all of which missed.
pub proof fn lemma_search_tries_each_version(
    p: Pieces,
    versions: Seq<Seq<char>>,
    date: Seq<char>,
    hashcode: Seq<char>,
)
    ensures
        ({
            let (attempts, found) = search_outcome(p, versions, date, hashcode);
            &&& forall|i: int|
                0 <= i < attempts.len() ==> #[trigger] attempts[i] == (
                    stamp(date, i % 2000),
                    attempt_hex(p, versions[i / 2000], date, i % 2000),
                )
            &&& found matches Some(d) ==> {
                &&& attempts.len() > 0
                &&& (attempts.last().1 == hashcode || text::mismatches(attempts.last().1, hashcode) < 20)
                &&& d == text::mismatches(attempts.last().1, hashcode)
                &&& forall|i: int|
                    0 <= i < attempts.len() - 1 ==> #[trigger] attempts[i].1 != hashcode && text::mismatches(
                        attempts[i].1,
                        hashcode,
                    ) >= 20
            }
            &&& found is None ==> {
                &&& attempts.len() == 2000 * versions.len()
                &&& forall|i: int|
                    0 <= i < attempts.len() ==> #[trigger] attempts[i].1 != hashcode && text::mismatches(
                        attempts[i].1,
                        hashcode,
                    ) >= 20
            }
        }),
{
    lemma_first_hit_from(p, versions, date, hashcode, 0, 0);
    let (attempts, found) = search_outcome(p, versions, date, hashcode);
    match first_hit_from(p, versions, date, hashcode, 0, 0) {
        Some((v1, k1)) => {
            lemma_rounds_attempts(p, versions, date, v1);
            let a = rounds_attempts(p, versions, date, v1);
            let b = round_attempts(p, versions[v1], date, k1 + 1);
            assert(attempts == a + b);
            assert forall|i: int| 0 <= i < attempts.len() implies #[trigger] attempts[i] == (
                stamp(date, i % 2000),
                attempt_hex(p, versions[i / 2000], date, i % 2000),
            ) && (i < attempts.len() - 1 ==> attempt_before(i / 2000, i % 2000, v1, k1))
                && 0 <= i % 2000 < 2000 && 0 <= i / 2000 by {
                if i >= 2000 * v1 {
                    let t = i - 2000 * v1;
                    assert(i / 2000 == v1 && i % 2000 == t) by (nonlinear_arith)
                        requires
                            t == i - 2000 * v1,
                            0 <= t < 2000,
                    ;
                    assert((a + b)[i] == b[t]);
                } else {
                    assert((a + b)[i] == a[i]);
                    assert(i / 2000 < v1 && 0 <= i % 2000 < 2000 && 0 <= i / 2000) by (nonlinear_arith)
                        requires
                            0 <= i < 2000 * v1,
                    ;
                }
            }
            let hex = attempt_hex(p, versions[v1], date, k1);
            assert(attempts.last() == b[k1]);
            if hex == hashcode {
                text::lemma_difference_laws(hex, hashcode);
            }
            assert forall|i: int| 0 <= i < attempts.len() - 1 implies #[trigger] attempts[i].1 != hashcode && text::mismatches(attempts[i].1, hashcode) >= 20 by {
                assert(attempts[i].1 == attempt_hex(p, versions[i / 2000], date, i % 2000));
                assert(!is_hit(p, versions[i / 2000], date, hashcode, i % 2000));
            }
        },
        None => {
            lemma_rounds_attempts(p, versions, date, versions.len() as int);
            assert forall|i: int| 0 <= i < attempts.len() implies #[trigger] attempts[i].1 != hashcode && text::mismatches(attempts[i].1, hashcode) >= 20 by {
                assert(i / 2000 < versions.len() && 0 <= i % 2000 < 2000 && 0 <= i / 2000) by (nonlinear_arith)
                    requires
                        0 <= i < 2000 * versions.len(),
                ;
                assert(attempts[i].1 == attempt_hex(p, versions[i / 2000], date, i % 2000));
                assert(!is_hit(p, versions[i / 2000], date, hashcode, i % 2000));
            }
        },
    }
}

/// Every time tried is the date, then minute `39`, a colon, the second (48 or 49) in two
/// digits, a dot and the millisecond in exactly three digits: attempt `k` reads back as
/// second `48 + k / 1000` and millisecond `k % 1000`.
pub proof fn lemma_stamp_layout(date: Seq<char>, k: int)
    requires
        0 <= k < 2000,
    ensures
        ({
            let s = stamp(date, k);
            let n = date.len() as int;
            &&& s.len() == n + 9
            &&& s.subrange(0, n) == date
            &&& text::parse_unsigned(s.subrange(n, n + 2), 99) == Some(39nat)
            &&& s[n + 2] == ':'
            &&& text::parse_unsigned(s.subrange(n + 3, n + 5), 99) == Some((48 + k / 1000) as nat)
            &&& s[n + 5] == '.'
            &&& text::parse_unsigned(s.subrange(n + 6, n + 9), 999) == Some((k % 1000) as nat)
        }),
{
    reveal_strlit(":");
    reveal_strlit(".");
    let m = text::zero_padded(39, 2);
    let sec = text::zero_padded((48 + k / 1000) as nat, 2);
    let ms = text::zero_padded((k % 1000) as nat, 3);
    text::lemma_zero_padded_reads_back(39, 2);
    text::lemma_zero_padded_reads_back((48 + k / 1000) as nat, 2);
    text::lemma_zero_padded_reads_back((k % 1000) as nat, 3);
    let s = stamp(date, k);
    let n = date.len() as int;
    assert(s == date + m + ":"@ + sec + "."@ + ms);
    assert(s.subrange(0, n) =~= date);
    assert(s.subrange(n, n + 2) =~= m);
    assert(s.subrange(n + 3, n + 5) =~= sec);
    assert(s.subrange(n + 6, n + 9) =~= ms);
    assert(text::unsigned_digits(m) == m);
    assert(text::unsigned_digits(sec) == sec);
    assert(text::unsigned_digits(ms) == ms);
}

} // verus!
