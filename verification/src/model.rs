//! The results of one count: a contest with its lists, candidates and reporting units.
use vstd::prelude::*;

verus! {

/// The tallies of one count, either the total of a contest or that of one reporting unit.
pub struct Count {
    pub cast: u32,
    pub geldige_stempas: u32,
    pub geldig_volmachtbewijs: u32,
    pub geldige_kiezerspas: u32,
    pub toegelaten_kiezers: u32,
    pub toegelaten_kiezers_briefstembureaus_gemeente: u32,
    pub geldige_stembiljetten: u32,
    pub blanco_stembiljetten: u32,
    pub ongeldige_stembiljetten: u32,
    pub aangetroffen_stembiljetten: u32,
    pub meer_stembiljetten_dan_toegelaten_kiezers: u32,
    pub minder_stembiljetten_dan_toegelaten_kiezers: u32,
    pub kiezers_met_stembiljet_hebben_niet_gestemd: u32,
    pub er_zijn_te_weinig_stembiljetten_uitgereikt: u32,
    pub er_zijn_te_veel_stembiljetten_uitgereikt: u32,
    pub geen_stembiljet_in_enveloppe_briefstembureaus: u32,
    pub meer_stembiljetten_in_een_enveloppe_briefstembureaus: u32,
    pub geen_verklaring: u32,
    pub andere_verklaring: u32,
    /// `votes[i][0]` is the vote for list `i` as a whole, `votes[i][j + 1]` that for its
    /// candidate `j`.
    pub votes: Vec<Vec<u32>>,
}

/// A count as mathematical values: its tallies in the order of the fields of `Count`, and
/// its votes.
#[verifier::ext_equal]
pub struct CountView {
    pub stats: Seq<u32>,
    pub votes: Seq<Seq<u32>>,
}

impl View for Count {
    type V = CountView;

    open spec fn view(&self) -> CountView {
        CountView {
            stats: seq![
                self.cast,
                self.geldige_stempas,
                self.geldig_volmachtbewijs,
                self.geldige_kiezerspas,
                self.toegelaten_kiezers,
                self.toegelaten_kiezers_briefstembureaus_gemeente,
                self.geldige_stembiljetten,
                self.blanco_stembiljetten,
                self.ongeldige_stembiljetten,
                self.aangetroffen_stembiljetten,
                self.meer_stembiljetten_dan_toegelaten_kiezers,
                self.minder_stembiljetten_dan_toegelaten_kiezers,
                self.kiezers_met_stembiljet_hebben_niet_gestemd,
                self.er_zijn_te_weinig_stembiljetten_uitgereikt,
                self.er_zijn_te_veel_stembiljetten_uitgereikt,
                self.geen_stembiljet_in_enveloppe_briefstembureaus,
                self.meer_stembiljetten_in_een_enveloppe_briefstembureaus,
                self.geen_verklaring,
                self.andere_verklaring,
            ],
            votes: self.votes@.map_values(|v: Vec<u32>| v@),
        }
    }
}

/// A count with every tally zero and no votes.
pub open spec fn zero_count() -> CountView {
    CountView { stats: Seq::new(19, |i: int| 0u32), votes: Seq::empty() }
}

impl Count {
    /// A count with every tally zero and no votes.
    pub fn zero() -> (c: Count)
        ensures
            c@ == zero_count(),
    {
        let c = Count {
            cast: 0,
            geldige_stempas: 0,
            geldig_volmachtbewijs: 0,
            geldige_kiezerspas: 0,
            toegelaten_kiezers: 0,
            toegelaten_kiezers_briefstembureaus_gemeente: 0,
            geldige_stembiljetten: 0,
            blanco_stembiljetten: 0,
            ongeldige_stembiljetten: 0,
            aangetroffen_stembiljetten: 0,
            meer_stembiljetten_dan_toegelaten_kiezers: 0,
            minder_stembiljetten_dan_toegelaten_kiezers: 0,
            kiezers_met_stembiljet_hebben_niet_gestemd: 0,
            er_zijn_te_weinig_stembiljetten_uitgereikt: 0,
            er_zijn_te_veel_stembiljetten_uitgereikt: 0,
            geen_stembiljet_in_enveloppe_briefstembureaus: 0,
            meer_stembiljetten_in_een_enveloppe_briefstembureaus: 0,
            geen_verklaring: 0,
            andere_verklaring: 0,
            votes: Vec::new(),
        };
        assert(c@.stats =~= zero_count().stats);
        assert(c@.votes =~= zero_count().votes);
        c
    }

    /// The tally with index `k`, in the order of the fields.
    pub fn stat(&self, k: usize) -> (v: u32)
        requires
            k < 19,
        ensures
            v == self@.stats[k as int],
    {
        match k {
            0 => self.cast,
            1 => self.geldige_stempas,
            2 => self.geldig_volmachtbewijs,
            3 => self.geldige_kiezerspas,
            4 => self.toegelaten_kiezers,
            5 => self.toegelaten_kiezers_briefstembureaus_gemeente,
            6 => self.geldige_stembiljetten,
            7 => self.blanco_stembiljetten,
            8 => self.ongeldige_stembiljetten,
            9 => self.aangetroffen_stembiljetten,
            10 => self.meer_stembiljetten_dan_toegelaten_kiezers,
            11 => self.minder_stembiljetten_dan_toegelaten_kiezers,
            12 => self.kiezers_met_stembiljet_hebben_niet_gestemd,
            13 => self.er_zijn_te_weinig_stembiljetten_uitgereikt,
            14 => self.er_zijn_te_veel_stembiljetten_uitgereikt,
            15 => self.geen_stembiljet_in_enveloppe_briefstembureaus,
            16 => self.meer_stembiljetten_in_een_enveloppe_briefstembureaus,
            17 => self.geen_verklaring,
            _ => self.andere_verklaring,
        }
    }

    /// Sets the tally with index `k`, in the order of the fields.
    pub fn set_stat(&mut self, k: usize, v: u32)
        requires
            k < 19,
        ensures
            final(self)@.stats == old(self)@.stats.update(k as int, v),
            final(self)@.votes == old(self)@.votes,
    {
        match k {
            0 => self.cast = v,
            1 => self.geldige_stempas = v,
            2 => self.geldig_volmachtbewijs = v,
            3 => self.geldige_kiezerspas = v,
            4 => self.toegelaten_kiezers = v,
            5 => self.toegelaten_kiezers_briefstembureaus_gemeente = v,
            6 => self.geldige_stembiljetten = v,
            7 => self.blanco_stembiljetten = v,
            8 => self.ongeldige_stembiljetten = v,
            9 => self.aangetroffen_stembiljetten = v,
            10 => self.meer_stembiljetten_dan_toegelaten_kiezers = v,
            11 => self.minder_stembiljetten_dan_toegelaten_kiezers = v,
            12 => self.kiezers_met_stembiljet_hebben_niet_gestemd = v,
            13 => self.er_zijn_te_weinig_stembiljetten_uitgereikt = v,
            14 => self.er_zijn_te_veel_stembiljetten_uitgereikt = v,
            15 => self.geen_stembiljet_in_enveloppe_briefstembureaus = v,
            16 => self.meer_stembiljetten_in_een_enveloppe_briefstembureaus = v,
            17 => self.geen_verklaring = v,
            _ => self.andere_verklaring = v,
        }
        assert(self@.stats =~= old(self)@.stats.update(k as int, v));
    }
}

/// A candidate on a list.
pub struct Candidate {
    pub number: u8,
    pub name: String,
}

#[verifier::ext_equal]
pub struct CandidateView {
    pub number: u8,
    pub name: Seq<char>,
}

impl View for Candidate {
    type V = CandidateView;

    open spec fn view(&self) -> CandidateView {
        CandidateView { number: self.number, name: self.name@ }
    }
}

/// A list (party) with its candidates.
pub struct List {
    pub number: u8,
    pub name: String,
    pub candidates: Vec<Candidate>,
}

#[verifier::ext_equal]
pub struct ListView {
    pub number: u8,
    pub name: Seq<char>,
    pub candidates: Seq<CandidateView>,
}

impl View for List {
    type V = ListView;

    open spec fn view(&self) -> ListView {
        ListView {
            number: self.number,
            name: self.name@,
            candidates: self.candidates@.map_values(|c: Candidate| c@),
        }
    }
}

/// A reporting unit (polling station) with its own count.
pub struct ReportUnit {
    pub name: String,
    pub area_number: u32,
    pub zipcode: Option<String>,
    pub count: Count,
}

#[verifier::ext_equal]
pub struct ReportUnitView {
    pub name: Seq<char>,
    pub area_number: u32,
    pub zipcode: Option<Seq<char>>,
    pub count: CountView,
}

pub open spec fn opt_view(s: Option<String>) -> Option<Seq<char>> {
    match s {
        Some(t) => Some(t@),
        None => None,
    }
}

impl View for ReportUnit {
    type V = ReportUnitView;

    open spec fn view(&self) -> ReportUnitView {
        ReportUnitView {
            name: self.name@,
            area_number: self.area_number,
            zipcode: opt_view(self.zipcode),
            count: self.count@,
        }
    }
}

/// One contest: which election, which area, and the counts of the area and of its units.
pub struct Contest {
    pub election_identifier_name: String,
    pub election_date: String,
    pub area_name: String,
    pub area_name_short: String,
    pub area_code: String,
    pub election_category: String,
    pub election_subcategory: String,
    pub election_domain: Option<String>,
    pub election_identifier_id: String,
    pub creation_date_time: String,
    pub contest_id: String,
    pub contest_name: String,
    pub total_count: Count,
    pub report_unit: Vec<ReportUnit>,
    pub lists: Vec<List>,
}

#[verifier::ext_equal]
pub struct ContestView {
    pub election_identifier_name: Seq<char>,
    pub election_date: Seq<char>,
    pub area_name: Seq<char>,
    pub area_name_short: Seq<char>,
    pub area_code: Seq<char>,
    pub election_category: Seq<char>,
    pub election_subcategory: Seq<char>,
    pub election_domain: Option<Seq<char>>,
    pub election_identifier_id: Seq<char>,
    pub creation_date_time: Seq<char>,
    pub contest_id: Seq<char>,
    pub contest_name: Seq<char>,
    pub total_count: CountView,
    pub report_unit: Seq<ReportUnitView>,
    pub lists: Seq<ListView>,
}

impl View for Contest {
    type V = ContestView;

    open spec fn view(&self) -> ContestView {
        ContestView {
            election_identifier_name: self.election_identifier_name@,
            election_date: self.election_date@,
            area_name: self.area_name@,
            area_name_short: self.area_name_short@,
            area_code: self.area_code@,
            election_category: self.election_category@,
            election_subcategory: self.election_subcategory@,
            election_domain: opt_view(self.election_domain),
            election_identifier_id: self.election_identifier_id@,
            creation_date_time: self.creation_date_time@,
            contest_id: self.contest_id@,
            contest_name: self.contest_name@,
            total_count: self.total_count@,
            report_unit: self.report_unit@.map_values(|u: ReportUnit| u@),
            lists: self.lists@.map_values(|l: List| l@),
        }
    }
}

} // verus!
