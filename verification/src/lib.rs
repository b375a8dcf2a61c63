//! Converting the OSV count export of a Dutch election (a `;`-separated CSV file) back into
//! the EML_NL count document (XML) that it was made from.
pub mod contest_laws;
pub mod csv_input;
pub mod dates;
pub mod digest;
pub mod document_laws;
pub mod eml;
pub mod letters;
pub mod model;
pub mod osv;
pub mod search;
pub mod text;
pub mod xml_out;

pub use eml::{contest2eml, has_complete_votes};
pub use model::{Candidate, Contest, Count, List, ReportUnit};
pub use osv::{contest_from_rows, csv2contest, ContestError};
pub use search::{contest2eml_find_sha, FindShaError, ShaSearch};
pub use text::difference;
