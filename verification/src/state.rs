//! What the application holds between requests: the last search with the
//! rows that show it, the files of the mods that were looked at, and the
//! settings.

use std::collections::HashMap;
use vstd::prelude::*;
use crate::config::DivaConfig;
use crate::gamebanana::preview_rows;
use crate::gamebanana::show_all;
use crate::gamebanana::GBSearch;
use crate::gamebanana::GbModDownload;
use crate::gamebanana::GbPreviewData;
use crate::gamebanana::GbSearchResults;

verus! {

/// The application's state.
#[derive(Clone, Debug)]
pub struct DivaData {
    /// The records of the last search, page after page.
    pub search_results: Vec<GBSearch>,
    /// The rows that show `search_results`, one for each record.
    pub rows: Vec<GbPreviewData>,
    /// How many mods the last search found in all.
    pub n_results: i32,
    pub diva_directory: String,
    /// The files of the mods that were looked at, by the mod's identifier.
    pub mod_files: HashMap<u64, Vec<GbModDownload>>,
    pub config: DivaConfig,
}

impl DivaData {
    /// Whether each record of the last search has its row.
    pub open spec fn wf(&self) -> bool {
        self.rows@.len() == self.search_results@.len()
    }

    /// The state of an application that has searched for nothing yet.
    pub fn new() -> (out: Self)
        ensures
            out.wf(),
            out.search_results@.len() == 0,
            out.rows@.len() == 0,
            out.n_results == 0,
            out.diva_directory@.len() == 0,
            out.mod_files@ == Map::<u64, Vec<GbModDownload>>::empty(),
            out.config.first_run,
            out.config.priority@.len() == 0,
    {
        DivaData {
            search_results: Vec::new(),
            rows: Vec::new(),
            n_results: 0,
            diva_directory: String::new(),
            mod_files: HashMap::new(),
            config: DivaConfig::new(),
        }
    }

    /// Takes in page `page` of a search's answer. The first page replaces
    /// what was held and brings the count of all results; any other page
    /// goes behind what is held, which stays as it is. The records keep the
    /// order in which the service sent them and none is dropped, also where
    /// identifiers repeat; each gets a fresh row.
    pub fn show_page(&mut self, page: i32, results: GbSearchResults)
        ensures
            old(self).wf() || page == 1 ==> final(self).wf(),
            final(self).search_results@ == if page == 1 {
                results.records@
            } else {
                old(self).search_results@ + results.records@
            },
            page == 1 ==> show_all(final(self).rows@, results.records@),
            page != 1 ==> final(self).rows@.len() == old(self).rows@.len() + results.records@.len(),
            page != 1 ==> final(self).rows@.subrange(0, old(self).rows@.len() as int) == old(
                self,
            ).rows@,
            page != 1 ==> show_all(
                final(self).rows@.subrange(
                    old(self).rows@.len() as int,
                    final(self).rows@.len() as int,
                ),
                results.records@,
            ),
            final(self).n_results == if page == 1 {
                results.metadata.record_count
            } else {
                old(self).n_results
            },
            final(self).diva_directory == old(self).diva_directory,
            final(self).mod_files == old(self).mod_files,
            final(self).config == old(self).config,
    {
        let mut fresh = preview_rows(&results.records);
        let mut records = results.records;
        if page == 1 {
            self.rows = fresh;
            self.search_results = records;
            self.n_results = results.metadata.record_count;
        } else {
            let ghost held = self.rows@;
            let ghost made = fresh@;
            self.rows.append(&mut fresh);
            self.search_results.append(&mut records);
            assert(self.rows@.subrange(0, held.len() as int) =~= held);
            assert(self.rows@.subrange(held.len() as int, self.rows@.len() as int) =~= made);
        }
    }
}

} // verus!
