//! The database of creators, posts, apps and jobs.

pub mod apps;
pub mod change_laws;
pub mod claim_laws;
pub mod creator_lists;
pub mod creators;
pub mod filter_laws;
pub mod filters;
pub mod frontier;
pub mod frontier_laws;
pub mod frontier_lists;
pub mod items;
pub mod job_list_laws;
pub mod joins;
pub mod kept_laws;
pub mod known_list_laws;
pub mod list_laws;
pub mod listing;
pub mod outcomes;
pub mod queue;
pub mod record;
pub mod record_laws;
pub mod row_laws;
pub mod rows;
pub mod sources;
pub mod table;
