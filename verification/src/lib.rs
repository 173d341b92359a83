//! Domain-candidate generation and bounded-batch resolution bookkeeping.
//!
//! The library turns raw name fragments into fully-qualified domain names
//! under a configured top-level domain, validates them against a fixed
//! syntax rule, plans the fixed-size batches in which they are looked up,
//! aggregates the per-domain outcomes in input order, and renders the
//! finished result set as a pretty-printed JSON document.  The actual DNS
//! lookups are performed by a driver outside the library, which hands the
//! outcomes back as plain booleans.

use vstd::prelude::*;

mod domain;
mod generator;
mod json;
mod resolver;
mod validate;

pub use domain::Domain;
pub use domain::DomainNames;
pub use domain::DomainView;
pub use resolver::AsyncDomainResolver;
pub use resolver::lemma_batch_partition;
pub use resolver::lemma_finished_run_covers_all;
pub use resolver::lemma_run_matches_input_lines;
pub use resolver::spec_batch;
pub use resolver::spec_num_batches;
pub use generator::DomainGenerator;
pub use generator::lemma_generation_filters;
pub use generator::lemma_minimum_fragment_accepted;
pub use generator::lemma_single_char_fragment_rejected;
pub use generator::spec_domain_of;
pub use generator::spec_generate_domains;
pub use generator::spec_keeps_line;
pub use generator::spec_line_to_domain;
pub use json::json_document;
pub use json::spec_escape;
pub use json::spec_escape_char;
pub use json::spec_json_document;
pub use json::spec_json_entries;
pub use json::spec_json_entry;
pub use validate::is_alnum_char;
pub use validate::is_alpha_char;
pub use validate::is_label_char;
pub use validate::lemma_validation_deterministic;
pub use validate::spec_valid_domain;
pub use validate::spec_valid_split;
pub use validate::valid_domain_str;

verus! {

} // verus!
