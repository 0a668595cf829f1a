//! Reports on riglets and rigs: a metadata tree rendered as tree-drawing
//! characters, wrapped text and terminal emphasis, with every step of the
//! layout stated and proved.
//!
//! - `text`: wraps text to the width left after a prefix.
//! - `layout`: connectors and prefixes of the tree.
//! - `style`: terminal emphasis.
//! - `order`: the key order of siblings.
//! - `tree`: the metadata tree and its renderer.
//! - `types`: riglet and rig metadata, and how each is shown.
//! - `report`: reports over flake inputs and rig inspections.
//! - `config`: configuration values and options.
//! - `pager`: where a finished report goes.
//! - `flake`: flake references, system names and completions.
//! - `toc`: tables of contents of markdown texts.
//! - `laws`: properties of the renderer, proved.

pub mod config;
pub mod flake;
pub mod laws;
pub mod layout;
pub mod order;
pub mod pager;
pub mod report;
pub mod style;
pub mod text;
pub mod toc;
pub mod tree;
pub mod types;

pub use config::{config_leaf, format_value, same_value, ConfigOption, JsonValue};
pub use flake::{
    build_flake_ref, complete_flake_ref, flake_root_path, get_system, last_rig_or_default,
    parse_flake_ref, starts_with,
};
pub use laws::{
    lemma_descriptions_toggle, lemma_details_toggle, lemma_empty_group_silent,
    lemma_empty_sections_silent, lemma_insertion_order_irrelevant, lemma_siblings_sorted,
};
pub use layout::{branch_glyph, child_prefix, continuation, group_continuation, item_prefix};
pub use order::{key_lt, same_text, sorted_indices};
pub use pager::{choose_delivery, pager_command, Delivery};
pub use report::{
    display_riglet, render_inputs, render_inspection, render_report, rig_leaves, riglet_leaves,
};
pub use style::{emphasize, Emphasis, Ink};
pub use text::{join, prefix_segments, text_width, wrap_lines, wrap_with_prefix, MIN_TEXT_WIDTH};
pub use toc::{
    collect_headings, decimal_string, extract_toc, format_toc, offset_to_line_number, MdEvent,
    TocEntry,
};
pub use tree::{
    push_styled, render, render_lines, to_buffer, Badge, BlockView, DetailBlock, LeafRecord,
    LeafView, LineKind,
    MetadataNode, RenderOptions,
};
pub use types::{
    copy_texts, rig_leaf, riglet_leaf, sorted_name_list, InputData, RigMeta, RigletMeta,
};
