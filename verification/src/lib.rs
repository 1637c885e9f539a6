//! Knowledge import library: format detection, text extraction and the
//! records that importers build from documents, with their contracts.

pub mod text;
pub mod paths;
pub mod model;
pub mod importers;
pub mod calendar;
pub mod clock;
pub mod markup;
pub mod clipboard;
pub mod fuzzy;
pub mod magic;
pub mod hashing;
pub mod graph;
pub mod plugin;
pub mod table;
pub mod registry;
pub mod html;
pub mod url;
pub mod tabular;
pub mod xml;
pub mod notes;
pub mod mail;
pub mod history;
pub mod documents;
pub mod slides;
pub mod office;
pub mod pdf;
pub mod structured;
pub mod images;
pub mod database;
pub mod adapters;
pub mod conversation;
pub mod merges;
pub mod ignore_rules;
pub mod dynamic;
pub mod search_index;
