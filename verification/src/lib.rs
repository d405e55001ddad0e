//! Frequency models of text corpora for the analysis of keyboard layouts.
//!
//! A corpus comes as byte chunks. Each chunk is decoded and the windows of
//! five characters in it are counted ([`ngrams`], [`load_text`]); the counts
//! of all chunks are merged; and from the merged counts the model of the
//! language is derived under a translator ([`translation`], [`text_data`]):
//! six tables of weights, for characters, bigrams, trigrams and three kinds of
//! skipgrams, each ordered by descending weight. The relative frequency of an
//! entry is its weight over the total of its table.
//!
//! The tables are modelled as sequences of entries ([`table`]), the
//! derivation as functions on such sequences ([`model`]), and every
//! executable function states what it computes in those terms. What a single
//! quingram adds can also be had as a list ([`contributions`]). What holds of
//! counting, merging and deriving in general is proved in [`laws`],
//! [`order`] and [`chunking`].
//!
//! Beside the models stand the commands of the analyzer that serves them:
//! their names and texts ([`commands`], [`repl`]), the routing of requests
//! ([`messages`]) and how layouts and durations are written ([`tui`]).

pub mod chunking;
pub mod commands;
pub mod contributions;
pub mod count_table;
pub mod error;
pub mod laws;
pub mod load_text;
pub mod messages;
pub mod model;
pub mod ngrams;
pub mod tui;
pub mod repl;
pub mod order;
pub mod table;
pub mod text;
pub mod text_data;
pub mod translation;
pub mod words;
