//! Importing a music library from a TuneMyMusic CSV export.

#![allow(unused_imports)]

pub mod batch;
pub mod csv;
pub mod csv_laws;
pub mod lookup;
pub mod page;
pub mod playlist;
pub mod scan;
pub mod score;
pub mod search;
pub mod text;
pub mod text_laws;
pub mod track;
pub mod track_laws;
