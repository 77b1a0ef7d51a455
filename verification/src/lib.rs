pub mod error;
pub mod text;
pub mod time;
pub mod sql;
pub mod record;
pub mod fields;
pub mod reader;
pub mod toc;
pub mod tile;
pub mod index;
pub mod element;
pub mod import_rows;
pub mod import;
pub mod join;
pub mod export;
pub mod bbox;
pub mod db;
pub mod roundtrip;
