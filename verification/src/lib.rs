//! Printable identification labels for inventory items and storage
//! locations: each label joins a few lines of text with a QR symbol, and the
//! labels are tiled in a grid over one or more pages.
//!
//! - `layout` plans a batch: page capacity, page count, and the page, row and
//!   column of every record.
//! - `qr` builds the symbol of a payload and scales it to a pixel square.
//! - `text` cuts and composes the lines of a label and lays out glyph runs.
//! - `canvas` is the raster page: rectangles, borders, symbols and ink.
//! - `raster` composes the single image page of a batch.
//! - `vector` composes the pages of a document as drawing operations.
//! - `encode` wraps a finished byte stream as a data URI.
//! - `fonts` picks the font to load; `record` and `models` hold the data;
//!   `inventory` and `sync` hold the rules of the store and of its
//!   synchronization targets.

pub mod canvas;
pub mod encode;
pub mod error;
pub mod fonts;
pub mod inventory;
pub mod layout;
pub mod models;
pub mod qr;
pub mod raster;
pub mod record;
pub mod sync;
pub mod text;
pub mod vector;
