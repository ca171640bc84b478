//! A lightweight geospatial catalog engine: search, filter, sort and
//! paginate catalog entries, control a network listener's lifecycle, and
//! plan the cleanup of on-disk asset files after catalog deletions.
//!
//! The engine is pure: it works on plain values and decides; the
//! surrounding runtime fetches records, binds sockets and touches the
//! filesystem. The query pipeline lives in [`search`] and [`sorting`], over
//! the catalog model of [`item`], [`collection`] and their parts. The
//! listener state machine lives in [`listener`] and the asset cleanup
//! machinery in [`cleanup`]; [`handlers`] holds the decisions behind the
//! request handlers. Coordinates are fixed-point numbers in millionths of a
//! degree, and timestamps compare as instants through [`time`].

pub mod asset;
pub mod catalog;
pub mod cleanup;
pub mod collection;
pub mod config;
pub mod conformance;
pub mod geometry;
pub mod handlers;
pub mod item;
pub mod link;
pub mod listener;
pub mod numeral;
pub mod properties;
pub mod provider;
pub mod range;
pub mod search;
pub mod spatial_extent;
pub mod sorting;
pub mod strutil;
pub mod temporal_extent;
pub mod time;
pub mod urls;
