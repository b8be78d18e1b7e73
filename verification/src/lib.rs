//! Splits a Tacview flight recording into one recording per coalition.
//!
//! A recording is a sequence of text lines: a header, then a body of timestamps, telemetry,
//! destruction records and global records. Every body line is labelled with the coalition it
//! belongs to, and each coalition's output holds the header, the lines of that coalition and the
//! lines that concern everybody.

pub mod constants;
pub mod outputs;
pub mod processor;
pub mod reader;
pub mod scan;
pub mod selection;
pub mod tacview;
pub mod text;
pub mod writer;
