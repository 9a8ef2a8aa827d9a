//! Ingestion of device-telemetry logs: tagged markup in, typed records and an
//! Arrow record batch out.

pub mod arrow_batch;
pub mod assembler;
pub mod assembly_proofs;
pub mod batch;
pub mod decimal;
pub mod error;
pub mod hex_codec;
pub mod ingest;
pub mod markup;
pub mod record;
pub mod text;
