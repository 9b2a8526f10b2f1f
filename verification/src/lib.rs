//! Label printing core: barcode sequences, label layout, ZPL generation and
//! print-job bookkeeping, with contracts proved by Verus.

pub mod text;
pub mod errors;
pub mod sequence;
pub mod barcode;
pub mod printer_config;
pub mod print_job;
pub mod label_layout;
pub mod label_service;
pub mod zpl;
pub mod dto;
pub mod transport;
pub mod sequence_service;
pub mod use_cases;
pub mod workflow;
pub mod clock;
