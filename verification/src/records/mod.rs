//! Record layer: the shared record shapes, the helper value types records
//! use, and the concrete record types.
pub mod aact;
pub mod achr;
pub mod alch;
pub mod ammo;
pub mod anio;
pub mod arto;
pub mod astp;
pub mod avif;
pub mod book;
pub mod common;
pub mod formid;
pub mod full_string;
pub mod lstring;
pub mod null_terminated_string;
pub mod tes4;
pub mod version_control_info;
pub mod windows1252_string;
