use vstd::prelude::*;

pub mod text;
pub mod external;
pub mod numbers;
pub mod skd_values;
pub mod skd_fragments;
pub mod role;
pub mod skd_xml;
pub mod skd_edit;
pub mod skd_parameter;
pub mod skd_report;
pub mod xml;
pub mod findings;
pub mod metadata;
pub mod subsystem;
pub mod subsystem_info;
pub mod subsystem_edit;
pub mod role_rights;
pub mod role_check;
pub mod role_info;
pub mod mxl_check;
pub mod mxl_info;
pub mod mxl;
pub mod mxl_decompile;
pub mod mxl_read;
pub mod mxl_compile;
pub mod skd_apply;
pub mod skd_check;
pub mod skd_compile;
pub mod skd_info;
pub mod laws;

verus! {
}
