//! Classification of whole messages from the raw header flag bytes, the
//! byte-order helper of the standard header, and the lookup tables that give
//! small integer codes their display names. Out-of-range codes map to the
//! empty name, never to an out-of-bounds access.

use vstd::prelude::*;

use crate::protocol::{
    dlt_get_msin_mstp, dlt_get_msin_mtin, dlt_is_htyp_ueh, dlt_is_htyp_weid, dlt_is_htyp_wsid,
    dlt_is_htyp_wtms, dlt_is_msin_verb, spec_is_htyp_ueh, spec_is_htyp_weid, spec_is_htyp_wsid,
    spec_is_htyp_wtms, spec_is_msin_verb, spec_msin_mstp, spec_msin_mtin, DLT_CONTROL_RESPONSE,
    DLT_HTYP_MSBF, DLT_TYPE_CONTROL,
};

verus! {

/// The size in bytes of a DLT identifier (ECU id, application id, context id).
pub const DLT_ID_SIZE: usize = 4;

/// The service id codes that have a name of their own; greater ids are
/// rendered as `service(<id>)`.
pub const DLT_SERVICE_ID_LAST_ENTRY: u8 = 0x15;

pub open spec fn spec_swap_32(x: u32) -> u32 {
    ((x >> 24) & 0xff) | ((x << 8) & 0xff0000) | ((x >> 8) & 0xff00) | ((x << 24) & 0xff000000)
}

fn dlt_swap_32(x: u32) -> (r: u32)
    ensures
        r == spec_swap_32(x),
{
    ((x >> 24) & 0xff) | ((x << 8) & 0xff0000) | ((x >> 8) & 0xff00) | ((x << 24) & 0xff000000)
}

fn dlt_betoh_32(x: u32) -> (r: u32)
    ensures
        r == spec_swap_32(x),
{
    dlt_swap_32(x)
}

fn dlt_letoh_32(x: u32) -> (r: u32)
    ensures
        r == x,
{
    x
}

pub open spec fn spec_endian_get_32(htyp: u32, x: u32) -> u32 {
    if htyp & (DLT_HTYP_MSBF as u32) > 0 {
        spec_swap_32(x)
    } else {
        x
    }
}

/// A 32-bit value as the standard header's byte-order flag asks it to be
/// read: byte-swapped when the most-significant-byte-first bit is set,
/// unchanged otherwise.
pub fn dlt_endian_get_32(htyp: u32, x: u32) -> (r: u32)
    ensures
        r == spec_endian_get_32(htyp, x),
{
    if htyp & (DLT_HTYP_MSBF as u32) > 0 {
        dlt_betoh_32(x)
    } else {
        dlt_letoh_32(x)
    }
}

pub open spec fn spec_extra_size(htyp: u8) -> int {
    (if spec_is_htyp_weid(htyp) {
        4int
    } else {
        0int
    }) + (if spec_is_htyp_wsid(htyp) {
        4int
    } else {
        0int
    }) + (if spec_is_htyp_wtms(htyp) {
        4int
    } else {
        0int
    })
}

/// How many bytes the extra header occupies, as the `htyp` flags declare it.
pub fn dlt_standard_header_extra_size(htyp: u8) -> (size: usize)
    ensures
        size == spec_extra_size(htyp),
        size <= 12,
{
    let mut size: usize = 0;
    if dlt_is_htyp_weid(htyp) {
        size += DLT_ID_SIZE;
    }
    if dlt_is_htyp_wsid(htyp) {
        size += 4;
    }
    if dlt_is_htyp_wtms(htyp) {
        size += 4;
    }
    size
}

pub open spec fn spec_is_control(htyp: u8, msin: u8) -> bool {
    spec_is_htyp_ueh(htyp) && spec_msin_mstp(msin) == DLT_TYPE_CONTROL
}

/// The message carries a DLT service request or response.
pub fn dlt_msg_is_control(htyp: u8, msin: u8) -> (r: bool)
    ensures
        r == spec_is_control(htyp, msin),
{
    dlt_is_htyp_ueh(htyp) && (dlt_get_msin_mstp(msin) == DLT_TYPE_CONTROL)
}

pub open spec fn spec_is_control_response(htyp: u8, msin: u8) -> bool {
    spec_is_control(htyp, msin) && spec_msin_mtin(msin) == DLT_CONTROL_RESPONSE
}

/// The message is the response half of a DLT service exchange.
pub fn dlt_msg_is_control_response(htyp: u8, msin: u8) -> (r: bool)
    ensures
        r == spec_is_control_response(htyp, msin),
{
    dlt_is_htyp_ueh(htyp) && (dlt_get_msin_mstp(msin) == DLT_TYPE_CONTROL) && (dlt_get_msin_mtin(
        msin,
    ) == DLT_CONTROL_RESPONSE)
}

pub open spec fn spec_is_nonverbose(htyp: u8, msin: u8) -> bool {
    !spec_is_htyp_ueh(htyp) || !spec_is_msin_verb(msin)
}

/// Non-verbose mode: no extended header, or one whose verbose bit is clear.
pub fn dlt_msg_is_nonverbose(htyp: u8, msin: u8) -> (r: bool)
    ensures
        r == spec_is_nonverbose(htyp, msin),
{
    !dlt_is_htyp_ueh(htyp) || (dlt_is_htyp_ueh(htyp) && !dlt_is_msin_verb(msin))
}

pub open spec fn spec_message_type_name(t: u8) -> Seq<char> {
    if t == 0 {
        "log"@
    } else if t == 1 {
        "app_trace"@
    } else if t == 2 {
        "nw_trace"@
    } else if t == 3 {
        "control"@
    } else {
        Seq::<char>::empty()
    }
}

/// Display name of a message type code; empty for codes without one.
pub fn message_type_name(t: u8) -> (r: &'static str)
    ensures
        r@ == spec_message_type_name(t),
{
    match t {
        0 => "log",
        1 => "app_trace",
        2 => "nw_trace",
        3 => "control",
        _ => {
            proof {
                reveal_strlit("");
            }
            ""
        },
    }
}

pub open spec fn spec_log_info_name(t: u8) -> Seq<char> {
    if t == 1 {
        "fatal"@
    } else if t == 2 {
        "error"@
    } else if t == 3 {
        "warn"@
    } else if t == 4 {
        "info"@
    } else if t == 5 {
        "debug"@
    } else if t == 6 {
        "verbose"@
    } else {
        Seq::<char>::empty()
    }
}

/// Display name of a log level code; empty for codes without one.
pub fn log_info_name(t: u8) -> (r: &'static str)
    ensures
        r@ == spec_log_info_name(t),
{
    match t {
        1 => "fatal",
        2 => "error",
        3 => "warn",
        4 => "info",
        5 => "debug",
        6 => "verbose",
        _ => {
            proof {
                reveal_strlit("");
            }
            ""
        },
    }
}

pub open spec fn spec_service_id_name(id: u32) -> Seq<char> {
    if id == 1 {
        "set_log_level"@
    } else if id == 2 {
        "set_trace_status"@
    } else if id == 3 {
        "get_log_info"@
    } else if id == 4 {
        "get_default_log_level"@
    } else if id == 5 {
        "store_config"@
    } else if id == 6 {
        "reset_to_factory_default"@
    } else if id == 7 {
        "set_com_interface_status"@
    } else if id == 8 {
        "set_com_interface_max_bandwidth"@
    } else if id == 9 {
        "set_verbose_mode"@
    } else if id == 10 {
        "set_message_filtering"@
    } else if id == 11 {
        "set_timing_packets"@
    } else if id == 12 {
        "get_local_time"@
    } else if id == 13 {
        "use_ecu_id"@
    } else if id == 14 {
        "use_session_id"@
    } else if id == 15 {
        "use_timestamp"@
    } else if id == 16 {
        "use_extended_header"@
    } else if id == 17 {
        "set_default_log_level"@
    } else if id == 18 {
        "set_default_trace_status"@
    } else if id == 19 {
        "get_software_version"@
    } else if id == 20 {
        "message_buffer_overflow"@
    } else {
        Seq::<char>::empty()
    }
}

/// Display name of a known service id (below `DLT_SERVICE_ID_LAST_ENTRY`);
/// empty for id 0 and for unknown ids.
pub fn service_id_name(id: u32) -> (r: &'static str)
    ensures
        r@ == spec_service_id_name(id),
{
    match id {
        1 => "set_log_level",
        2 => "set_trace_status",
        3 => "get_log_info",
        4 => "get_default_log_level",
        5 => "store_config",
        6 => "reset_to_factory_default",
        7 => "set_com_interface_status",
        8 => "set_com_interface_max_bandwidth",
        9 => "set_verbose_mode",
        10 => "set_message_filtering",
        11 => "set_timing_packets",
        12 => "get_local_time",
        13 => "use_ecu_id",
        14 => "use_session_id",
        15 => "use_timestamp",
        16 => "use_extended_header",
        17 => "set_default_log_level",
        18 => "set_default_trace_status",
        19 => "get_software_version",
        20 => "message_buffer_overflow",
        _ => {
            proof {
                reveal_strlit("");
            }
            ""
        },
    }
}

pub open spec fn spec_return_type_name(code: u8) -> Seq<char> {
    if code == 0 {
        "ok"@
    } else if code == 1 {
        "not_supported"@
    } else if code == 2 {
        "error"@
    } else if code == 3 {
        "perm_denied"@
    } else if code == 4 {
        "warning"@
    } else if code == 8 {
        "no_matching_context_id"@
    } else {
        Seq::<char>::empty()
    }
}

/// Display name of a control-response return code; empty for codes without
/// one, out-of-range codes included.
pub fn return_type_name(code: u8) -> (r: &'static str)
    ensures
        r@ == spec_return_type_name(code),
{
    match code {
        0 => "ok",
        1 => "not_supported",
        2 => "error",
        3 => "perm_denied",
        4 => "warning",
        8 => "no_matching_context_id",
        _ => {
            proof {
                reveal_strlit("");
            }
            ""
        },
    }
}

} // verus!
