//! Flag definitions of the standard header (`htyp`) and the extended header
//! (`msin`), with accessors that read single facts out of the raw flag bytes.
//! The raw byte stays the single source of truth; these functions only
//! interpret it.

use vstd::prelude::*;

verus! {

/// `htyp` bit: an extended header follows the standard header.
pub const DLT_HTYP_UEH: u8 = 0x01;

/// `htyp` bit: payload numeric fields are most-significant-byte first.
pub const DLT_HTYP_MSBF: u8 = 0x02;

/// `htyp` bit: the extra header carries an ECU id.
pub const DLT_HTYP_WEID: u8 = 0x04;

/// `htyp` bit: the extra header carries a session id.
pub const DLT_HTYP_WSID: u8 = 0x08;

/// `htyp` bit: the extra header carries a timestamp.
pub const DLT_HTYP_WTMS: u8 = 0x10;

/// `msin` bit: the payload is in verbose mode.
pub const DLT_MSIN_VERB: u8 = 0x01;

/// `msin` mask: message type.
pub const DLT_MSIN_MSTP: u8 = 0x0e;

/// `msin` mask: message type info.
pub const DLT_MSIN_MTIN: u8 = 0xf0;

/// Message type code of control messages.
pub const DLT_TYPE_CONTROL: u8 = 0x03;

/// Message type info code of a response to a control request.
pub const DLT_CONTROL_RESPONSE: u8 = 0x02;

/// Type-info mask: width of a standard number (1 = 8 bit up to 5 = 128 bit).
pub const DLT_TYPE_INFO_TYLE: u32 = 0x0000000f;

/// Type-info bit: boolean argument.
pub const DLT_TYPE_INFO_BOOL: u32 = 0x00000010;

/// Type-info bit: signed integer argument.
pub const DLT_TYPE_INFO_SINT: u32 = 0x00000020;

/// Type-info bit: unsigned integer argument.
pub const DLT_TYPE_INFO_UINT: u32 = 0x00000040;

/// Type-info bit: floating point argument.
pub const DLT_TYPE_INFO_FLOA: u32 = 0x00000080;

/// Type-info bit: string argument.
pub const DLT_TYPE_INFO_STRG: u32 = 0x00000200;

/// Type-info bit: raw data argument.
pub const DLT_TYPE_INFO_RAWD: u32 = 0x00000400;

/// Type-info bit: variable info attached (not supported).
pub const DLT_TYPE_INFO_VARI: u32 = 0x00000800;

/// Type-info bit: quantization and offset attached (not supported).
pub const DLT_TYPE_INFO_FIXP: u32 = 0x00001000;

/// Type-info mask: string coding (0 = ASCII, 1 = UTF-8).
pub const DLT_TYPE_INFO_SCOD: u32 = 0x00038000;

/// Width code of an 8-bit number.
pub const DLT_TYLE_8BIT: u32 = 0x00000001;

/// Width code of a 16-bit number.
pub const DLT_TYLE_16BIT: u32 = 0x00000002;

/// Width code of a 32-bit number.
pub const DLT_TYLE_32BIT: u32 = 0x00000003;

/// Width code of a 64-bit number.
pub const DLT_TYLE_64BIT: u32 = 0x00000004;

/// Width code of a 128-bit number.
pub const DLT_TYLE_128BIT: u32 = 0x00000005;

/// String coding: ASCII.
pub const DLT_SCOD_ASCII: u32 = 0x00000000;

/// String coding: UTF-8.
pub const DLT_SCOD_UTF8: u32 = 0x00008000;

pub open spec fn spec_is_htyp_ueh(htyp: u8) -> bool {
    htyp & DLT_HTYP_UEH != 0
}

pub open spec fn spec_is_htyp_weid(htyp: u8) -> bool {
    htyp & DLT_HTYP_WEID != 0
}

pub open spec fn spec_is_htyp_wsid(htyp: u8) -> bool {
    htyp & DLT_HTYP_WSID != 0
}

pub open spec fn spec_is_htyp_wtms(htyp: u8) -> bool {
    htyp & DLT_HTYP_WTMS != 0
}

pub open spec fn spec_is_msin_verb(msin: u8) -> bool {
    msin & DLT_MSIN_VERB != 0
}

pub open spec fn spec_msin_mstp(msin: u8) -> u8 {
    (msin & DLT_MSIN_MSTP) >> 1
}

pub open spec fn spec_msin_mtin(msin: u8) -> u8 {
    (msin & DLT_MSIN_MTIN) >> 4
}

pub fn dlt_is_htyp_ueh(htyp: u8) -> (r: bool)
    ensures
        r == spec_is_htyp_ueh(htyp),
{
    htyp & DLT_HTYP_UEH != 0
}

pub fn dlt_is_htyp_weid(htyp: u8) -> (r: bool)
    ensures
        r == spec_is_htyp_weid(htyp),
{
    htyp & DLT_HTYP_WEID != 0
}

pub fn dlt_is_htyp_wsid(htyp: u8) -> (r: bool)
    ensures
        r == spec_is_htyp_wsid(htyp),
{
    htyp & DLT_HTYP_WSID != 0
}

pub fn dlt_is_htyp_wtms(htyp: u8) -> (r: bool)
    ensures
        r == spec_is_htyp_wtms(htyp),
{
    htyp & DLT_HTYP_WTMS != 0
}

pub fn dlt_is_msin_verb(msin: u8) -> (r: bool)
    ensures
        r == spec_is_msin_verb(msin),
{
    msin & DLT_MSIN_VERB != 0
}

/// Message type: bits 1-3 of `msin`. Always below 8.
pub fn dlt_get_msin_mstp(msin: u8) -> (r: u8)
    ensures
        r == spec_msin_mstp(msin),
        r < 8,
{
    proof {
        assert((msin & 0x0eu8) >> 1u8 < 8) by (bit_vector);
    }
    (msin & DLT_MSIN_MSTP) >> 1
}

/// Message type info: bits 4-7 of `msin`. Always below 16.
pub fn dlt_get_msin_mtin(msin: u8) -> (r: u8)
    ensures
        r == spec_msin_mtin(msin),
        r < 16,
{
    proof {
        assert((msin & 0xf0u8) >> 4u8 < 16) by (bit_vector);
    }
    (msin & DLT_MSIN_MTIN) >> 4
}

} // verus!
