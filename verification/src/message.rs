//! Decoding of a single message window: the bytes from one marker up to the
//! next marker (or the end of the file). A window splits into storage,
//! standard, extra and extended header fields followed by the payload, which
//! renders to text in non-verbose or verbose mode.
//!
//! Floating point arguments cannot be rendered here; the decoder hands their
//! raw bits out as payload pieces of their own, to be given text by the
//! caller.

use vstd::prelude::*;
use vstd::string::StringExecFns;

use crate::common::{
    message_type_name, log_info_name, return_type_name, service_id_name, dlt_msg_is_control,
    dlt_msg_is_control_response, dlt_msg_is_nonverbose, spec_is_control,
    spec_is_control_response, spec_is_nonverbose, spec_log_info_name, spec_message_type_name,
    spec_return_type_name, spec_service_id_name, DLT_SERVICE_ID_LAST_ENTRY,
};
use crate::protocol::{
    dlt_get_msin_mstp, dlt_get_msin_mtin, dlt_is_htyp_ueh, dlt_is_htyp_weid, dlt_is_htyp_wsid,
    dlt_is_htyp_wtms, spec_is_htyp_ueh, spec_is_htyp_weid, spec_is_htyp_wsid, spec_is_htyp_wtms,
    spec_msin_mstp, spec_msin_mtin, DLT_SCOD_ASCII, DLT_SCOD_UTF8, DLT_TYLE_128BIT,
    DLT_TYLE_16BIT, DLT_TYLE_32BIT, DLT_TYLE_64BIT, DLT_TYLE_8BIT, DLT_TYPE_INFO_BOOL,
    DLT_TYPE_INFO_FIXP, DLT_TYPE_INFO_FLOA, DLT_TYPE_INFO_RAWD, DLT_TYPE_INFO_SCOD,
    DLT_TYPE_INFO_SINT, DLT_TYPE_INFO_STRG, DLT_TYPE_INFO_TYLE, DLT_TYPE_INFO_UINT,
    DLT_TYPE_INFO_VARI,
};
use crate::render::{
    dec_u128, push_hex_join, push_hex_trail, push_signed, spec_dec, spec_hex_join,
    spec_hex_trail, spec_int_str, utf8_lossy, utf8_lossy_of,
};
use crate::wire::{
    i32_from_bits, read_u128_at, read_u16_at, read_u32_at, read_u64_at, spec_i32_v, spec_u128_at,
    spec_u16_at, spec_u32_at, spec_u64_at, subvec,
};

verus! {

/// Why a message failed to decode: its window ended before a declared field,
/// or it used an encoding the format gives no rendering for (variable info,
/// fixed point, unknown type or width combinations).
#[derive(Debug, Clone, Copy)]
pub enum ErrorKind {
    Truncated,
    Unsupported,
}

/// One rendered piece of a payload: text, or the raw bits of a float
/// argument still in need of text.
pub enum Piece {
    Text(String),
    Single(u32),
    Double(u64),
}

/// The mathematical value of a payload piece.
pub enum PieceV {
    TextV(Seq<char>),
    SingleV(u32),
    DoubleV(u64),
}

impl View for Piece {
    type V = PieceV;

    open spec fn view(&self) -> PieceV {
        match self {
            Piece::Text(t) => PieceV::TextV(t@),
            Piece::Single(b) => PieceV::SingleV(*b),
            Piece::Double(b) => PieceV::DoubleV(*b),
        }
    }
}

/// The values of a sequence of payload pieces.
pub open spec fn pieces_view(ps: Seq<Piece>) -> Seq<PieceV> {
    ps.map_values(|p: Piece| p@)
}

/// The decoded fields of one message, as mathematical values.
pub struct RecordV {
    pub seconds: u32,
    pub microseconds: int,
    pub ecu: Seq<char>,
    pub htyp: u8,
    pub mcnt: u8,
    pub dlen: u16,
    pub seid: u32,
    pub tmsp: u32,
    pub msin: u8,
    pub noar: u8,
    pub apid: Seq<char>,
    pub ctid: Seq<char>,
    pub message_type: Seq<char>,
    pub log_info: Seq<char>,
    pub service_id_name: Seq<char>,
    pub return_type: Seq<char>,
    pub pieces: Seq<PieceV>,
}

/// The decoded fields of one message.
pub struct Record {
    pub seconds: u32,
    pub microseconds: i32,
    pub ecu: String,
    pub htyp: u8,
    pub mcnt: u8,
    pub dlen: u16,
    pub seid: u32,
    pub tmsp: u32,
    pub msin: u8,
    pub noar: u8,
    pub apid: String,
    pub ctid: String,
    pub message_type: String,
    pub log_info: String,
    pub service_id_name: String,
    pub return_type: String,
    pub pieces: Vec<Piece>,
}

impl View for Record {
    type V = RecordV;

    open spec fn view(&self) -> RecordV {
        RecordV {
            seconds: self.seconds,
            microseconds: self.microseconds as int,
            ecu: self.ecu@,
            htyp: self.htyp,
            mcnt: self.mcnt,
            dlen: self.dlen,
            seid: self.seid,
            tmsp: self.tmsp,
            msin: self.msin,
            noar: self.noar,
            apid: self.apid@,
            ctid: self.ctid@,
            message_type: self.message_type@,
            log_info: self.log_info@,
            service_id_name: self.service_id_name@,
            return_type: self.return_type@,
            pieces: pieces_view(self.pieces@),
        }
    }
}

/// The signed or unsigned reading of a value of a given width, where `half`
/// and `full` are two to the width minus one and two to the width.
pub open spec fn spec_num_v(u: int, half: int, full: int, signed: bool) -> int {
    if signed && u >= half {
        u - full
    } else {
        u
    }
}

/// Decodes one verbose argument from the front of `s`: the 4-byte type info,
/// then the argument bytes it declares. Yields the argument's piece and the
/// bytes that follow it.
pub open spec fn spec_decode_one_arg(s: Seq<u8>) -> Result<(PieceV, Seq<u8>), ErrorKind> {
    if s.len() < 4 {
        Err(ErrorKind::Truncated)
    } else {
        let ti = spec_u32_at(s, 0);
        if ti & DLT_TYPE_INFO_VARI != 0 || ti & DLT_TYPE_INFO_FIXP != 0 {
            Err(ErrorKind::Unsupported)
        } else if ti & DLT_TYPE_INFO_STRG != 0 && (ti & DLT_TYPE_INFO_SCOD == DLT_SCOD_ASCII || ti
            & DLT_TYPE_INFO_SCOD == DLT_SCOD_UTF8) {
            if s.len() < 6 {
                Err(ErrorKind::Truncated)
            } else {
                let l = spec_u16_at(s, 4) as int;
                if s.len() < 6 + l {
                    Err(ErrorKind::Truncated)
                } else {
                    Ok((PieceV::TextV(utf8_lossy_of(s.subrange(6, 6 + l))), s.skip(6 + l)))
                }
            }
        } else if ti & DLT_TYPE_INFO_BOOL != 0 {
            if s.len() < 5 {
                Err(ErrorKind::Truncated)
            } else {
                Ok(
                    (
                        PieceV::TextV(
                            if s[4] != 0 {
                                "true"@
                            } else {
                                "false"@
                            },
                        ),
                        s.skip(5),
                    ),
                )
            }
        } else if ti & DLT_TYPE_INFO_SINT != 0 || ti & DLT_TYPE_INFO_UINT != 0 {
            let signed = ti & DLT_TYPE_INFO_SINT != 0;
            let tyle = ti & DLT_TYPE_INFO_TYLE;
            if tyle == DLT_TYLE_8BIT {
                if s.len() < 5 {
                    Err(ErrorKind::Truncated)
                } else {
                    Ok(
                        (
                            PieceV::TextV(
                                spec_int_str(spec_num_v(s[4] as int, 0x80, 0x100, signed)),
                            ),
                            s.skip(5),
                        ),
                    )
                }
            } else if tyle == DLT_TYLE_16BIT {
                if s.len() < 6 {
                    Err(ErrorKind::Truncated)
                } else {
                    Ok(
                        (
                            PieceV::TextV(
                                spec_int_str(
                                    spec_num_v(spec_u16_at(s, 4) as int, 0x8000, 0x10000, signed),
                                ),
                            ),
                            s.skip(6),
                        ),
                    )
                }
            } else if tyle == DLT_TYLE_32BIT {
                if s.len() < 8 {
                    Err(ErrorKind::Truncated)
                } else {
                    Ok(
                        (
                            PieceV::TextV(
                                spec_int_str(
                                    spec_num_v(
                                        spec_u32_at(s, 4) as int,
                                        0x80000000,
                                        0x100000000,
                                        signed,
                                    ),
                                ),
                            ),
                            s.skip(8),
                        ),
                    )
                }
            } else if tyle == DLT_TYLE_64BIT {
                if s.len() < 12 {
                    Err(ErrorKind::Truncated)
                } else {
                    Ok(
                        (
                            PieceV::TextV(
                                spec_int_str(
                                    spec_num_v(
                                        spec_u64_at(s, 4) as int,
                                        0x8000000000000000,
                                        0x10000000000000000,
                                        signed,
                                    ),
                                ),
                            ),
                            s.skip(12),
                        ),
                    )
                }
            } else if tyle == DLT_TYLE_128BIT {
                if s.len() < 20 {
                    Err(ErrorKind::Truncated)
                } else {
                    Ok(
                        (
                            PieceV::TextV(
                                spec_int_str(
                                    spec_num_v(
                                        spec_u128_at(s, 4) as int,
                                        0x80000000000000000000000000000000,
                                        0x100000000000000000000000000000000int,
                                        signed,
                                    ),
                                ),
                            ),
                            s.skip(20),
                        ),
                    )
                }
            } else {
                Err(ErrorKind::Unsupported)
            }
        } else if ti & DLT_TYPE_INFO_FLOA != 0 {
            let tyle = ti & DLT_TYPE_INFO_TYLE;
            if tyle == DLT_TYLE_32BIT {
                if s.len() < 8 {
                    Err(ErrorKind::Truncated)
                } else {
                    Ok((PieceV::SingleV(spec_u32_at(s, 4)), s.skip(8)))
                }
            } else if tyle == DLT_TYLE_64BIT {
                if s.len() < 12 {
                    Err(ErrorKind::Truncated)
                } else {
                    Ok((PieceV::DoubleV(spec_u64_at(s, 4)), s.skip(12)))
                }
            } else {
                Err(ErrorKind::Unsupported)
            }
        } else if ti & DLT_TYPE_INFO_RAWD != 0 {
            if s.len() < 6 {
                Err(ErrorKind::Truncated)
            } else {
                let l = spec_u16_at(s, 4) as int;
                if s.len() < 6 + l {
                    Err(ErrorKind::Truncated)
                } else {
                    Ok((PieceV::TextV(spec_hex_join(s.subrange(6, 6 + l))), s.skip(6 + l)))
                }
            }
        } else {
            Err(ErrorKind::Unsupported)
        }
    }
}

/// Decodes `n` verbose arguments from the front of `s`, joining their pieces
/// with a single separating space between consecutive arguments.
pub open spec fn spec_decode_args(s: Seq<u8>, n: nat, first: bool) -> Result<Seq<PieceV>, ErrorKind>
    decreases n,
{
    if n == 0 {
        Ok(Seq::<PieceV>::empty())
    } else {
        match spec_decode_one_arg(s) {
            Err(k) => Err(k),
            Ok(pr) => match spec_decode_args(pr.1, (n - 1) as nat, false) {
                Err(k) => Err(k),
                Ok(ps) => Ok(
                    (if first {
                        Seq::<PieceV>::empty()
                    } else {
                        seq![PieceV::TextV(" "@)]
                    }) + seq![pr.0] + ps,
                ),
            },
        }
    }
}

/// Decodes a non-verbose payload `s`: a 4-byte id, for control responses one
/// return code byte, and a hex dump of everything after. Yields the rendered
/// payload, the service id name (control messages only) and the return type
/// name (control responses only).
pub open spec fn spec_decode_nonverbose(s: Seq<u8>, control: bool, response: bool) -> Result<
    (Seq<char>, Seq<char>, Seq<char>),
    ErrorKind,
> {
    if s.len() < 4 {
        Err(ErrorKind::Truncated)
    } else {
        let id = spec_u32_at(s, 0);
        let service = if control {
            if id < DLT_SERVICE_ID_LAST_ENTRY as u32 {
                spec_service_id_name(id)
            } else {
                "service("@ + spec_dec(id as nat) + ")"@
            }
        } else {
            Seq::<char>::empty()
        };
        let head = if control {
            service
        } else {
            spec_dec(id as nat)
        };
        if response {
            if s.len() < 5 {
                Err(ErrorKind::Truncated)
            } else {
                Ok((head + spec_hex_trail(s.skip(5)), service, spec_return_type_name(s[4])))
            }
        } else {
            Ok((head + spec_hex_trail(s.skip(4)), service, Seq::<char>::empty()))
        }
    }
}

/// Decodes one whole message window `w` (marker included): storage header,
/// standard header, the extra and extended headers the `htyp` flags declare,
/// and the payload in the mode the flags select.
pub open spec fn spec_decode_record(w: Seq<u8>) -> Result<RecordV, ErrorKind> {
    if w.len() < 20 {
        Err(ErrorKind::Truncated)
    } else {
        let htyp = w[16];
        let weid = spec_is_htyp_weid(htyp);
        let wsid = spec_is_htyp_wsid(htyp);
        let wtms = spec_is_htyp_wtms(htyp);
        let ueh = spec_is_htyp_ueh(htyp);
        let o1 = 20 + if weid {
            4int
        } else {
            0int
        };
        let o2 = o1 + if wsid {
            4int
        } else {
            0int
        };
        let o3 = o2 + if wtms {
            4int
        } else {
            0int
        };
        let p0 = o3 + if ueh {
            10int
        } else {
            0int
        };
        if w.len() < p0 {
            Err(ErrorKind::Truncated)
        } else {
            let msin = if ueh {
                w[o3]
            } else {
                0
            };
            let noar = if ueh {
                w[o3 + 1]
            } else {
                0
            };
            let header = RecordV {
                seconds: spec_u32_at(w, 4),
                microseconds: spec_i32_v(spec_u32_at(w, 8)),
                ecu: if weid {
                    utf8_lossy_of(w.subrange(20, 24))
                } else {
                    utf8_lossy_of(w.subrange(12, 16))
                },
                htyp: htyp,
                mcnt: w[17],
                dlen: spec_u16_at(w, 18),
                seid: if wsid {
                    spec_u32_at(w, o1)
                } else {
                    0
                },
                tmsp: if wtms {
                    spec_u32_at(w, o2)
                } else {
                    0
                },
                msin: msin,
                noar: noar,
                apid: if ueh {
                    utf8_lossy_of(w.subrange(o3 + 2, o3 + 6))
                } else {
                    Seq::<char>::empty()
                },
                ctid: if ueh {
                    utf8_lossy_of(w.subrange(o3 + 6, o3 + 10))
                } else {
                    Seq::<char>::empty()
                },
                message_type: if ueh {
                    spec_message_type_name(spec_msin_mstp(msin))
                } else {
                    Seq::<char>::empty()
                },
                log_info: if ueh {
                    spec_log_info_name(spec_msin_mtin(msin))
                } else {
                    Seq::<char>::empty()
                },
                service_id_name: Seq::<char>::empty(),
                return_type: Seq::<char>::empty(),
                pieces: Seq::<PieceV>::empty(),
            };
            if spec_is_nonverbose(htyp, msin) {
                match spec_decode_nonverbose(
                    w.skip(p0),
                    spec_is_control(htyp, msin),
                    spec_is_control_response(htyp, msin),
                ) {
                    Err(k) => Err(k),
                    Ok(t) => Ok(
                        RecordV {
                            service_id_name: t.1,
                            return_type: t.2,
                            pieces: seq![PieceV::TextV(t.0)],
                            ..header
                        },
                    ),
                }
            } else {
                match spec_decode_args(w.skip(p0), noar as nat, true) {
                    Err(k) => Err(k),
                    Ok(ps) => Ok(RecordV { pieces: ps, ..header }),
                }
            }
        }
    }
}

/// Decodes the verbose argument at `pos` in `w`, returning its piece and the
/// position just past it.
#[verifier::rlimit(80)]
fn decode_one_arg(w: &Vec<u8>, pos: usize) -> (r: Result<(Piece, usize), ErrorKind>)
    requires
        pos <= w@.len(),
    ensures
        ({
            let s = w@.subrange(pos as int, w@.len() as int);
            match r {
                Ok(pn) => spec_decode_one_arg(s) is Ok && pn.0@ == spec_decode_one_arg(s)->Ok_0.0
                    && pos <= pn.1 <= w@.len() && spec_decode_one_arg(s)->Ok_0.1 == w@.subrange(
                    pn.1 as int,
                    w@.len() as int,
                ),
                Err(k) => spec_decode_one_arg(s) == Err::<(PieceV, Seq<u8>), ErrorKind>(k),
            }
        }),
{
    let ghost s = w@.subrange(pos as int, w@.len() as int);
    let n = w.len();
    if n - pos < 4 {
        return Err(ErrorKind::Truncated);
    }
    let ti = read_u32_at(w, pos);
    proof {
        assert(s[0] == w@[pos as int] && s[1] == w@[pos as int + 1] && s[2] == w@[pos as int + 2]
            && s[3] == w@[pos as int + 3]);
        assert(ti == spec_u32_at(s, 0));
    }
    let rp = pos + 4;
    if ti & DLT_TYPE_INFO_VARI != 0 || ti & DLT_TYPE_INFO_FIXP != 0 {
        return Err(ErrorKind::Unsupported);
    }
    if ti & DLT_TYPE_INFO_STRG != 0 && (ti & DLT_TYPE_INFO_SCOD == DLT_SCOD_ASCII || ti
        & DLT_TYPE_INFO_SCOD == DLT_SCOD_UTF8) {
        if n - rp < 2 {
            return Err(ErrorKind::Truncated);
        }
        let l = read_u16_at(w, rp) as usize;
        proof {
            assert(s[4] == w@[rp as int] && s[5] == w@[rp as int + 1]);
            assert(l == spec_u16_at(s, 4));
        }
        if n - (rp + 2) < l {
            return Err(ErrorKind::Truncated);
        }
        let sv = subvec(w, rp + 2, rp + 2 + l);
        let t = utf8_lossy(&sv);
        proof {
            assert(w@.subrange(rp + 2, rp + 2 + l) =~= s.subrange(6, 6 + l as int));
            assert(s.skip(6 + l as int) =~= w@.subrange(rp + 2 + l, w@.len() as int));
        }
        return Ok((Piece::Text(t), rp + 2 + l));
    }
    if ti & DLT_TYPE_INFO_BOOL != 0 {
        if n - rp < 1 {
            return Err(ErrorKind::Truncated);
        }
        let b = w[rp];
        proof {
            assert(s[4] == w@[rp as int]);
            assert(s.skip(5) =~= w@.subrange(rp + 1, w@.len() as int));
        }
        let t = if b != 0 {
            "true"
        } else {
            "false"
        };
        return Ok((Piece::Text(String::from_str(t)), rp + 1));
    }
    if ti & DLT_TYPE_INFO_SINT != 0 || ti & DLT_TYPE_INFO_UINT != 0 {
        let signed = ti & DLT_TYPE_INFO_SINT != 0;
        let tyle = ti & DLT_TYPE_INFO_TYLE;
        let mut t = String::new();
        if tyle == DLT_TYLE_8BIT {
            if n - rp < 1 {
                return Err(ErrorKind::Truncated);
            }
            let u = w[rp];
            let neg = signed && u >= 0x80;
            let mag: u128 = if neg {
                0x100 - (u as u128)
            } else {
                u as u128
            };
            push_signed(&mut t, neg, mag);
            proof {
                assert(s[4] == w@[rp as int]);
                assert(t@ =~= spec_int_str(spec_num_v(s[4] as int, 0x80, 0x100, signed)));
                assert(s.skip(5) =~= w@.subrange(rp + 1, w@.len() as int));
            }
            return Ok((Piece::Text(t), rp + 1));
        } else if tyle == DLT_TYLE_16BIT {
            if n - rp < 2 {
                return Err(ErrorKind::Truncated);
            }
            let u = read_u16_at(w, rp);
            let neg = signed && u >= 0x8000;
            let mag: u128 = if neg {
                0x10000 - (u as u128)
            } else {
                u as u128
            };
            push_signed(&mut t, neg, mag);
            proof {
                assert(s[4] == w@[rp as int] && s[5] == w@[rp as int + 1]);
                assert(u == spec_u16_at(s, 4));
                assert(t@ =~= spec_int_str(
                    spec_num_v(spec_u16_at(s, 4) as int, 0x8000, 0x10000, signed),
                ));
                assert(s.skip(6) =~= w@.subrange(rp + 2, w@.len() as int));
            }
            return Ok((Piece::Text(t), rp + 2));
        } else if tyle == DLT_TYLE_32BIT {
            if n - rp < 4 {
                return Err(ErrorKind::Truncated);
            }
            let u = read_u32_at(w, rp);
            let neg = signed && u >= 0x80000000;
            let mag: u128 = if neg {
                0x100000000 - (u as u128)
            } else {
                u as u128
            };
            push_signed(&mut t, neg, mag);
            proof {
                assert(s[4] == w@[rp as int] && s[5] == w@[rp as int + 1] && s[6] == w@[rp as int
                    + 2] && s[7] == w@[rp as int + 3]);
                assert(u == spec_u32_at(s, 4));
                assert(t@ =~= spec_int_str(
                    spec_num_v(spec_u32_at(s, 4) as int, 0x80000000, 0x100000000, signed),
                ));
                assert(s.skip(8) =~= w@.subrange(rp + 4, w@.len() as int));
            }
            return Ok((Piece::Text(t), rp + 4));
        } else if tyle == DLT_TYLE_64BIT {
            if n - rp < 8 {
                return Err(ErrorKind::Truncated);
            }
            let u = read_u64_at(w, rp);
            let neg = signed && u >= 0x8000000000000000;
            let mag: u128 = if neg {
                0x10000000000000000 - (u as u128)
            } else {
                u as u128
            };
            push_signed(&mut t, neg, mag);
            proof {
                assert(s[4] == w@[rp as int] && s[5] == w@[rp as int + 1] && s[6] == w@[rp as int
                    + 2] && s[7] == w@[rp as int + 3] && s[8] == w@[rp as int + 4] && s[9] == w@[
                rp as int + 5] && s[10] == w@[rp as int + 6] && s[11] == w@[rp as int + 7]);
                assert(u == spec_u64_at(s, 4));
                assert(t@ =~= spec_int_str(
                    spec_num_v(
                        spec_u64_at(s, 4) as int,
                        0x8000000000000000,
                        0x10000000000000000,
                        signed,
                    ),
                ));
                assert(s.skip(12) =~= w@.subrange(rp + 8, w@.len() as int));
            }
            return Ok((Piece::Text(t), rp + 8));
        } else if tyle == DLT_TYLE_128BIT {
            if n - rp < 16 {
                return Err(ErrorKind::Truncated);
            }
            let u = read_u128_at(w, rp);
            let neg = signed && u >= 0x80000000000000000000000000000000;
            let mag: u128 = if neg {
                (u128::MAX - u) + 1
            } else {
                u
            };
            push_signed(&mut t, neg, mag);
            proof {
                assert(s[4] == w@[rp as int] && s[5] == w@[rp as int + 1] && s[6] == w@[rp as int
                    + 2] && s[7] == w@[rp as int + 3] && s[8] == w@[rp as int + 4] && s[9] == w@[
                rp as int + 5] && s[10] == w@[rp as int + 6] && s[11] == w@[rp as int + 7] && s[12]
                    == w@[rp as int + 8] && s[13] == w@[rp as int + 9] && s[14] == w@[rp as int
                    + 10] && s[15] == w@[rp as int + 11] && s[16] == w@[rp as int + 12] && s[17]
                    == w@[rp as int + 13] && s[18] == w@[rp as int + 14] && s[19] == w@[rp as int
                    + 15]);
                assert(u == spec_u128_at(s, 4));
                assert(t@ =~= spec_int_str(
                    spec_num_v(
                        spec_u128_at(s, 4) as int,
                        0x80000000000000000000000000000000,
                        0x100000000000000000000000000000000int,
                        signed,
                    ),
                ));
                assert(s.skip(20) =~= w@.subrange(rp + 16, w@.len() as int));
            }
            return Ok((Piece::Text(t), rp + 16));
        } else {
            return Err(ErrorKind::Unsupported);
        }
    }
    if ti & DLT_TYPE_INFO_FLOA != 0 {
        let tyle = ti & DLT_TYPE_INFO_TYLE;
        if tyle == DLT_TYLE_32BIT {
            if n - rp < 4 {
                return Err(ErrorKind::Truncated);
            }
            let u = read_u32_at(w, rp);
            proof {
                assert(s[4] == w@[rp as int] && s[5] == w@[rp as int + 1] && s[6] == w@[rp as int
                    + 2] && s[7] == w@[rp as int + 3]);
                assert(u == spec_u32_at(s, 4));
                assert(s.skip(8) =~= w@.subrange(rp + 4, w@.len() as int));
            }
            return Ok((Piece::Single(u), rp + 4));
        } else if tyle == DLT_TYLE_64BIT {
            if n - rp < 8 {
                return Err(ErrorKind::Truncated);
            }
            let u = read_u64_at(w, rp);
            proof {
                assert(s[4] == w@[rp as int] && s[5] == w@[rp as int + 1] && s[6] == w@[rp as int
                    + 2] && s[7] == w@[rp as int + 3] && s[8] == w@[rp as int + 4] && s[9] == w@[
                rp as int + 5] && s[10] == w@[rp as int + 6] && s[11] == w@[rp as int + 7]);
                assert(u == spec_u64_at(s, 4));
                assert(s.skip(12) =~= w@.subrange(rp + 8, w@.len() as int));
            }
            return Ok((Piece::Double(u), rp + 8));
        } else {
            return Err(ErrorKind::Unsupported);
        }
    }
    if ti & DLT_TYPE_INFO_RAWD != 0 {
        if n - rp < 2 {
            return Err(ErrorKind::Truncated);
        }
        let l = read_u16_at(w, rp) as usize;
        proof {
            assert(s[4] == w@[rp as int] && s[5] == w@[rp as int + 1]);
            assert(l == spec_u16_at(s, 4));
        }
        if n - (rp + 2) < l {
            return Err(ErrorKind::Truncated);
        }
        let mut t = String::new();
        push_hex_join(&mut t, w, rp + 2, rp + 2 + l);
        proof {
            assert(w@.subrange(rp + 2, rp + 2 + l) =~= s.subrange(6, 6 + l as int));
            assert(t@ =~= spec_hex_join(s.subrange(6, 6 + l as int)));
            assert(s.skip(6 + l as int) =~= w@.subrange(rp + 2 + l, w@.len() as int));
        }
        return Ok((Piece::Text(t), rp + 2 + l));
    }
    Err(ErrorKind::Unsupported)
}

/// Decodes `n_args` verbose arguments starting at `pos` in `w`, appending
/// their pieces (space separators included) to `out`.
fn decode_args_into(w: &Vec<u8>, pos: usize, n_args: u8, first: bool, out: &mut Vec<Piece>) -> (r:
    Result<(), ErrorKind>)
    requires
        pos <= w@.len(),
    ensures
        ({
            let s = w@.subrange(pos as int, w@.len() as int);
            match spec_decode_args(s, n_args as nat, first) {
                Ok(pv) => r is Ok && pieces_view(final(out)@) == pieces_view(old(out)@) + pv,
                Err(k) => r is Err && r->Err_0 == k,
            }
        }),
    decreases n_args,
{
    if n_args == 0 {
        proof {
            assert(pieces_view(out@) =~= pieces_view(old(out)@) + Seq::<PieceV>::empty());
        }
        return Ok(());
    }
    match decode_one_arg(w, pos) {
        Err(k) => Err(k),
        Ok((piece, np)) => {
            let ghost mid0 = out@;
            if !first {
                out.push(Piece::Text(String::from_str(" ")));
            }
            out.push(piece);
            let ghost mid = out@;
            proof {
                if first {
                    assert(pieces_view(mid) =~= pieces_view(mid0) + seq![piece@]);
                } else {
                    assert(pieces_view(mid) =~= pieces_view(mid0) + seq![PieceV::TextV(" "@)]
                        + seq![piece@]);
                }
            }
            match decode_args_into(w, np, n_args - 1, false, out) {
                Err(k) => Err(k),
                Ok(u) => {
                    proof {
                        let s = w@.subrange(pos as int, w@.len() as int);
                        let rest = w@.subrange(np as int, w@.len() as int);
                        let pv = spec_decode_args(s, n_args as nat, first)->Ok_0;
                        let psrest = spec_decode_args(rest, (n_args - 1) as nat, false)->Ok_0;
                        assert(pieces_view(out@) == pieces_view(mid) + psrest);
                        assert(pieces_view(out@) =~= pieces_view(old(out)@) + pv);
                    }
                    Ok(u)
                },
            }
        },
    }
}

/// Decodes the non-verbose payload at `pos` in `w`: the rendered payload,
/// the service id name and the return type name.
fn decode_nonverbose(w: &Vec<u8>, pos: usize, control: bool, response: bool) -> (r: Result<
    (String, String, String),
    ErrorKind,
>)
    requires
        pos <= w@.len(),
    ensures
        ({
            let s = w@.subrange(pos as int, w@.len() as int);
            match r {
                Ok(t) => spec_decode_nonverbose(s, control, response) == Ok::<
                    (Seq<char>, Seq<char>, Seq<char>),
                    ErrorKind,
                >((t.0@, t.1@, t.2@)),
                Err(k) => spec_decode_nonverbose(s, control, response) == Err::<
                    (Seq<char>, Seq<char>, Seq<char>),
                    ErrorKind,
                >(k),
            }
        }),
{
    let ghost s = w@.subrange(pos as int, w@.len() as int);
    let n = w.len();
    if n - pos < 4 {
        return Err(ErrorKind::Truncated);
    }
    let id = read_u32_at(w, pos);
    proof {
        assert(s[0] == w@[pos as int] && s[1] == w@[pos as int + 1] && s[2] == w@[pos as int + 2]
            && s[3] == w@[pos as int + 3]);
        assert(id == spec_u32_at(s, 0));
    }
    let service: String = if control {
        if id < DLT_SERVICE_ID_LAST_ENTRY as u32 {
            service_id_name(id).to_owned()
        } else {
            let mut sv = String::from_str("service(");
            let d = dec_u128(id as u128);
            sv.append(d.as_str());
            sv.append(")");
            proof {
                assert(sv@ =~= "service("@ + spec_dec(id as nat) + ")"@);
            }
            sv
        }
    } else {
        String::new()
    };
    let mut payload: String = if control {
        service.clone()
    } else {
        dec_u128(id as u128)
    };
    let mut rp = pos + 4;
    let mut rett: String = String::new();
    if response {
        if n - rp < 1 {
            return Err(ErrorKind::Truncated);
        }
        let code = w[rp];
        proof {
            assert(s[4] == w@[rp as int]);
        }
        rett = return_type_name(code).to_owned();
        rp = rp + 1;
    }
    let ghost head = payload@;
    push_hex_trail(&mut payload, w, rp);
    proof {
        if response {
            assert(w@.subrange(rp as int, w@.len() as int) =~= s.skip(5));
            assert(payload@ =~= head + spec_hex_trail(s.skip(5)));
        } else {
            assert(w@.subrange(rp as int, w@.len() as int) =~= s.skip(4));
            assert(payload@ =~= head + spec_hex_trail(s.skip(4)));
        }
    }
    Ok((payload, service, rett))
}

/// Decodes one whole message window (marker included) into a record, or
/// reports why it cannot be decoded.
pub fn decode_record(w: &Vec<u8>) -> (r: Result<Record, ErrorKind>)
    ensures
        (match r {
            Ok(rec) => spec_decode_record(w@) == Ok::<RecordV, ErrorKind>(rec@),
            Err(k) => spec_decode_record(w@) == Err::<RecordV, ErrorKind>(k),
        }),
{
    let n = w.len();
    if n < 20 {
        return Err(ErrorKind::Truncated);
    }
    let htyp = w[16];
    let weid = dlt_is_htyp_weid(htyp);
    let wsid = dlt_is_htyp_wsid(htyp);
    let wtms = dlt_is_htyp_wtms(htyp);
    let ueh = dlt_is_htyp_ueh(htyp);
    let o1: usize = 20 + if weid {
        4
    } else {
        0
    };
    let o2: usize = o1 + if wsid {
        4
    } else {
        0
    };
    let o3: usize = o2 + if wtms {
        4
    } else {
        0
    };
    let p0: usize = o3 + if ueh {
        10
    } else {
        0
    };
    if n < p0 {
        return Err(ErrorKind::Truncated);
    }
    let seconds = read_u32_at(w, 4);
    let microseconds = i32_from_bits(read_u32_at(w, 8));
    let ecu = if weid {
        let sv = subvec(w, 20, 24);
        utf8_lossy(&sv)
    } else {
        let sv = subvec(w, 12, 16);
        utf8_lossy(&sv)
    };
    let mcnt = w[17];
    let dlen = read_u16_at(w, 18);
    let seid = if wsid {
        read_u32_at(w, o1)
    } else {
        0
    };
    let tmsp = if wtms {
        read_u32_at(w, o2)
    } else {
        0
    };
    let msin = if ueh {
        w[o3]
    } else {
        0
    };
    let noar = if ueh {
        w[o3 + 1]
    } else {
        0
    };
    let apid = if ueh {
        let sv = subvec(w, o3 + 2, o3 + 6);
        utf8_lossy(&sv)
    } else {
        String::new()
    };
    let ctid = if ueh {
        let sv = subvec(w, o3 + 6, o3 + 10);
        utf8_lossy(&sv)
    } else {
        String::new()
    };
    let message_type = if ueh {
        message_type_name(dlt_get_msin_mstp(msin)).to_owned()
    } else {
        String::new()
    };
    let log_info = if ueh {
        log_info_name(dlt_get_msin_mtin(msin)).to_owned()
    } else {
        String::new()
    };
    let mut service: String = String::new();
    let mut rett: String = String::new();
    let mut pieces: Vec<Piece> = Vec::new();
    proof {
        assert(w@.skip(p0 as int) =~= w@.subrange(p0 as int, w@.len() as int));
    }
    if dlt_msg_is_nonverbose(htyp, msin) {
        match decode_nonverbose(
            w,
            p0,
            dlt_msg_is_control(htyp, msin),
            dlt_msg_is_control_response(htyp, msin),
        ) {
            Err(k) => {
                return Err(k);
            },
            Ok(t) => {
                let ghost txt = t.0@;
                pieces.push(Piece::Text(t.0));
                proof {
                    assert(pieces_view(pieces@) =~= seq![PieceV::TextV(txt)]);
                }
                service = t.1;
                rett = t.2;
            },
        }
    } else {
        match decode_args_into(w, p0, noar, true, &mut pieces) {
            Err(k) => {
                return Err(k);
            },
            Ok(_) => {
                proof {
                    assert(pieces_view(pieces@) =~= spec_decode_args(
                        w@.skip(p0 as int),
                        noar as nat,
                        true,
                    )->Ok_0);
                }
            },
        }
    }
    let rec = Record {
        seconds,
        microseconds,
        ecu,
        htyp,
        mcnt,
        dlen,
        seid,
        tmsp,
        msin,
        noar,
        apid,
        ctid,
        message_type,
        log_info,
        service_id_name: service,
        return_type: rett,
        pieces,
    };
    proof {
        assert(w@.skip(p0 as int) =~= w@.subrange(p0 as int, w@.len() as int));
        if spec_is_nonverbose(htyp, msin) {
            assert(pieces_view(rec.pieces@) =~= seq![
                spec_decode_nonverbose(
                    w@.skip(p0 as int),
                    spec_is_control(htyp, msin),
                    spec_is_control_response(htyp, msin),
                )->Ok_0.0,
            ].map_values(|t: Seq<char>| PieceV::TextV(t)));
        }
        assert(spec_decode_record(w@) is Ok);
        assert(spec_decode_record(w@)->Ok_0 == rec@);
    }
    Ok(rec)
}

} // verus!
