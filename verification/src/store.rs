//! The record store: one load decodes every message of every input file, in
//! file order and stream order, into parallel columnar vectors sharing one
//! message index. A load either succeeds for all messages or reports the
//! first failure with its file, message index and byte offset.
//!
//! A load yields a draft first: every column is final except the payload,
//! which may still hold float arguments as raw bits. Once text for those is
//! supplied (the one step that cannot happen here), the draft becomes the
//! finished store.

use vstd::prelude::*;
use vstd::string::StringExecFns;

use crate::message::{
    decode_record, pieces_view, spec_decode_record, ErrorKind, Piece, PieceV, Record, RecordV,
};
use crate::scan::{
    dlt_marker, find_marker_positions, lemma_positions_props, spec_marker, spec_positions,
};

verus! {

/// A float argument awaiting text: whether it is double width, and its raw
/// bits.
#[derive(PartialEq, Eq, Structural, Clone, Copy, Debug)]
pub struct FloatReq {
    pub wide: bool,
    pub bits: u64,
}

/// The float arguments of a piece sequence, in payload order.
pub open spec fn spec_float_reqs(ps: Seq<PieceV>) -> Seq<FloatReq>
    decreases ps.len(),
{
    if ps.len() == 0 {
        Seq::<FloatReq>::empty()
    } else {
        spec_float_reqs(ps.drop_last()) + (match ps.last() {
            PieceV::TextV(_) => Seq::<FloatReq>::empty(),
            PieceV::SingleV(b) => seq![FloatReq { wide: false, bits: b as u64 }],
            PieceV::DoubleV(b) => seq![FloatReq { wide: true, bits: b }],
        })
    }
}

/// The float arguments of a row sequence, in row order then payload order.
pub open spec fn spec_rows_float_reqs(rows: Seq<RecordV>) -> Seq<FloatReq>
    decreases rows.len(),
{
    if rows.len() == 0 {
        Seq::<FloatReq>::empty()
    } else {
        spec_rows_float_reqs(rows.drop_last()) + spec_float_reqs(rows.last().pieces)
    }
}

/// The payload text of a piece sequence once float texts are supplied;
/// `j` is the index in `texts` of the first float text of this sequence.
pub open spec fn spec_splice(ps: Seq<PieceV>, texts: Seq<Seq<char>>, j: int) -> Seq<char>
    decreases ps.len(),
{
    if ps.len() == 0 {
        Seq::<char>::empty()
    } else {
        spec_splice(ps.drop_last(), texts, j) + (match ps.last() {
            PieceV::TextV(t) => t,
            PieceV::SingleV(_) => texts[j + spec_float_reqs(ps.drop_last()).len()],
            PieceV::DoubleV(_) => texts[j + spec_float_reqs(ps.drop_last()).len()],
        })
    }
}

/// The window of message `k` in a file: from marker occurrence `k` to the
/// next occurrence, or to the end of the file for the last message.
pub open spec fn spec_window(bytes: Seq<u8>, k: int) -> Seq<u8> {
    let ps = spec_positions(bytes, spec_marker());
    bytes.subrange(
        ps[k],
        if k + 1 < ps.len() {
            ps[k + 1]
        } else {
            bytes.len() as int
        },
    )
}

/// The decode outcome of every message window of a file, in stream order.
pub open spec fn spec_file_outcomes(bytes: Seq<u8>) -> Seq<Result<RecordV, ErrorKind>> {
    Seq::new(
        spec_positions(bytes, spec_marker()).len(),
        |k: int| spec_decode_record(spec_window(bytes, k)),
    )
}

/// Every message of the file decodes.
pub open spec fn spec_file_ok(bytes: Seq<u8>) -> bool {
    forall|k: int|
        0 <= k < spec_file_outcomes(bytes).len() ==> (#[trigger] spec_file_outcomes(bytes)[k])
            is Ok
}

/// The decoded records of a file, in stream order.
pub open spec fn spec_file_records(bytes: Seq<u8>) -> Seq<RecordV> {
    spec_file_outcomes(bytes).map_values(|r: Result<RecordV, ErrorKind>| r->Ok_0)
}

/// Every message of every file decodes.
pub open spec fn spec_load_ok(files: Seq<Seq<u8>>) -> bool {
    forall|f: int| 0 <= f < files.len() ==> spec_file_ok(#[trigger] files[f])
}

/// The decoded records of a list of files: the concatenation of each file's
/// records, in file order.
pub open spec fn spec_load_records(files: Seq<Seq<u8>>) -> Seq<RecordV>
    decreases files.len(),
{
    if files.len() == 0 {
        Seq::<RecordV>::empty()
    } else {
        spec_load_records(files.drop_last()) + spec_file_records(files.last())
    }
}

/// A failed load: why the message could not be decoded, which file it was
/// in, its message index within that file, and the byte offset of its
/// marker.
#[derive(Debug, Clone, Copy)]
pub struct DltError {
    pub kind: ErrorKind,
    pub file: usize,
    pub message: usize,
    pub offset: usize,
}

/// A decoded load whose float arguments still await text: every column is
/// final except the payload, kept as pieces.
pub struct DltDraft {
    seconds: Vec<u32>,
    microseconds: Vec<i32>,
    ecus: Vec<String>,
    htyps: Vec<u8>,
    mcnts: Vec<u8>,
    lens: Vec<u16>,
    seids: Vec<u32>,
    tmsps: Vec<u32>,
    msins: Vec<u8>,
    noars: Vec<u8>,
    apids: Vec<String>,
    ctids: Vec<String>,
    message_types: Vec<String>,
    log_infos: Vec<String>,
    service_id_names: Vec<String>,
    return_types: Vec<String>,
    pieces: Vec<Vec<Piece>>,
    size: usize,
}

impl DltDraft {
    /// Every column holds exactly one entry per message.
    #[verifier::type_invariant]
    pub closed spec fn wf(&self) -> bool {
        self.seconds@.len() == self.size && self.microseconds@.len() == self.size
            && self.ecus@.len() == self.size && self.htyps@.len() == self.size
            && self.mcnts@.len() == self.size && self.lens@.len() == self.size
            && self.seids@.len() == self.size && self.tmsps@.len() == self.size
            && self.msins@.len() == self.size && self.noars@.len() == self.size
            && self.apids@.len() == self.size && self.ctids@.len() == self.size
            && self.message_types@.len() == self.size && self.log_infos@.len() == self.size
            && self.service_id_names@.len() == self.size && self.return_types@.len() == self.size
            && self.pieces@.len() == self.size
    }

    /// Row `k`, reassembled from the columns.
    pub closed spec fn spec_row(&self, k: int) -> RecordV {
        RecordV {
            seconds: self.seconds@[k],
            microseconds: self.microseconds@[k] as int,
            ecu: self.ecus@[k]@,
            htyp: self.htyps@[k],
            mcnt: self.mcnts@[k],
            dlen: self.lens@[k],
            seid: self.seids@[k],
            tmsp: self.tmsps@[k],
            msin: self.msins@[k],
            noar: self.noars@[k],
            apid: self.apids@[k]@,
            ctid: self.ctids@[k]@,
            message_type: self.message_types@[k]@,
            log_info: self.log_infos@[k]@,
            service_id_name: self.service_id_names@[k]@,
            return_type: self.return_types@[k]@,
            pieces: pieces_view(self.pieces@[k]@),
        }
    }
}

impl View for DltDraft {
    type V = Seq<RecordV>;

    closed spec fn view(&self) -> Seq<RecordV> {
        Seq::new(self.size as nat, |k: int| self.spec_row(k))
    }
}

impl DltDraft {
    /// Decodes every message of every file, in order. On success the draft
    /// holds the records of all files, concatenated in file order; on
    /// failure the error names the first message that did not decode, and
    /// nothing is returned.
    pub fn from_files(files: &Vec<Vec<u8>>) -> (r: Result<DltDraft, DltError>)
        ensures
            (match r {
                Ok(d) => spec_load_ok(files.deep_view()) && d@ == spec_load_records(
                    files.deep_view(),
                ),
                Err(e) => {
                    let fs = files.deep_view();
                    &&& e.file < fs.len()
                    &&& forall|g: int| 0 <= g < e.file ==> spec_file_ok(#[trigger] fs[g])
                    &&& e.message < spec_file_outcomes(fs[e.file as int]).len()
                    &&& spec_file_outcomes(fs[e.file as int])[e.message as int] == Err::<
                        RecordV,
                        ErrorKind,
                    >(e.kind)
                    &&& forall|j: int|
                        0 <= j < e.message ==> (#[trigger] spec_file_outcomes(
                            fs[e.file as int],
                        )[j]) is Ok
                    &&& e.offset == spec_positions(fs[e.file as int], spec_marker())[
                        e.message as int]
                },
            }),
    {
        let ghost fs = files.deep_view();
        let marker = dlt_marker();
        proof {
            assert(spec_marker().len() == 4);
        }
        let mut seconds: Vec<u32> = Vec::new();
        let mut microseconds: Vec<i32> = Vec::new();
        let mut ecus: Vec<String> = Vec::new();
        let mut htyps: Vec<u8> = Vec::new();
        let mut mcnts: Vec<u8> = Vec::new();
        let mut lens: Vec<u16> = Vec::new();
        let mut seids: Vec<u32> = Vec::new();
        let mut tmsps: Vec<u32> = Vec::new();
        let mut msins: Vec<u8> = Vec::new();
        let mut noars: Vec<u8> = Vec::new();
        let mut apids: Vec<String> = Vec::new();
        let mut ctids: Vec<String> = Vec::new();
        let mut message_types: Vec<String> = Vec::new();
        let mut log_infos: Vec<String> = Vec::new();
        let mut service_id_names: Vec<String> = Vec::new();
        let mut return_types: Vec<String> = Vec::new();
        let mut pieces: Vec<Vec<Piece>> = Vec::new();
        let mut size: usize = 0;
        let ghost mut rows: Seq<RecordV> = Seq::<RecordV>::empty();
        let mut f: usize = 0;
        proof {
            assert(rows =~= spec_load_records(fs.take(0)));
        }
        while f < files.len()
            invariant
                f <= files@.len(),
                fs == files.deep_view(),
                marker@ == spec_marker(),
                forall|g: int| 0 <= g < f ==> spec_file_ok(#[trigger] fs[g]),
                rows == spec_load_records(fs.take(f as int)),
                rows.len() == size,
                seconds@.len() == size && microseconds@.len() == size && ecus@.len() == size
                    && htyps@.len() == size && mcnts@.len() == size && lens@.len() == size
                    && seids@.len() == size && tmsps@.len() == size && msins@.len() == size
                    && noars@.len() == size && apids@.len() == size && ctids@.len() == size
                    && message_types@.len() == size && log_infos@.len() == size
                    && service_id_names@.len() == size && return_types@.len() == size
                    && pieces@.len() == size,
                forall|m: int|
                    0 <= m < size ==> {
                        let rv = #[trigger] rows[m];
                        rv.seconds == seconds@[m] && rv.microseconds == microseconds@[m] as int
                            && rv.ecu == ecus@[m]@ && rv.htyp == htyps@[m] && rv.mcnt == mcnts@[m]
                            && rv.dlen == lens@[m] && rv.seid == seids@[m] && rv.tmsp == tmsps@[m]
                            && rv.msin == msins@[m] && rv.noar == noars@[m] && rv.apid == apids@[
                        m]@ && rv.ctid == ctids@[m]@ && rv.message_type == message_types@[m]@
                            && rv.log_info == log_infos@[m]@ && rv.service_id_name
                            == service_id_names@[m]@ && rv.return_type == return_types@[m]@
                            && rv.pieces == pieces_view(pieces@[m]@)
                    },
            decreases files@.len() - f,
        {
            let bytes = &files[f];
            proof {
                assert(fs[f as int] == files@[f as int]@);
            }
            let positions = find_marker_positions(bytes, &marker);
            let ghost psv = spec_positions(bytes@, spec_marker());
            proof {
                lemma_positions_props(bytes@, spec_marker(), 0);
            }
            let mut k: usize = 0;
            proof {
                assert(rows =~= spec_load_records(fs.take(f as int)) + Seq::new(
                    0,
                    |j: int| spec_file_outcomes(bytes@)[j]->Ok_0,
                ));
            }
            while k < positions.len()
                invariant
                    f < files@.len(),
                    fs == files.deep_view(),
                    fs[f as int] == bytes@,
                    marker@ == spec_marker(),
                    positions@.map_values(|p: usize| p as int) == psv,
                    psv == spec_positions(bytes@, spec_marker()),
                    k <= positions@.len(),
                    forall|p: int|
                        0 <= p < psv.len() ==> 0 <= #[trigger] psv[p] && psv[p] + 4
                            <= bytes@.len(),
                    forall|p1: int, p2: int|
                        0 <= p1 < p2 < psv.len() ==> #[trigger] psv[p1] < #[trigger] psv[p2],
                    forall|g: int| 0 <= g < f ==> spec_file_ok(#[trigger] fs[g]),
                    forall|j: int|
                        0 <= j < k ==> (#[trigger] spec_file_outcomes(bytes@)[j]) is Ok,
                    rows == spec_load_records(fs.take(f as int)) + Seq::new(
                        k as nat,
                        |j: int| spec_file_outcomes(bytes@)[j]->Ok_0,
                    ),
                    rows.len() == size,
                    seconds@.len() == size && microseconds@.len() == size && ecus@.len() == size
                        && htyps@.len() == size && mcnts@.len() == size && lens@.len() == size
                        && seids@.len() == size && tmsps@.len() == size && msins@.len() == size
                        && noars@.len() == size && apids@.len() == size && ctids@.len() == size
                        && message_types@.len() == size && log_infos@.len() == size
                        && service_id_names@.len() == size && return_types@.len() == size
                        && pieces@.len() == size,
                    forall|m: int|
                        0 <= m < size ==> {
                            let rv = #[trigger] rows[m];
                            rv.seconds == seconds@[m] && rv.microseconds == microseconds@[
                            m] as int && rv.ecu == ecus@[m]@ && rv.htyp == htyps@[m] && rv.mcnt
                                == mcnts@[m] && rv.dlen == lens@[m] && rv.seid == seids@[m]
                                && rv.tmsp == tmsps@[m] && rv.msin == msins@[m] && rv.noar
                                == noars@[m] && rv.apid == apids@[m]@ && rv.ctid == ctids@[m]@
                                && rv.message_type == message_types@[m]@ && rv.log_info
                                == log_infos@[m]@ && rv.service_id_name == service_id_names@[m]@
                                && rv.return_type == return_types@[m]@ && rv.pieces == pieces_view(
                            pieces@[m]@)
                        },
                decreases positions@.len() - k,
            {
                let start = positions[k];
                let end = if k + 1 < positions.len() {
                    positions[k + 1]
                } else {
                    bytes.len()
                };
                proof {
                    assert(psv[k as int] == start as int);
                    if k + 1 < positions@.len() {
                        assert(psv[k as int + 1] == end as int);
                    }
                    assert(start <= end <= bytes@.len());
                }
                let win = crate::wire::subvec(bytes, start, end);
                proof {
                    assert(win@ == spec_window(bytes@, k as int));
                }
                match decode_record(&win) {
                    Err(kind) => {
                        return Err(DltError { kind, file: f, message: k, offset: start });
                    },
                    Ok(rec) => {
                        let ghost rv = rec@;
                        let Record {
                            seconds: c_seconds,
                            microseconds: c_microseconds,
                            ecu: c_ecu,
                            htyp: c_htyp,
                            mcnt: c_mcnt,
                            dlen: c_dlen,
                            seid: c_seid,
                            tmsp: c_tmsp,
                            msin: c_msin,
                            noar: c_noar,
                            apid: c_apid,
                            ctid: c_ctid,
                            message_type: c_message_type,
                            log_info: c_log_info,
                            service_id_name: c_service,
                            return_type: c_rett,
                            pieces: c_pieces,
                        } = rec;
                        seconds.push(c_seconds);
                        microseconds.push(c_microseconds);
                        ecus.push(c_ecu);
                        htyps.push(c_htyp);
                        mcnts.push(c_mcnt);
                        lens.push(c_dlen);
                        seids.push(c_seid);
                        tmsps.push(c_tmsp);
                        msins.push(c_msin);
                        noars.push(c_noar);
                        apids.push(c_apid);
                        ctids.push(c_ctid);
                        message_types.push(c_message_type);
                        log_infos.push(c_log_info);
                        service_id_names.push(c_service);
                        return_types.push(c_rett);
                        pieces.push(c_pieces);
                        proof {
                            assert(seconds.len() == size + 1);
                        }
                        size = size + 1;
                        proof {
                            rows = rows.push(rv);
                            assert(spec_file_outcomes(bytes@)[k as int] == Ok::<
                                RecordV,
                                ErrorKind,
                            >(rv));
                            assert(rows =~= spec_load_records(fs.take(f as int)) + Seq::new(
                                (k + 1) as nat,
                                |j: int| spec_file_outcomes(bytes@)[j]->Ok_0,
                            ));
                        }
                        k = k + 1;
                    },
                }
            }
            proof {
                assert(spec_file_ok(bytes@));
                assert(Seq::new(
                    positions@.len() as nat,
                    |j: int| spec_file_outcomes(bytes@)[j]->Ok_0,
                ) =~= spec_file_records(bytes@));
                assert(fs.take(f + 1).drop_last() =~= fs.take(f as int));
                assert(fs.take(f + 1).last() == fs[f as int]);
                assert(rows =~= spec_load_records(fs.take(f + 1)));
            }
            f = f + 1;
        }
        let d = DltDraft {
            seconds,
            microseconds,
            ecus,
            htyps,
            mcnts,
            lens,
            seids,
            tmsps,
            msins,
            noars,
            apids,
            ctids,
            message_types,
            log_infos,
            service_id_names,
            return_types,
            pieces,
            size,
        };
        proof {
            assert(fs.take(files@.len() as int) =~= fs);
            assert forall|m: int| 0 <= m < size implies d.spec_row(m) == rows[m] by {
            }
            assert(d@ =~= rows);
        }
        Ok(d)
    }
}

/// One finished row: the record fields with the payload fully rendered.
pub struct RowV {
    pub seconds: u32,
    pub microseconds: int,
    pub ecu: Seq<char>,
    pub htyp: u8,
    pub mcnt: u8,
    pub dlen: u16,
    pub seid: u32,
    pub tmsp: u32,
    pub msin: u8,
    pub noar: u8,
    pub apid: Seq<char>,
    pub ctid: Seq<char>,
    pub message_type: Seq<char>,
    pub log_info: Seq<char>,
    pub service_id_name: Seq<char>,
    pub return_type: Seq<char>,
    pub payload: Seq<char>,
}

/// A record with its payload rendered, the floats having their texts taken
/// from `texts` starting at index `j`.
pub open spec fn spec_resolve(rv: RecordV, texts: Seq<Seq<char>>, j: int) -> RowV {
    RowV {
        seconds: rv.seconds,
        microseconds: rv.microseconds,
        ecu: rv.ecu,
        htyp: rv.htyp,
        mcnt: rv.mcnt,
        dlen: rv.dlen,
        seid: rv.seid,
        tmsp: rv.tmsp,
        msin: rv.msin,
        noar: rv.noar,
        apid: rv.apid,
        ctid: rv.ctid,
        message_type: rv.message_type,
        log_info: rv.log_info,
        service_id_name: rv.service_id_name,
        return_type: rv.return_type,
        payload: spec_splice(rv.pieces, texts, j),
    }
}

/// All records with their payloads rendered, the float texts consumed in
/// row order then payload order.
pub open spec fn spec_resolve_rows(rows: Seq<RecordV>, texts: Seq<Seq<char>>) -> Seq<RowV> {
    Seq::new(
        rows.len(),
        |k: int| spec_resolve(rows[k], texts, spec_rows_float_reqs(rows.take(k)).len() as int),
    )
}

/// A prefix of the pieces never requests more float texts than all of them.
proof fn lemma_float_reqs_take_le(ps: Seq<PieceV>, i: int)
    requires
        0 <= i <= ps.len(),
    ensures
        spec_float_reqs(ps.take(i)).len() <= spec_float_reqs(ps).len(),
    decreases ps.len(),
{
    if i == ps.len() {
        assert(ps.take(i) =~= ps);
    } else {
        lemma_float_reqs_take_le(ps.drop_last(), i);
        assert(ps.take(i) =~= ps.drop_last().take(i));
    }
}

/// A prefix of the rows never requests more float texts than all of them.
proof fn lemma_rows_reqs_take_le(rows: Seq<RecordV>, k: int)
    requires
        0 <= k <= rows.len(),
    ensures
        spec_rows_float_reqs(rows.take(k)).len() <= spec_rows_float_reqs(rows).len(),
    decreases rows.len(),
{
    if k == rows.len() {
        assert(rows.take(k) =~= rows);
    } else {
        lemma_rows_reqs_take_le(rows.drop_last(), k);
        assert(rows.take(k) =~= rows.drop_last().take(k));
    }
}

/// The float request of one piece, if it is one.
fn piece_float_req(p: &Piece) -> (r: Option<FloatReq>)
    ensures
        (match p@ {
            PieceV::TextV(_) => r is None,
            PieceV::SingleV(b) => r == Some(FloatReq { wide: false, bits: b as u64 }),
            PieceV::DoubleV(b) => r == Some(FloatReq { wide: true, bits: b }),
        }),
{
    match p {
        Piece::Text(_) => None,
        Piece::Single(b) => Some(FloatReq { wide: false, bits: *b as u64 }),
        Piece::Double(b) => Some(FloatReq { wide: true, bits: *b }),
    }
}

/// The text of one piece, where it already has one.
fn piece_text<'a>(p: &'a Piece) -> (r: Option<&'a String>)
    ensures
        (match p@ {
            PieceV::TextV(t) => r is Some && r->0@ == t,
            PieceV::SingleV(_) => r is None,
            PieceV::DoubleV(_) => r is None,
        }),
{
    match p {
        Piece::Text(t) => Some(t),
        Piece::Single(_) => None,
        Piece::Double(_) => None,
    }
}

impl DltDraft {
    /// The float arguments of the whole load, in row order then payload
    /// order: exactly the texts `finish` asks for.
    pub fn float_requests(&self) -> (r: Vec<FloatReq>)
        ensures
            r@ == spec_rows_float_reqs(self@),
    {
        proof {
            use_type_invariant(self);
        }
        let mut r: Vec<FloatReq> = Vec::new();
        let mut k: usize = 0;
        proof {
            assert(self@.take(0) =~= Seq::<RecordV>::empty());
            assert(r@ =~= spec_rows_float_reqs(self@.take(0)));
        }
        while k < self.pieces.len()
            invariant
                self.wf(),
                k <= self.size,
                r@ == spec_rows_float_reqs(self@.take(k as int)),
            decreases self.size - k,
        {
            let rowp = &self.pieces[k];
            let ghost pv = pieces_view(rowp@);
            proof {
                assert(self@[k as int] == self.spec_row(k as int));
                assert(self@[k as int].pieces == pv);
            }
            let mut i: usize = 0;
            proof {
                assert(pv.take(0) =~= Seq::<PieceV>::empty());
            }
            while i < rowp.len()
                invariant
                    self.wf(),
                    k < self.size,
                    i <= rowp@.len(),
                    rowp == &self.pieces[k as int],
                    pv == pieces_view(rowp@),
                    r@ == spec_rows_float_reqs(self@.take(k as int)) + spec_float_reqs(
                        pv.take(i as int),
                    ),
                decreases rowp@.len() - i,
            {
                match piece_float_req(&rowp[i]) {
                    None => {
                    },
                    Some(q) => {
                        r.push(q);
                    },
                }
                proof {
                    assert(pv.take(i + 1).drop_last() =~= pv.take(i as int));
                    assert(pv.take(i + 1).last() == pv[i as int]);
                    assert(pv[i as int] == rowp@[i as int]@);
                    assert(r@ =~= spec_rows_float_reqs(self@.take(k as int)) + spec_float_reqs(
                        pv.take(i + 1),
                    ));
                }
                i = i + 1;
            }
            proof {
                assert(pv.take(rowp@.len() as int) =~= pv);
                assert(self@.take(k + 1).drop_last() =~= self@.take(k as int));
                assert(self@.take(k + 1).last() == self@[k as int]);
                assert(r@ =~= spec_rows_float_reqs(self@.take(k + 1)));
            }
            k = k + 1;
        }
        proof {
            assert(self@.take(self.size as int) =~= self@);
        }
        r
    }

    /// Renders every payload to its final text, the float arguments taking
    /// the given texts in request order, and yields the finished store.
    pub fn finish(self, texts: &Vec<String>) -> (r: Dlt)
        requires
            texts@.len() == spec_rows_float_reqs(self@).len(),
        ensures
            r@ == spec_resolve_rows(self@, texts.deep_view()),
    {
        proof {
            use_type_invariant(&self);
        }
        let ghost dv = self@;
        let ghost tv = texts.deep_view();
        proof {
            assert(tv.len() == texts@.len());
            assert forall|m: int| 0 <= m < tv.len() implies tv[m] == texts@[m]@ by {
            }
        }
        let mut payloads: Vec<String> = Vec::new();
        let mut j: usize = 0;
        let mut k: usize = 0;
        proof {
            assert(dv.take(0) =~= Seq::<RecordV>::empty());
        }
        while k < self.pieces.len()
            invariant
                self.wf(),
                dv == self@,
                tv == texts.deep_view(),
                tv.len() == texts@.len(),
                forall|m: int| 0 <= m < tv.len() ==> #[trigger] tv[m] == texts@[m]@,
                tv.len() == spec_rows_float_reqs(dv).len(),
                k <= self.size,
                payloads@.len() == k,
                j == spec_rows_float_reqs(dv.take(k as int)).len(),
                forall|m: int|
                    0 <= m < k ==> (#[trigger] payloads@[m])@ == spec_splice(
                        dv[m].pieces,
                        tv,
                        spec_rows_float_reqs(dv.take(m)).len() as int,
                    ),
            decreases self.size - k,
        {
            let rowp = &self.pieces[k];
            let ghost pv = pieces_view(rowp@);
            let ghost base = j as int;
            proof {
                assert(dv[k as int] == self.spec_row(k as int));
                assert(dv[k as int].pieces == pv);
            }
            let mut t = String::new();
            let mut i: usize = 0;
            proof {
                assert(pv.take(0) =~= Seq::<PieceV>::empty());
                assert(t@ =~= spec_splice(pv.take(0), tv, base));
            }
            while i < rowp.len()
                invariant
                    self.wf(),
                    dv == self@,
                    tv == texts.deep_view(),
                    tv.len() == texts@.len(),
                    forall|m: int| 0 <= m < tv.len() ==> #[trigger] tv[m] == texts@[m]@,
                    tv.len() == spec_rows_float_reqs(dv).len(),
                    k < self.size,
                    i <= rowp@.len(),
                    rowp == &self.pieces[k as int],
                    pv == pieces_view(rowp@),
                    dv[k as int].pieces == pv,
                    base == spec_rows_float_reqs(dv.take(k as int)).len(),
                    j == base + spec_float_reqs(pv.take(i as int)).len(),
                    t@ == spec_splice(pv.take(i as int), tv, base),
                decreases rowp@.len() - i,
            {
                proof {
                    assert(pv.take(i + 1).drop_last() =~= pv.take(i as int));
                    assert(pv.take(i + 1).last() == pv[i as int]);
                    assert(pv[i as int] == rowp@[i as int]@);
                }
                match piece_text(&rowp[i]) {
                    Some(s) => {
                        t.append(s.as_str());
                    },
                    None => {
                        proof {
                            lemma_float_reqs_take_le(pv, i + 1);
                            lemma_rows_reqs_take_le(dv, k + 1);
                            assert(dv.take(k + 1).drop_last() =~= dv.take(k as int));
                            assert(dv.take(k + 1).last() == dv[k as int]);
                            assert(spec_rows_float_reqs(dv.take(k + 1)).len() == base
                                + spec_float_reqs(pv).len());
                            assert(j < texts.len());
                        }
                        t.append(texts[j].as_str());
                        j = j + 1;
                    },
                }
                proof {
                    assert(t@ =~= spec_splice(pv.take(i + 1), tv, base));
                }
                i = i + 1;
            }
            proof {
                assert(pv.take(rowp@.len() as int) =~= pv);
                assert(dv.take(k + 1).drop_last() =~= dv.take(k as int));
                assert(dv.take(k + 1).last() == dv[k as int]);
            }
            payloads.push(t);
            k = k + 1;
        }
        proof {
            assert(dv.take(self.size as int) =~= dv);
        }
        let DltDraft {
            seconds,
            microseconds,
            ecus,
            htyps,
            mcnts,
            lens,
            seids,
            tmsps,
            msins,
            noars,
            apids,
            ctids,
            message_types,
            log_infos,
            service_id_names,
            return_types,
            pieces,
            size,
        } = self;
        let d = Dlt {
            seconds,
            microseconds,
            ecus,
            htyps,
            mcnts,
            lens,
            seids,
            tmsps,
            msins,
            noars,
            apids,
            ctids,
            message_types,
            log_infos,
            service_id_names,
            return_types,
            payloads,
            size,
        };
        proof {
            assert forall|k2: int| 0 <= k2 < size as int implies d.spec_row(k2) == spec_resolve(
                dv[k2],
                tv,
                spec_rows_float_reqs(dv.take(k2)).len() as int,
            ) by {
                assert(dv[k2] == RecordV {
                    seconds: d.seconds@[k2],
                    microseconds: d.microseconds@[k2] as int,
                    ecu: d.ecus@[k2]@,
                    htyp: d.htyps@[k2],
                    mcnt: d.mcnts@[k2],
                    dlen: d.lens@[k2],
                    seid: d.seids@[k2],
                    tmsp: d.tmsps@[k2],
                    msin: d.msins@[k2],
                    noar: d.noars@[k2],
                    apid: d.apids@[k2]@,
                    ctid: d.ctids@[k2]@,
                    message_type: d.message_types@[k2]@,
                    log_info: d.log_infos@[k2]@,
                    service_id_name: d.service_id_names@[k2]@,
                    return_type: d.return_types@[k2]@,
                    pieces: dv[k2].pieces,
                });
            }
            assert(d@ =~= spec_resolve_rows(dv, tv));
        }
        d
    }
}

/// The finished record store: every column final, one entry per message,
/// shared message index, read-only.
pub struct Dlt {
    seconds: Vec<u32>,
    microseconds: Vec<i32>,
    ecus: Vec<String>,
    htyps: Vec<u8>,
    mcnts: Vec<u8>,
    lens: Vec<u16>,
    seids: Vec<u32>,
    tmsps: Vec<u32>,
    msins: Vec<u8>,
    noars: Vec<u8>,
    apids: Vec<String>,
    ctids: Vec<String>,
    message_types: Vec<String>,
    log_infos: Vec<String>,
    service_id_names: Vec<String>,
    return_types: Vec<String>,
    payloads: Vec<String>,
    size: usize,
}

impl Dlt {
    /// Every column holds exactly one entry per message.
    #[verifier::type_invariant]
    pub closed spec fn wf(&self) -> bool {
        self.seconds@.len() == self.size && self.microseconds@.len() == self.size
            && self.ecus@.len() == self.size && self.htyps@.len() == self.size
            && self.mcnts@.len() == self.size && self.lens@.len() == self.size
            && self.seids@.len() == self.size && self.tmsps@.len() == self.size
            && self.msins@.len() == self.size && self.noars@.len() == self.size
            && self.apids@.len() == self.size && self.ctids@.len() == self.size
            && self.message_types@.len() == self.size && self.log_infos@.len() == self.size
            && self.service_id_names@.len() == self.size && self.return_types@.len() == self.size
            && self.payloads@.len() == self.size
    }

    /// Row `k`, reassembled from the columns.
    pub closed spec fn spec_row(&self, k: int) -> RowV {
        RowV {
            seconds: self.seconds@[k],
            microseconds: self.microseconds@[k] as int,
            ecu: self.ecus@[k]@,
            htyp: self.htyps@[k],
            mcnt: self.mcnts@[k],
            dlen: self.lens@[k],
            seid: self.seids@[k],
            tmsp: self.tmsps@[k],
            msin: self.msins@[k],
            noar: self.noars@[k],
            apid: self.apids@[k]@,
            ctid: self.ctids@[k]@,
            message_type: self.message_types@[k]@,
            log_info: self.log_infos@[k]@,
            service_id_name: self.service_id_names@[k]@,
            return_type: self.return_types@[k]@,
            payload: self.payloads@[k]@,
        }
    }

    /// The application id column: one 4-character id per message.
    pub fn apids(&self) -> (r: &Vec<String>)
        ensures
            r@.len() == self@.len(),
            forall|k: int| 0 <= k < self@.len() ==> (#[trigger] r@[k])@ == self@[k].apid,
    {
        proof {
            use_type_invariant(self);
        }
        &self.apids
    }

    /// The context id column: one 4-character id per message.
    pub fn ctids(&self) -> (r: &Vec<String>)
        ensures
            r@.len() == self@.len(),
            forall|k: int| 0 <= k < self@.len() ==> (#[trigger] r@[k])@ == self@[k].ctid,
    {
        proof {
            use_type_invariant(self);
        }
        &self.ctids
    }

    /// The rendered payload column: one text per message.
    pub fn payloads(&self) -> (r: &Vec<String>)
        ensures
            r@.len() == self@.len(),
            forall|k: int| 0 <= k < self@.len() ==> (#[trigger] r@[k])@ == self@[k].payload,
    {
        proof {
            use_type_invariant(self);
        }
        &self.payloads
    }

    /// How many messages the store holds; every column has exactly this
    /// many entries.
    pub fn size(&self) -> (r: usize)
        ensures
            r == self@.len(),
    {
        proof {
            use_type_invariant(self);
        }
        self.size
    }
}

impl View for Dlt {
    type V = Seq<RowV>;

    closed spec fn view(&self) -> Seq<RowV> {
        Seq::new(self.size as nat, |k: int| self.spec_row(k))
    }
}

/// The total byte size of the given file contents.
pub open spec fn spec_total_size(files: Seq<Seq<u8>>) -> int
    decreases files.len(),
{
    if files.len() == 0 {
        0
    } else {
        spec_total_size(files.drop_last()) + files.last().len()
    }
}

/// A prefix of the files never holds more bytes than all of them.
proof fn lemma_total_size_take_le(files: Seq<Seq<u8>>, k: int)
    requires
        0 <= k <= files.len(),
    ensures
        spec_total_size(files.take(k)) <= spec_total_size(files),
    decreases files.len(),
{
    if k == files.len() {
        assert(files.take(k) =~= files);
    } else {
        lemma_total_size_take_le(files.drop_last(), k);
        assert(files.take(k) =~= files.drop_last().take(k));
    }
}

/// The total size is never negative.
proof fn lemma_total_size_nonneg(files: Seq<Seq<u8>>)
    ensures
        spec_total_size(files) >= 0,
    decreases files.len(),
{
    if files.len() > 0 {
        lemma_total_size_nonneg(files.drop_last());
    }
}

/// The summed byte size of the given file contents.
pub fn get_files_size(files: &Vec<Vec<u8>>) -> (r: u64)
    requires
        spec_total_size(files.deep_view()) <= u64::MAX,
    ensures
        r == spec_total_size(files.deep_view()),
{
    let ghost fs = files.deep_view();
    let mut r: u64 = 0;
    let mut f: usize = 0;
    proof {
        assert(fs.take(0) =~= Seq::<Seq<u8>>::empty());
    }
    while f < files.len()
        invariant
            f <= files@.len(),
            fs == files.deep_view(),
            spec_total_size(fs) <= u64::MAX,
            r == spec_total_size(fs.take(f as int)),
        decreases files@.len() - f,
    {
        let n = files[f].len();
        proof {
            lemma_total_size_take_le(fs, f + 1);
            lemma_total_size_nonneg(fs.take(f as int));
            assert(fs.take(f + 1).drop_last() =~= fs.take(f as int));
            assert(fs.take(f + 1).last() == fs[f as int]);
            assert(fs[f as int] == files@[f as int]@);
            assert(spec_total_size(fs.take(f + 1)) == spec_total_size(fs.take(f as int)) + n);
        }
        r = r + (n as u64);
        f = f + 1;
    }
    proof {
        assert(fs.take(files@.len() as int) =~= fs);
    }
    r
}

} // verus!
