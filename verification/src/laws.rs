//! Properties of the decoder that hold for every input, stated over the
//! specification functions that the contracts of `store` and `message` use.

use vstd::prelude::*;

use crate::message::{
    spec_decode_args, spec_decode_nonverbose, spec_decode_one_arg, ErrorKind, PieceV, RecordV,
};
use crate::protocol::{
    DLT_TYPE_INFO_BOOL, DLT_TYPE_INFO_FIXP, DLT_TYPE_INFO_FLOA, DLT_TYPE_INFO_RAWD,
    DLT_TYPE_INFO_SINT, DLT_TYPE_INFO_STRG, DLT_TYPE_INFO_UINT, DLT_TYPE_INFO_VARI,
};
use crate::render::{spec_dec, spec_hex_join, spec_hex_trail};
use crate::store::{spec_file_records, spec_load_records, spec_splice};
use crate::wire::{spec_u16_at, spec_u32_at};

verus! {

/// Loading a list of files is the column-wise concatenation of loading its
/// two halves, in file-list order. In particular, loading the same files in
/// another order permutes the per-file row blocks exactly as the input
/// order was permuted, and nothing else.
pub proof fn lemma_load_concat(fs1: Seq<Seq<u8>>, fs2: Seq<Seq<u8>>)
    ensures
        spec_load_records(fs1 + fs2) == spec_load_records(fs1) + spec_load_records(fs2),
    decreases fs2.len(),
{
    if fs2.len() == 0 {
        assert(fs1 + fs2 =~= fs1);
        assert(spec_load_records(fs1) + spec_load_records(fs2) =~= spec_load_records(fs1));
    } else {
        lemma_load_concat(fs1, fs2.drop_last());
        assert((fs1 + fs2).drop_last() =~= fs1 + fs2.drop_last());
        assert((fs1 + fs2).last() == fs2.last());
        assert((spec_load_records(fs1) + spec_load_records(fs2.drop_last())) + spec_file_records(
            fs2.last(),
        ) =~= spec_load_records(fs1) + (spec_load_records(fs2.drop_last()) + spec_file_records(
            fs2.last(),
        )));
    }
}

/// Loading one file alone yields exactly that file's records.
pub proof fn lemma_load_single(b: Seq<u8>)
    ensures
        spec_load_records(seq![b]) == spec_file_records(b),
{
    assert(seq![b].drop_last() =~= Seq::<Seq<u8>>::empty());
    assert(seq![b].last() == b);
    assert(spec_load_records(Seq::<Seq<u8>>::empty()) + spec_file_records(b) =~= spec_file_records(
        b,
    ));
}

/// Loading two files in either order yields the same two per-file row
/// blocks, concatenated in the order the files were given.
pub proof fn lemma_load_order(a: Seq<u8>, b: Seq<u8>)
    ensures
        spec_load_records(seq![a, b]) == spec_file_records(a) + spec_file_records(b),
        spec_load_records(seq![b, a]) == spec_file_records(b) + spec_file_records(a),
{
    assert(seq![a, b] =~= seq![a] + seq![b]);
    assert(seq![b, a] =~= seq![b] + seq![a]);
    lemma_load_concat(seq![a], seq![b]);
    lemma_load_concat(seq![b], seq![a]);
    lemma_load_single(a);
    lemma_load_single(b);
}

/// A boolean verbose argument renders as `true` exactly when its value byte
/// is nonzero, and as `false` exactly when it is zero.
pub proof fn lemma_bool_argument(s: Seq<u8>)
    requires
        s.len() >= 5,
        spec_u32_at(s, 0) & DLT_TYPE_INFO_VARI == 0,
        spec_u32_at(s, 0) & DLT_TYPE_INFO_FIXP == 0,
        spec_u32_at(s, 0) & DLT_TYPE_INFO_STRG == 0,
        spec_u32_at(s, 0) & DLT_TYPE_INFO_BOOL != 0,
    ensures
        spec_decode_one_arg(s) == Ok::<(PieceV, Seq<u8>), ErrorKind>(
            (
                PieceV::TextV(
                    if s[4] != 0 {
                        "true"@
                    } else {
                        "false"@
                    },
                ),
                s.skip(5),
            ),
        ),
{
}

/// A verbose message with zero arguments renders as the empty payload.
pub proof fn lemma_zero_arguments(s: Seq<u8>, texts: Seq<Seq<char>>, j: int)
    ensures
        spec_decode_args(s, 0, true) == Ok::<Seq<PieceV>, ErrorKind>(Seq::<PieceV>::empty()),
        spec_splice(Seq::<PieceV>::empty(), texts, j) == Seq::<char>::empty(),
{
}

/// A non-verbose, non-control message with no trailer bytes renders as the
/// decimal text of its numeric id alone.
pub proof fn lemma_nonverbose_plain_id(s: Seq<u8>)
    requires
        s.len() == 4,
    ensures
        spec_decode_nonverbose(s, false, false) == Ok::<(Seq<char>, Seq<char>, Seq<char>), ErrorKind>(
            (spec_dec(spec_u32_at(s, 0) as nat), Seq::<char>::empty(), Seq::<char>::empty()),
        ),
{
    assert(s.skip(4) =~= Seq::<u8>::empty());
    assert(spec_dec(spec_u32_at(s, 0) as nat) + spec_hex_trail(Seq::<u8>::empty())
        =~= spec_dec(spec_u32_at(s, 0) as nat));
}

/// A raw-data argument renders exactly the bytes its declared length
/// covers, as lowercase two-digit hex pairs joined by single spaces, with
/// no space before the first pair.
pub proof fn lemma_raw_argument(s: Seq<u8>)
    requires
        s.len() >= 6,
        spec_u32_at(s, 0) & DLT_TYPE_INFO_VARI == 0,
        spec_u32_at(s, 0) & DLT_TYPE_INFO_FIXP == 0,
        spec_u32_at(s, 0) & DLT_TYPE_INFO_STRG == 0,
        spec_u32_at(s, 0) & DLT_TYPE_INFO_BOOL == 0,
        spec_u32_at(s, 0) & DLT_TYPE_INFO_SINT == 0,
        spec_u32_at(s, 0) & DLT_TYPE_INFO_UINT == 0,
        spec_u32_at(s, 0) & DLT_TYPE_INFO_FLOA == 0,
        spec_u32_at(s, 0) & DLT_TYPE_INFO_RAWD != 0,
        s.len() >= 6 + spec_u16_at(s, 4),
    ensures
        spec_decode_one_arg(s) == Ok::<(PieceV, Seq<u8>), ErrorKind>(
            (
                PieceV::TextV(spec_hex_join(s.subrange(6, 6 + spec_u16_at(s, 4) as int))),
                s.skip(6 + spec_u16_at(s, 4) as int),
            ),
        ),
{
}

} // verus!
