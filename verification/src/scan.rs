//! The message boundary scanner: every DLT message begins at an occurrence
//! of the 4-byte marker, and runs to the next occurrence or to the end of
//! the file. The scanner yields the ordered list of marker positions.

use vstd::prelude::*;

verus! {

/// The needle occurs in the haystack at position `i`.
pub open spec fn spec_match_at(h: Seq<u8>, n: Seq<u8>, i: int) -> bool {
    0 <= i && i + n.len() <= h.len() && h.subrange(i, i + n.len()) == n
}

/// All positions at or after `i` where the needle occurs, in increasing
/// order.
pub open spec fn spec_positions_from(h: Seq<u8>, n: Seq<u8>, i: int) -> Seq<int>
    decreases h.len() - i,
    when 0 <= i && n.len() >= 1
{
    if i + n.len() > h.len() {
        Seq::<int>::empty()
    } else if spec_match_at(h, n, i) {
        seq![i] + spec_positions_from(h, n, i + 1)
    } else {
        spec_positions_from(h, n, i + 1)
    }
}

/// All positions where the needle occurs in the haystack.
pub open spec fn spec_positions(h: Seq<u8>, n: Seq<u8>) -> Seq<int> {
    spec_positions_from(h, n, 0)
}

/// The four marker bytes that begin every DLT message.
pub open spec fn spec_marker() -> Seq<u8> {
    seq![0x44u8, 0x4cu8, 0x54u8, 0x01u8]
}

/// The four marker bytes that begin every DLT message.
pub fn dlt_marker() -> (r: Vec<u8>)
    ensures
        r@ == spec_marker(),
{
    let mut r: Vec<u8> = Vec::new();
    r.push(0x44);
    r.push(0x4c);
    r.push(0x54);
    r.push(0x01);
    proof {
        assert(r@ =~= spec_marker());
    }
    r
}

/// Relies on `memchr::memmem::find`: returns the index of the first
/// occurrence of the needle, here searched for in the suffix of the
/// haystack that starts at `from`, with the index relative to that suffix.
#[verifier::external_body]
fn find_in_suffix(haystack: &Vec<u8>, from: usize, needle: &Vec<u8>) -> (r: Option<usize>)
    requires
        from <= haystack@.len(),
        needle@.len() >= 1,
    ensures
        match r {
            Some(i) => from + i + needle@.len() <= haystack@.len() && spec_match_at(
                haystack@,
                needle@,
                from + i,
            ) && forall|j: int| from <= j < from + i ==> !spec_match_at(haystack@, needle@, j),
            None => forall|j: int| from <= j ==> !spec_match_at(haystack@, needle@, j),
        },
{
    memchr::memmem::find(&haystack[from..], needle)
}

/// Positions with no occurrence contribute nothing to the position list.
proof fn lemma_positions_skip(h: Seq<u8>, n: Seq<u8>, a: int, b: int)
    requires
        0 <= a <= b,
        n.len() >= 1,
        forall|j: int| a <= j < b ==> !spec_match_at(h, n, j),
    ensures
        spec_positions_from(h, n, a) == spec_positions_from(h, n, b),
    decreases b - a,
{
    if a < b {
        lemma_positions_skip(h, n, a + 1, b);
    }
}

/// The position list is strictly increasing, and every position starts a
/// full occurrence of the needle inside the haystack.
pub proof fn lemma_positions_props(h: Seq<u8>, n: Seq<u8>, i: int)
    requires
        0 <= i,
        n.len() >= 1,
    ensures
        forall|k: int|
            0 <= k < spec_positions_from(h, n, i).len() ==> i <= #[trigger] spec_positions_from(
                h,
                n,
                i,
            )[k] && spec_positions_from(h, n, i)[k] + n.len() <= h.len(),
        forall|k1: int, k2: int|
            0 <= k1 < k2 < spec_positions_from(h, n, i).len() ==> #[trigger] spec_positions_from(
                h,
                n,
                i,
            )[k1] < #[trigger] spec_positions_from(h, n, i)[k2],
    decreases h.len() - i,
{
    let ps = spec_positions_from(h, n, i);
    if i + n.len() > h.len() {
    } else {
        lemma_positions_props(h, n, i + 1);
        let rest = spec_positions_from(h, n, i + 1);
        if spec_match_at(h, n, i) {
            assert forall|k: int| 0 <= k < ps.len() implies i <= #[trigger] ps[k] && ps[k]
                + n.len() <= h.len() by {
                if k == 0 {
                } else {
                    assert(ps[k] == rest[k - 1]);
                }
            }
            assert forall|k1: int, k2: int| 0 <= k1 < k2 < ps.len() implies #[trigger] ps[k1]
                < #[trigger] ps[k2] by {
                assert(ps[k2] == rest[k2 - 1]);
                if k1 > 0 {
                    assert(ps[k1] == rest[k1 - 1]);
                }
            }
        } else {
            assert(ps =~= rest);
        }
    }
}

/// The ordered list of all marker positions in the buffer.
pub fn find_marker_positions(bytes: &Vec<u8>, marker: &Vec<u8>) -> (r: Vec<usize>)
    requires
        marker@.len() >= 1,
    ensures
        r@.map_values(|p: usize| p as int) == spec_positions(bytes@, marker@),
{
    let mut res: Vec<usize> = Vec::new();
    let mut from: usize = 0;
    let n = bytes.len();
    proof {
        assert(res@.map_values(|p: usize| p as int) =~= Seq::<int>::empty());
    }
    loop
        invariant
            from <= n,
            n == bytes@.len(),
            marker@.len() >= 1,
            spec_positions(bytes@, marker@) == res@.map_values(|p: usize| p as int)
                + spec_positions_from(bytes@, marker@, from as int),
        ensures
            res@.map_values(|p: usize| p as int) == spec_positions(bytes@, marker@),
        decreases n - from,
    {
        match find_in_suffix(bytes, from, marker) {
            None => {
                proof {
                    lemma_positions_skip(bytes@, marker@, from as int, n + 1);
                    assert(spec_positions_from(bytes@, marker@, n + 1)
                        =~= Seq::<int>::empty());
                    assert(res@.map_values(|p: usize| p as int) + Seq::<int>::empty()
                        =~= res@.map_values(|p: usize| p as int));
                }
                break;
            },
            Some(i) => {
                let pos = from + i;
                proof {
                    lemma_positions_skip(bytes@, marker@, from as int, pos as int);
                    let prev = res@.map_values(|p: usize| p as int);
                    assert(res@.push(pos).map_values(|p: usize| p as int) =~= prev + seq![
                        pos as int,
                    ]);
                    assert(prev + (seq![pos as int] + spec_positions_from(
                        bytes@,
                        marker@,
                        pos + 1,
                    )) =~= (prev + seq![pos as int]) + spec_positions_from(
                        bytes@,
                        marker@,
                        pos + 1,
                    ));
                }
                res.push(pos);
                from = pos + 1;
            },
        }
    }
    res
}

} // verus!
