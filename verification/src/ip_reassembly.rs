//! IPv4 fragment reassembly: fragments are buffered per (source,
//! destination, identification, protocol) key, inserted in offset order with
//! duplicate offsets overwriting, and the reconstructed datagram is handed
//! back as soon as the set tiles the declared total length without a gap.
//! Sets untouched for longer than the reassembly timeout are purged.

use vstd::prelude::*;
use vstd::map::*;
use crate::ip_header::IpHeader;
use crate::ip_header::more_fragments;
use crate::ip_header::fragment_offset_bytes;
use crate::ip_header::is_unfragmented;
use crate::ip_header::header_more_fragments;
use crate::ip_header::header_fragment_offset_bytes;
use crate::ip_header::lemma_u16_and_le;
use crate::byte_ops::append_bytes;
use crate::byte_ops::subrange_vec;

verus! {

/// Seconds a fragment set may sit untouched before cleanup purges it.
pub const REASSEMBLY_TIMEOUT_SECS: u64 = 30;

/// The key a fragment set is buffered under.
#[derive(Clone, Copy, PartialEq, Eq, Structural, Hash, Debug)]
pub struct FragKey {
    pub src_ip: u32,
    pub dst_ip: u32,
    pub ident: u16,
    pub protocol: u8,
}

/// The key of the datagram a header belongs to.
pub open spec fn frag_key(h: IpHeader) -> FragKey {
    FragKey {
        src_ip: h.src_ip,
        dst_ip: h.dst_ip,
        ident: h.identification,
        protocol: h.protocol,
    }
}

/// One stored fragment: its byte offset within the original datagram, and
/// its bytes.
pub struct Fragment {
    pub offset: u32,
    pub data: Vec<u8>,
}

/// The mathematical value of one fragment.
pub struct FragModel {
    pub offset: u32,
    pub data: Seq<u8>,
}

impl View for Fragment {
    type V = FragModel;

    open spec fn view(&self) -> FragModel {
        FragModel { offset: self.offset, data: self.data@ }
    }
}

/// The mathematical state of one fragment set.
pub struct FragSetModel {
    /// The stored fragments, strictly ordered by offset.
    pub frags: Seq<FragModel>,
    /// Whether the final fragment (more-fragments clear) has been seen.
    pub final_seen: bool,
    /// The declared total length: the end of the final fragment.
    pub total_len: u64,
    /// When the set was last touched.
    pub last_update: u64,
}

/// A fresh, empty set.
pub open spec fn empty_set() -> FragSetModel {
    FragSetModel { frags: Seq::empty(), final_seen: false, total_len: 0, last_update: 0 }
}

/// Offsets strictly increase left to right.
pub open spec fn frags_sorted(fs: Seq<FragModel>) -> bool {
    forall|i: int, j: int|
        0 <= i < j < fs.len() ==> (#[trigger] fs[i]).offset < (#[trigger] fs[j]).offset
}

/// Every stored fragment fits the wire limits: a 13-bit offset in 8-byte
/// units, and a payload no longer than an IPv4 datagram.
pub open spec fn frags_bounded(fs: Seq<FragModel>) -> bool {
    forall|i: int|
        0 <= i < fs.len() ==> (#[trigger] fs[i]).offset <= 0xfff8 && fs[i].data.len() <= 0xffff
}

pub open spec fn set_wf(m: FragSetModel) -> bool {
    frags_sorted(m.frags) && frags_bounded(m.frags)
}

/// The fragments as a map from offset to bytes: what the set holds,
/// independently of arrival order.
pub open spec fn frag_entries(fs: Seq<FragModel>) -> Map<u32, Seq<u8>>
    decreases fs.len(),
{
    if fs.len() == 0 {
        Map::empty()
    } else {
        frag_entries(fs.drop_last()).insert(fs.last().offset, fs.last().data)
    }
}

/// Where a fragment with this offset belongs: the number of stored fragments
/// that lie strictly before it.
pub open spec fn insert_pos(fs: Seq<FragModel>, off: u32) -> int
    decreases fs.len(),
{
    if fs.len() == 0 {
        0
    } else if fs[0].offset >= off {
        0
    } else {
        1 + insert_pos(fs.skip(1), off)
    }
}

/// The fragment sequence after inserting `f` in offset order; an equal
/// offset overwrites.
pub open spec fn frags_after_insert(fs: Seq<FragModel>, f: FragModel) -> Seq<FragModel> {
    let p = insert_pos(fs, f.offset);
    if p < fs.len() && fs[p].offset == f.offset {
        fs.update(p, f)
    } else {
        fs.insert(p, f)
    }
}

/// The set after one fragment arrives at time `now`.
pub open spec fn set_after_insert(
    m: FragSetModel,
    off: u32,
    data: Seq<u8>,
    more: bool,
    now: u64,
) -> FragSetModel {
    FragSetModel {
        frags: frags_after_insert(m.frags, FragModel { offset: off, data }),
        final_seen: m.final_seen || !more,
        total_len: if !more {
            (off + data.len()) as u64
        } else {
            m.total_len
        },
        last_update: now,
    }
}

pub proof fn lemma_insert_pos_props(fs: Seq<FragModel>, off: u32)
    ensures
        0 <= insert_pos(fs, off) <= fs.len(),
        forall|i: int| 0 <= i < insert_pos(fs, off) ==> (#[trigger] fs[i]).offset < off,
        insert_pos(fs, off) < fs.len() ==> fs[insert_pos(fs, off)].offset >= off,
    decreases fs.len(),
{
    if fs.len() > 0 && fs[0].offset < off {
        lemma_insert_pos_props(fs.skip(1), off);
        let p = insert_pos(fs, off);
        assert forall|i: int| 0 <= i < p implies (#[trigger] fs[i]).offset < off by {
            if i > 0 {
                assert(fs.skip(1)[i - 1] == fs[i]);
            }
        }
        if p < fs.len() {
            assert(fs.skip(1)[p - 1] == fs[p]);
        }
    }
}

/// `insert_pos` is the only position with all smaller offsets before it and
/// no smaller offset at or after it.
pub proof fn lemma_insert_pos_unique(fs: Seq<FragModel>, off: u32, p: int)
    requires
        0 <= p <= fs.len(),
        forall|i: int| 0 <= i < p ==> (#[trigger] fs[i]).offset < off,
        p < fs.len() ==> fs[p].offset >= off,
    ensures
        insert_pos(fs, off) == p,
    decreases fs.len(),
{
    if fs.len() > 0 && fs[0].offset < off {
        assert(forall|i: int| 0 <= i < fs.skip(1).len() ==> fs.skip(1)[i] == fs[i + 1]);
        lemma_insert_pos_unique(fs.skip(1), off, p - 1);
    }
}

pub proof fn lemma_sorted_after_insert(fs: Seq<FragModel>, f: FragModel)
    requires
        frags_sorted(fs),
    ensures
        frags_sorted(frags_after_insert(fs, f)),
        frags_bounded(fs) && f.offset <= 0xfff8 && f.data.len() <= 0xffff ==> frags_bounded(
            frags_after_insert(fs, f),
        ),
{
    lemma_insert_pos_props(fs, f.offset);
    let p = insert_pos(fs, f.offset);
    let out = frags_after_insert(fs, f);
    if p < fs.len() && fs[p].offset == f.offset {
        assert forall|i: int, j: int| 0 <= i < j < out.len() implies (#[trigger] out[i]).offset < (
        #[trigger] out[j]).offset by {
            assert(out[i] == if i == p {
                f
            } else {
                fs[i]
            });
            assert(out[j] == if j == p {
                f
            } else {
                fs[j]
            });
        }
    } else {
        assert forall|i: int, j: int| 0 <= i < j < out.len() implies (#[trigger] out[i]).offset < (
        #[trigger] out[j]).offset by {
            assert(out[i] == if i < p {
                fs[i]
            } else if i == p {
                f
            } else {
                fs[i - 1]
            });
            assert(out[j] == if j < p {
                fs[j]
            } else if j == p {
                f
            } else {
                fs[j - 1]
            });
        }
    }
    assert forall|i: int|
        0 <= i < out.len() && frags_bounded(fs) && f.offset <= 0xfff8 && f.data.len()
            <= 0xffff implies (#[trigger] out[i]).offset <= 0xfff8 && out[i].data.len()
        <= 0xffff by {
        if p < fs.len() && fs[p].offset == f.offset {
            assert(out[i] == if i == p {
                f
            } else {
                fs[i]
            });
        } else {
            assert(out[i] == if i < p {
                fs[i]
            } else if i == p {
                f
            } else {
                fs[i - 1]
            });
        }
    }
}

/// Inserting a fragment updates the entry map at exactly its offset.
pub proof fn lemma_entries_after_insert(fs: Seq<FragModel>, f: FragModel)
    requires
        frags_sorted(fs),
    ensures
        frag_entries(frags_after_insert(fs, f)) == frag_entries(fs).insert(f.offset, f.data),
    decreases fs.len(),
{
    lemma_insert_pos_props(fs, f.offset);
    let p = insert_pos(fs, f.offset);
    let out = frags_after_insert(fs, f);
    if fs.len() == 0 {
        assert(out =~= seq![f]);
        assert(out.len() == 1);
        assert(out.last() == f);
        assert(out.drop_last() =~= fs);
        assert(frag_entries(out) == frag_entries(fs).insert(f.offset, f.data));
    } else if p == fs.len() {
        // appended at the end
        assert(out =~= fs.push(f));
        assert(out.drop_last() =~= fs);
        assert(frag_entries(out) == frag_entries(fs).insert(f.offset, f.data));
    } else if p == fs.len() - 1 && fs[p].offset == f.offset {
        // overwrites the last fragment
        assert(out =~= fs.update(p, f));
        assert(out.drop_last() =~= fs.drop_last());
        assert(out.last() == f);
        assert(frag_entries(fs) == frag_entries(fs.drop_last()).insert(
            fs.last().offset,
            fs.last().data,
        ));
        assert(frag_entries(out) =~= frag_entries(fs).insert(f.offset, f.data));
    } else {
        // the position lies strictly before the last fragment
        let last = fs.last();
        let fsd = fs.drop_last();
        assert(forall|i: int, j: int|
            0 <= i < j < fsd.len() ==> (#[trigger] fsd[i]).offset < (#[trigger] fsd[j]).offset);
        if p < fsd.len() && fsd[p].offset == f.offset {
            assert(insert_pos(fsd, f.offset) == p) by {
                lemma_insert_pos_unique(fsd, f.offset, p);
            }
            assert(out =~= fs.update(p, f));
            assert(out.drop_last() =~= fsd.update(p, f));
            assert(out.last() == last);
            lemma_entries_after_insert(fsd, f);
            assert(frags_after_insert(fsd, f) =~= fsd.update(p, f));
            // the overwritten offset differs from the last fragment's
            assert(f.offset == fs[p].offset < last.offset);
            assert(frag_entries(out) == frag_entries(fsd).insert(f.offset, f.data).insert(
                last.offset,
                last.data,
            ));
            assert(frag_entries(fsd).insert(f.offset, f.data).insert(last.offset, last.data)
                =~= frag_entries(fsd).insert(last.offset, last.data).insert(f.offset, f.data));
        } else {
            // a true insertion before the last fragment
            assert(p < fs.len() && fs[p].offset > f.offset);
            assert(insert_pos(fsd, f.offset) == p) by {
                lemma_insert_pos_unique(fsd, f.offset, p);
            }
            assert(out =~= fs.insert(p, f));
            assert(out.drop_last() =~= fsd.insert(p, f));
            assert(out.last() == last);
            lemma_entries_after_insert(fsd, f);
            assert(frags_after_insert(fsd, f) =~= fsd.insert(p, f));
            assert(f.offset < fs[p].offset <= last.offset);
            assert(frag_entries(out) == frag_entries(fsd).insert(f.offset, f.data).insert(
                last.offset,
                last.data,
            ));
            assert(frag_entries(fsd).insert(f.offset, f.data).insert(last.offset, last.data)
                =~= frag_entries(fsd).insert(last.offset, last.data).insert(f.offset, f.data));
        }
    }
}

/// The fragments tile the range from `pos` to `total` without gap or
/// overlap: each begins exactly where the previous ended, and the last ends
/// at `total`.
pub open spec fn tiles_exact(fs: Seq<FragModel>, pos: int, total: int) -> bool
    decreases fs.len(),
{
    if fs.len() == 0 {
        pos == total
    } else {
        fs[0].offset == pos && tiles_exact(fs.skip(1), pos + fs[0].data.len(), total)
    }
}

/// A set is complete when the final fragment has arrived and the stored
/// fragments tile the declared total length from offset zero.
pub open spec fn set_complete(m: FragSetModel) -> bool {
    m.final_seen && m.frags.len() > 0 && tiles_exact(m.frags, 0, m.total_len as int)
}

/// The reconstructed datagram: the fragments' bytes in offset order.
pub open spec fn concat_frags(fs: Seq<FragModel>) -> Seq<u8>
    decreases fs.len(),
{
    if fs.len() == 0 {
        Seq::empty()
    } else {
        fs[0].data + concat_frags(fs.skip(1))
    }
}

pub open spec fn set_assembled(m: FragSetModel) -> Seq<u8> {
    concat_frags(m.frags)
}

/// The combined length of the stored fragments.
pub open spec fn sum_len(fs: Seq<FragModel>) -> int
    decreases fs.len(),
{
    if fs.len() == 0 {
        0
    } else {
        fs[0].data.len() + sum_len(fs.skip(1))
    }
}

pub proof fn lemma_sum_nonneg(fs: Seq<FragModel>)
    ensures
        sum_len(fs) >= 0,
    decreases fs.len(),
{
    if fs.len() > 0 {
        lemma_sum_nonneg(fs.skip(1));
    }
}

pub proof fn lemma_sum_last(fs: Seq<FragModel>)
    requires
        fs.len() > 0,
    ensures
        sum_len(fs) == sum_len(fs.drop_last()) + fs.last().data.len(),
    decreases fs.len(),
{
    if fs.len() == 1 {
        assert(fs.drop_last() =~= Seq::<FragModel>::empty());
        assert(fs.skip(1) =~= Seq::<FragModel>::empty());
    } else {
        lemma_sum_last(fs.skip(1));
        assert(fs.skip(1).drop_last() =~= fs.drop_last().skip(1));
        assert(fs.skip(1).last() == fs.last());
        assert(fs.drop_last()[0] == fs[0]);
    }
}

/// A complete tiling's fragments sum to the span they cover.
pub proof fn lemma_tiles_sum(fs: Seq<FragModel>, pos: int, total: int)
    requires
        tiles_exact(fs, pos, total),
    ensures
        pos + sum_len(fs) == total,
    decreases fs.len(),
{
    if fs.len() > 0 {
        lemma_tiles_sum(fs.skip(1), pos + fs[0].data.len(), total);
    }
}

/// The keys of the entry map are exactly the stored offsets.
pub proof fn lemma_entries_keys(fs: Seq<FragModel>)
    ensures
        forall|i: int|
            0 <= i < fs.len() ==> frag_entries(fs).contains_key((#[trigger] fs[i]).offset),
        forall|k: u32|
            #[trigger] frag_entries(fs).contains_key(k) ==> exists|i: int|
                0 <= i < fs.len() && (#[trigger] fs[i]).offset == k,
    decreases fs.len(),
{
    if fs.len() > 0 {
        lemma_entries_keys(fs.drop_last());
        assert forall|i: int| 0 <= i < fs.len() implies frag_entries(fs).contains_key(
            (#[trigger] fs[i]).offset,
        ) by {
            if i < fs.len() - 1 {
                assert(fs.drop_last()[i] == fs[i]);
                assert(frag_entries(fs.drop_last()).contains_key(fs[i].offset));
            }
        }
        assert forall|k: u32| #[trigger] frag_entries(fs).contains_key(k) implies exists|i: int|
            0 <= i < fs.len() && (#[trigger] fs[i]).offset == k by {
            if k == fs.last().offset {
                assert(fs[fs.len() - 1].offset == k);
            } else {
                assert(frag_entries(fs.drop_last()).contains_key(k));
                let w = choose|i: int|
                    0 <= i < fs.drop_last().len() && (#[trigger] fs.drop_last()[i]).offset == k;
                assert(fs[w].offset == k);
            }
        }
    }
}

/// In a sorted sequence each stored offset maps to that fragment's bytes.
pub proof fn lemma_entries_values(fs: Seq<FragModel>)
    requires
        frags_sorted(fs),
    ensures
        forall|i: int|
            0 <= i < fs.len() ==> frag_entries(fs)[(#[trigger] fs[i]).offset] == fs[i].data,
    decreases fs.len(),
{
    if fs.len() > 0 {
        assert(forall|i: int| 0 <= i < fs.len() - 1 ==> fs.drop_last()[i] == fs[i]);
        lemma_entries_values(fs.drop_last());
        assert forall|i: int| 0 <= i < fs.len() implies frag_entries(fs)[(
        #[trigger] fs[i]).offset] == fs[i].data by {
            if i < fs.len() - 1 {
                assert(fs[i].offset < fs[fs.len() - 1].offset);
                assert(fs.drop_last()[i] == fs[i]);
                assert(frag_entries(fs.drop_last())[fs[i].offset] == fs[i].data);
            }
        }
    }
}

/// Two sorted fragment sequences holding the same entries are the same
/// sequence: the sorted order is a canonical form, so what a set holds does
/// not depend on the order its fragments arrived in.
pub proof fn lemma_entries_determine_frags(a: Seq<FragModel>, b: Seq<FragModel>)
    requires
        frags_sorted(a),
        frags_sorted(b),
        frag_entries(a) == frag_entries(b),
    ensures
        a == b,
    decreases a.len(),
{
    lemma_entries_keys(a);
    lemma_entries_keys(b);
    if a.len() == 0 {
        if b.len() > 0 {
            assert(frag_entries(b).contains_key(b[b.len() - 1].offset));
            assert(false);
        }
        assert(a =~= b);
    } else if b.len() == 0 {
        assert(frag_entries(a).contains_key(a[a.len() - 1].offset));
        assert(false);
    } else {
        lemma_entries_values(a);
        lemma_entries_values(b);
        let ka = a.last().offset;
        let kb = b.last().offset;
        assert(frag_entries(a).contains_key(a[a.len() - 1].offset));
        assert(frag_entries(b).contains_key(b[b.len() - 1].offset));
        let wa = choose|i: int| 0 <= i < a.len() && (#[trigger] a[i]).offset == kb;
        let wb = choose|i: int| 0 <= i < b.len() && (#[trigger] b[i]).offset == ka;
        assert(a[wa].offset <= ka);
        assert(b[wb].offset <= kb);
        assert(ka == kb);
        assert(frag_entries(a)[ka] == a[a.len() - 1].data);
        assert(frag_entries(b)[kb] == b[b.len() - 1].data);
        assert(a.last().data == b.last().data);
        assert(!frag_entries(a.drop_last()).contains_key(ka)) by {
            lemma_entries_keys(a.drop_last());
            if frag_entries(a.drop_last()).contains_key(ka) {
                let w = choose|i: int|
                    0 <= i < a.drop_last().len() && (#[trigger] a.drop_last()[i]).offset == ka;
                assert(a.drop_last()[w] == a[w]);
                assert(a[w].offset < a[a.len() - 1].offset);
                assert(false);
            }
        }
        assert(!frag_entries(b.drop_last()).contains_key(kb)) by {
            lemma_entries_keys(b.drop_last());
            if frag_entries(b.drop_last()).contains_key(kb) {
                let w = choose|i: int|
                    0 <= i < b.drop_last().len() && (#[trigger] b.drop_last()[i]).offset == kb;
                assert(b.drop_last()[w] == b[w]);
                assert(b[w].offset < b[b.len() - 1].offset);
                assert(false);
            }
        }
        assert(frag_entries(a.drop_last()) =~= frag_entries(b.drop_last())) by {
            assert(frag_entries(a) == frag_entries(a.drop_last()).insert(ka, a.last().data));
            assert(frag_entries(b) == frag_entries(b.drop_last()).insert(kb, b.last().data));
            assert(frag_entries(a.drop_last()) =~= frag_entries(a).remove(ka));
            assert(frag_entries(b.drop_last()) =~= frag_entries(b).remove(kb));
        }
        assert(forall|i: int| 0 <= i < a.len() - 1 ==> a.drop_last()[i] == a[i]);
        assert(forall|i: int| 0 <= i < b.len() - 1 ==> b.drop_last()[i] == b[i]);
        lemma_entries_determine_frags(a.drop_last(), b.drop_last());
        assert(a.len() == b.len());
        assert forall|i: int| 0 <= i < a.len() implies a[i] == b[i] by {
            if i < a.len() - 1 {
                assert(a.drop_last()[i] == b.drop_last()[i]);
            } else {
                assert(a.last() =~= b.last());
            }
        }
        assert(a =~= b);
    }
}

/// `b`'s entries all appear, with the same bytes, among `a`'s.
pub open spec fn entries_contained(b: Map<u32, Seq<u8>>, a: Map<u32, Seq<u8>>) -> bool {
    forall|k: u32| #[trigger] b.contains_key(k) ==> a.contains_key(k) && a[k] == b[k]
}

pub proof fn lemma_sum_contained(a: Seq<FragModel>, b: Seq<FragModel>)
    requires
        frags_sorted(a),
        frags_sorted(b),
        entries_contained(frag_entries(b), frag_entries(a)),
    ensures
        sum_len(b) <= sum_len(a),
    decreases a.len(),
{
    lemma_entries_keys(a);
    lemma_entries_keys(b);
    if b.len() == 0 {
        lemma_sum_nonneg(a);
    } else if a.len() == 0 {
        assert(frag_entries(b).contains_key(b[b.len() - 1].offset));
        assert(false);
    } else {
        lemma_entries_values(a);
        lemma_entries_values(b);
        let ka = a.last().offset;
        let adl = a.drop_last();
        assert(forall|i: int| 0 <= i < a.len() - 1 ==> adl[i] == a[i]);
        lemma_entries_keys(adl);
        assert(!frag_entries(adl).contains_key(ka)) by {
            if frag_entries(adl).contains_key(ka) {
                let w = choose|i: int| 0 <= i < adl.len() && (#[trigger] adl[i]).offset == ka;
                assert(a[w].offset < a[a.len() - 1].offset);
                assert(false);
            }
        }
        assert(frag_entries(adl) =~= frag_entries(a).remove(ka));
        if frag_entries(b).contains_key(ka) {
            // the largest offset of a is also stored in b, necessarily last
            let bdl = b.drop_last();
            let kb = b.last().offset;
            assert(frag_entries(b).contains_key(b[b.len() - 1].offset));
            let wa = choose|i: int| 0 <= i < a.len() && (#[trigger] a[i]).offset == kb;
            let wb = choose|i: int| 0 <= i < b.len() && (#[trigger] b[i]).offset == ka;
            assert(a[wa].offset <= ka);
            assert(b[wb].offset <= kb);
            assert(ka == kb);
            assert(b.last().data == a.last().data) by {
                assert(frag_entries(b)[kb] == b[b.len() - 1].data);
                assert(frag_entries(a)[ka] == a[a.len() - 1].data);
            }
            assert(forall|i: int| 0 <= i < b.len() - 1 ==> bdl[i] == b[i]);
            lemma_entries_keys(bdl);
            assert(!frag_entries(bdl).contains_key(kb)) by {
                if frag_entries(bdl).contains_key(kb) {
                    let w = choose|i: int| 0 <= i < bdl.len() && (#[trigger] bdl[i]).offset == kb;
                    assert(b[w].offset < b[b.len() - 1].offset);
                    assert(false);
                }
            }
            assert(frag_entries(bdl) =~= frag_entries(b).remove(kb));
            assert(entries_contained(frag_entries(bdl), frag_entries(adl)));
            lemma_sum_contained(adl, bdl);
            lemma_sum_last(a);
            lemma_sum_last(b);
        } else {
            assert(entries_contained(frag_entries(b), frag_entries(adl)));
            lemma_sum_contained(adl, b);
            lemma_sum_last(a);
        }
    }
}

pub proof fn lemma_sum_contained_strict(a: Seq<FragModel>, b: Seq<FragModel>, k: u32)
    requires
        frags_sorted(a),
        frags_sorted(b),
        entries_contained(frag_entries(b), frag_entries(a)),
        frag_entries(a).contains_key(k),
        !frag_entries(b).contains_key(k),
        forall|i: int| 0 <= i < a.len() ==> (#[trigger] a[i]).data.len() > 0,
    ensures
        sum_len(b) < sum_len(a),
    decreases a.len(),
{
    lemma_entries_keys(a);
    lemma_entries_keys(b);
    lemma_entries_values(a);
    lemma_entries_values(b);
    assert(a.len() > 0);
    let ka = a.last().offset;
    let adl = a.drop_last();
    assert(forall|i: int| 0 <= i < a.len() - 1 ==> adl[i] == a[i]);
    lemma_entries_keys(adl);
    assert(!frag_entries(adl).contains_key(ka)) by {
        if frag_entries(adl).contains_key(ka) {
            let w = choose|i: int| 0 <= i < adl.len() && (#[trigger] adl[i]).offset == ka;
            assert(a[w].offset < a[a.len() - 1].offset);
            assert(false);
        }
    }
    assert(frag_entries(adl) =~= frag_entries(a).remove(ka));
    if frag_entries(b).contains_key(ka) {
        let bdl = b.drop_last();
        let kb = b.last().offset;
        assert(b.len() > 0);
        assert(frag_entries(b).contains_key(b[b.len() - 1].offset));
        let wa = choose|i: int| 0 <= i < a.len() && (#[trigger] a[i]).offset == kb;
        let wb = choose|i: int| 0 <= i < b.len() && (#[trigger] b[i]).offset == ka;
        assert(a[wa].offset <= ka);
        assert(b[wb].offset <= kb);
        assert(ka == kb);
        assert(b.last().data == a.last().data) by {
            assert(frag_entries(b)[kb] == b[b.len() - 1].data);
            assert(frag_entries(a)[ka] == a[a.len() - 1].data);
        }
        assert(forall|i: int| 0 <= i < b.len() - 1 ==> bdl[i] == b[i]);
        lemma_entries_keys(bdl);
        assert(!frag_entries(bdl).contains_key(kb)) by {
            if frag_entries(bdl).contains_key(kb) {
                let w = choose|i: int| 0 <= i < bdl.len() && (#[trigger] bdl[i]).offset == kb;
                assert(b[w].offset < b[b.len() - 1].offset);
                assert(false);
            }
        }
        assert(frag_entries(bdl) =~= frag_entries(b).remove(kb));
        assert(entries_contained(frag_entries(bdl), frag_entries(adl)));
        assert(k != ka);
        lemma_sum_contained_strict(adl, bdl, k);
        lemma_sum_last(a);
        lemma_sum_last(b);
    } else {
        assert(entries_contained(frag_entries(b), frag_entries(adl)));
        lemma_sum_last(a);
        if k == ka {
            lemma_sum_contained(adl, b);
            assert(a[a.len() - 1].data.len() > 0);
        } else {
            lemma_sum_contained_strict(adl, b, k);
        }
    }
}

/// Arrival order does not matter: two fragments with distinct offsets, at
/// most one of them final, may arrive in either order and the set then holds
/// the same entries, the same final flag and the same declared total.
pub proof fn lemma_insert_commutes(
    m: FragSetModel,
    o1: u32,
    d1: Seq<u8>,
    more1: bool,
    o2: u32,
    d2: Seq<u8>,
    more2: bool,
    t1: u64,
    t2: u64,
)
    requires
        frags_sorted(m.frags),
        o1 != o2,
        more1 || more2,
    ensures
        frag_entries(
            set_after_insert(set_after_insert(m, o1, d1, more1, t1), o2, d2, more2, t2).frags,
        ) == frag_entries(
            set_after_insert(set_after_insert(m, o2, d2, more2, t1), o1, d1, more1, t2).frags,
        ),
        set_after_insert(set_after_insert(m, o1, d1, more1, t1), o2, d2, more2, t2).final_seen
            == set_after_insert(set_after_insert(m, o2, d2, more2, t1), o1, d1, more1, t2)
            .final_seen,
        set_after_insert(set_after_insert(m, o1, d1, more1, t1), o2, d2, more2, t2).total_len
            == set_after_insert(set_after_insert(m, o2, d2, more2, t1), o1, d1, more1, t2)
            .total_len,
{
    let f1 = FragModel { offset: o1, data: d1 };
    let f2 = FragModel { offset: o2, data: d2 };
    let a1 = set_after_insert(m, o1, d1, more1, t1);
    let b1 = set_after_insert(m, o2, d2, more2, t1);
    lemma_sorted_after_insert(m.frags, f1);
    lemma_sorted_after_insert(m.frags, f2);
    lemma_entries_after_insert(m.frags, f1);
    lemma_entries_after_insert(m.frags, f2);
    lemma_entries_after_insert(a1.frags, f2);
    lemma_entries_after_insert(b1.frags, f1);
    assert(frag_entries(m.frags).insert(o1, d1).insert(o2, d2) =~= frag_entries(m.frags).insert(
        o2,
        d2,
    ).insert(o1, d1));
}

/// Two sets holding the same contents reconstruct the same datagram: the
/// payload a set yields is a function of what it holds, not of how the
/// fragments arrived.
pub proof fn lemma_same_contents_same_payload(a: FragSetModel, b: FragSetModel)
    requires
        frags_sorted(a.frags),
        frags_sorted(b.frags),
        frag_entries(a.frags) == frag_entries(b.frags),
        a.final_seen == b.final_seen,
        a.total_len == b.total_len,
    ensures
        set_complete(a) == set_complete(b),
        set_assembled(a) == set_assembled(b),
{
    lemma_entries_determine_frags(a.frags, b.frags);
}

/// A set that holds only a strict subset of a complete set's nonempty
/// fragments is never itself complete: feeding a subset yields no output.
pub proof fn lemma_subset_never_completes(a: FragSetModel, b: FragSetModel, missing: u32)
    requires
        frags_sorted(a.frags),
        frags_sorted(b.frags),
        entries_contained(frag_entries(b.frags), frag_entries(a.frags)),
        frag_entries(a.frags).contains_key(missing),
        !frag_entries(b.frags).contains_key(missing),
        forall|i: int| 0 <= i < a.frags.len() ==> (#[trigger] a.frags[i]).data.len() > 0,
        set_complete(a),
        b.final_seen ==> b.total_len == a.total_len,
    ensures
        !set_complete(b),
{
    if b.final_seen && b.frags.len() > 0 && tiles_exact(b.frags, 0, b.total_len as int) {
        lemma_tiles_sum(a.frags, 0, a.total_len as int);
        lemma_tiles_sum(b.frags, 0, b.total_len as int);
        lemma_sum_contained_strict(a.frags, b.frags, missing);
        assert(false);
    }
}

/// One buffered fragment set.
pub struct FragmentSet {
    pub fragments: Vec<Fragment>,
    pub final_seen: bool,
    pub total_len: u64,
    pub last_update: u64,
}

impl View for FragmentSet {
    type V = FragSetModel;

    open spec fn view(&self) -> FragSetModel {
        FragSetModel {
            frags: self.fragments@.map_values(|f: Fragment| f@),
            final_seen: self.final_seen,
            total_len: self.total_len,
            last_update: self.last_update,
        }
    }
}

impl FragmentSet {
    /// A fresh, empty set.
    pub fn new() -> (r: FragmentSet)
        ensures
            r@ == empty_set(),
            set_wf(r@),
    {
        let r = FragmentSet { fragments: Vec::new(), final_seen: false, total_len: 0, last_update: 0 };
        proof {
            assert(r@.frags =~= empty_set().frags);
            assert(r@ == empty_set());
        }
        r
    }

    /// Where a fragment with this offset belongs in the stored order.
    fn position_for(&self, off: u32) -> (p: usize)
        ensures
            p as int == insert_pos(self@.frags, off),
            p <= self.fragments@.len(),
    {
        let ghost v = self@.frags;
        let n = self.fragments.len();
        let mut i: usize = 0;
        while i < n && self.fragments[i].offset < off
            invariant
                i <= n,
                n == v.len(),
                v == self@.frags,
                self.fragments@.len() == v.len(),
                forall|j: int| 0 <= j < i ==> (#[trigger] v[j]).offset < off,
            decreases n - i,
        {
            assert(v[i as int] == self.fragments@[i as int]@);
            i += 1;
        }
        proof {
            if i < n {
                assert(v[i as int] == self.fragments@[i as int]@);
            }
            lemma_insert_pos_unique(v, off, i as int);
        }
        i
    }

    /// Stores one arriving fragment: inserted in offset order, overwriting a
    /// duplicate offset; a final fragment records the declared total length.
    pub fn insert_fragment(&mut self, off: u32, data: Vec<u8>, more: bool, now: u64)
        requires
            set_wf(old(self)@),
            off <= 0xfff8,
            data@.len() <= 0xffff,
        ensures
            final(self)@ == set_after_insert(old(self)@, off, data@, more, now),
            set_wf(final(self)@),
    {
        let ghost oldfrags = self@.frags;
        let ghost fm = FragModel { offset: off, data: data@ };
        let dlen = data.len();
        let p = self.position_for(off);
        let mut overwrite = false;
        if p < self.fragments.len() {
            if self.fragments[p].offset == off {
                overwrite = true;
            }
        }
        proof {
            if p < self.fragments.len() {
                assert(oldfrags[p as int] == self.fragments@[p as int]@);
            }
        }
        if overwrite {
            let ghost mid = self@.frags;
            self.fragments.remove(p);
            proof {
                assert(self@.frags =~= mid.remove(p as int));
            }
            let ghost mid2 = self@.frags;
            self.fragments.insert(p, Fragment { offset: off, data });
            proof {
                assert(self@.frags =~= mid2.insert(p as int, fm));
                assert(self@.frags =~= oldfrags.update(p as int, fm));
                assert(self@.frags =~= frags_after_insert(oldfrags, fm));
            }
        } else {
            let ghost mid = self@.frags;
            self.fragments.insert(p, Fragment { offset: off, data });
            proof {
                assert(self@.frags =~= mid.insert(p as int, fm));
                assert(self@.frags =~= frags_after_insert(oldfrags, fm));
            }
        }
        if !more {
            self.final_seen = true;
            self.total_len = (off as u64) + (dlen as u64);
        }
        self.last_update = now;
        proof {
            lemma_sorted_after_insert(oldfrags, fm);
        }
    }

    /// Whether the set now tiles the declared total length from offset zero
    /// with the final fragment seen.
    pub fn is_complete(&self) -> (r: bool)
        requires
            set_wf(self@),
        ensures
            r == set_complete(self@),
    {
        if !self.final_seen {
            return false;
        }
        let n = self.fragments.len();
        if n == 0 {
            return false;
        }
        let ghost v = self@.frags;
        let mut i: usize = 0;
        let mut pos: u64 = 0;
        proof {
            assert(v.skip(0) =~= v);
        }
        loop
            invariant
                i <= n,
                0 < n == v.len(),
                v == self@.frags,
                self.fragments@.len() == v.len(),
                set_wf(self@),
                self.final_seen,
                pos <= 0x1fff7,
                tiles_exact(v, 0, self@.total_len as int) == tiles_exact(
                    v.skip(i as int),
                    pos as int,
                    self@.total_len as int,
                ),
            decreases n - i,
        {
            if i >= n {
                proof {
                    assert(v.skip(i as int) =~= Seq::<FragModel>::empty());
                    assert(tiles_exact(v.skip(i as int), pos as int, self@.total_len as int) == (
                    pos == self@.total_len));
                }
                return pos == self.total_len;
            }
            let ghost s = v.skip(i as int);
            assert(s[0] == v[i as int]);
            assert(v[i as int] == self.fragments@[i as int]@);
            let f_off = self.fragments[i].offset;
            let f_len = self.fragments[i].data.len();
            if (f_off as u64) != pos {
                return false;
            }
            assert(v[i as int].offset <= 0xfff8 && v[i as int].data.len() <= 0xffff);
            pos = (f_off as u64) + (f_len as u64);
            proof {
                assert(s.skip(1) =~= v.skip(i as int + 1));
            }
            i += 1;
        }
    }

    /// The reconstructed datagram: every stored fragment's bytes, in offset
    /// order.
    pub fn assembled(&self) -> (r: Vec<u8>)
        ensures
            r@ == set_assembled(self@),
    {
        let ghost v = self@.frags;
        let n = self.fragments.len();
        let mut r: Vec<u8> = Vec::new();
        let mut i: usize = 0;
        proof {
            assert(v.skip(0) =~= v);
        }
        while i < n
            invariant
                i <= n,
                n == v.len(),
                v == self@.frags,
                self.fragments@.len() == v.len(),
                concat_frags(v) == r@ + concat_frags(v.skip(i as int)),
            decreases n - i,
        {
            let ghost s = v.skip(i as int);
            assert(s[0] == v[i as int]);
            assert(v[i as int] == self.fragments@[i as int]@);
            append_bytes(&mut r, self.fragments[i].data.as_slice());
            proof {
                assert(s.skip(1) =~= v.skip(i as int + 1));
                assert(concat_frags(s) == s[0].data + concat_frags(s.skip(1)));
            }
            i += 1;
        }
        proof {
            assert(v.skip(n as int) =~= Seq::<FragModel>::empty());
            assert(r@ =~= concat_frags(v));
        }
        r
    }
}

/// The first buffered set for this key.
pub open spec fn lookup_set(t: Seq<(FragKey, FragSetModel)>, k: FragKey) -> Option<int>
    decreases t.len(),
{
    if t.len() == 0 {
        None
    } else if t[0].0 == k {
        Some(0int)
    } else {
        match lookup_set(t.skip(1), k) {
            None => None,
            Some(i) => Some(i + 1),
        }
    }
}

pub proof fn lemma_lookup_set_props(t: Seq<(FragKey, FragSetModel)>, k: FragKey)
    ensures
        lookup_set(t, k) is None ==> forall|i: int| 0 <= i < t.len() ==> (#[trigger] t[i]).0 != k,
        lookup_set(t, k) matches Some(i) ==> 0 <= i < t.len() && t[i].0 == k && forall|j: int|
            0 <= j < i ==> (#[trigger] t[j]).0 != k,
    decreases t.len(),
{
    if t.len() > 0 {
        lemma_lookup_set_props(t.skip(1), k);
        match lookup_set(t, k) {
            None => {
                assert forall|i: int| 0 <= i < t.len() implies (#[trigger] t[i]).0 != k by {
                    if i > 0 {
                        assert(t.skip(1)[i - 1] == t[i]);
                    }
                }
            },
            Some(i0) => {
                if t[0].0 != k {
                    assert(t.skip(1)[i0 - 1] == t[i0]);
                    assert forall|j: int| 0 <= j < i0 implies (#[trigger] t[j]).0 != k by {
                        if j > 0 {
                            assert(t.skip(1)[j - 1] == t[j]);
                        }
                    }
                }
            },
        }
    }
}

/// Keys are unique and every buffered set is well formed.
pub open spec fn reasm_wf(t: Seq<(FragKey, FragSetModel)>) -> bool {
    (forall|i: int, j: int| 0 <= i < j < t.len() ==> (#[trigger] t[i]).0 != (#[trigger] t[j]).0)
        && (forall|i: int| 0 <= i < t.len() ==> set_wf((#[trigger] t[i]).1))
}

/// The buffer after one packet is handed to the reassembler, with what comes
/// back out: an unfragmented packet passes straight through; a fragment is
/// inserted into its key's set (created fresh if absent), and the
/// reconstructed datagram is returned, and the set dropped, as soon as the
/// set completes.
pub open spec fn process_spec(
    t: Seq<(FragKey, FragSetModel)>,
    h: IpHeader,
    payload: Seq<u8>,
    now: u64,
) -> (Seq<(FragKey, FragSetModel)>, Option<Seq<u8>>) {
    if is_unfragmented(h) {
        (t, Some(payload))
    } else {
        let k = frag_key(h);
        let prev = match lookup_set(t, k) {
            Some(i) => t[i].1,
            None => empty_set(),
        };
        let m = set_after_insert(
            prev,
            fragment_offset_bytes(h),
            payload,
            more_fragments(h),
            now,
        );
        if set_complete(m) {
            match lookup_set(t, k) {
                Some(i) => (t.remove(i), Some(set_assembled(m))),
                None => (t, Some(set_assembled(m))),
            }
        } else {
            match lookup_set(t, k) {
                Some(i) => (t.update(i, (k, m)), None),
                None => (t.push((k, m)), None),
            }
        }
    }
}

/// True when a cleanup at time `now` keeps the set: it is purged once
/// untouched for longer than the reassembly timeout.
pub open spec fn cleanup_keeps(e: (FragKey, FragSetModel), now: u64, timeout: u64) -> bool {
    !(now > e.1.last_update + timeout)
}

/// The cleanup predicate at time `now` with the given timeout.
pub open spec fn cleanup_pred(now: u64, timeout: u64) -> spec_fn((FragKey, FragSetModel)) -> bool {
    |e: (FragKey, FragSetModel)| cleanup_keeps(e, now, timeout)
}

/// After a cleanup nothing stale survives: every set still buffered was
/// touched within the reassembly timeout, so fragments of an abandoned
/// datagram are never retained indefinitely.
pub proof fn lemma_cleanup_removes_stale(t: Seq<(FragKey, FragSetModel)>, now: u64, timeout: u64)
    ensures
        forall|j: int|
            0 <= j < t.filter(cleanup_pred(now, timeout)).len() ==> cleanup_keeps(
                #[trigger] t.filter(cleanup_pred(now, timeout))[j],
                now,
                timeout,
            ),
{
    assert forall|j: int| 0 <= j < t.filter(cleanup_pred(now, timeout)).len() implies cleanup_keeps(
        #[trigger] t.filter(cleanup_pred(now, timeout))[j],
        now,
        timeout,
    ) by {
        t.lemma_filter_pred(cleanup_pred(now, timeout), j);
    }
}

/// Buffers IPv4 fragments per key until their datagram completes or times
/// out.
pub struct IpReassembler {
    pub sets: Vec<(FragKey, FragmentSet)>,
    pub timeout_secs: u64,
}

impl View for IpReassembler {
    type V = Seq<(FragKey, FragSetModel)>;

    open spec fn view(&self) -> Seq<(FragKey, FragSetModel)> {
        self.sets@.map_values(|e: (FragKey, FragmentSet)| (e.0, e.1@))
    }
}

impl IpReassembler {
    /// An empty reassembler with the given timeout in seconds.
    pub fn new(timeout_secs: u64) -> (r: IpReassembler)
        ensures
            r@ =~= Seq::<(FragKey, FragSetModel)>::empty(),
            r.timeout_secs == timeout_secs,
            reasm_wf(r@),
    {
        IpReassembler { sets: Vec::new(), timeout_secs }
    }

    /// The number of buffered fragment sets.
    pub fn len(&self) -> (r: usize)
        ensures
            r == self@.len(),
    {
        self.sets.len()
    }

    fn find(&self, k: FragKey) -> (r: Option<usize>)
        ensures
            match r {
                None => lookup_set(self@, k) is None,
                Some(i) => lookup_set(self@, k) == Some(i as int),
            },
    {
        let ghost v = self@;
        let n = self.sets.len();
        let mut i: usize = 0;
        proof {
            assert(v.skip(0) =~= v);
        }
        loop
            invariant
                i <= n,
                n == v.len(),
                v == self@,
                self@.len() == self.sets@.len(),
                lookup_set(v, k) == shift_set_match(lookup_set(v.skip(i as int), k), i as int),
            decreases n - i,
        {
            if i >= n {
                return None;
            }
            let ghost s = v.skip(i as int);
            assert(s[0] == v[i as int]);
            let e = &self.sets[i];
            let ek = e.0;
            if ek.src_ip == k.src_ip && ek.dst_ip == k.dst_ip && ek.ident == k.ident && ek.protocol
                == k.protocol {
                assert(ek == k);
                return Some(i);
            }
            proof {
                assert(s.skip(1) =~= v.skip(i as int + 1));
            }
            i += 1;
        }
    }

    /// Hands one packet to the reassembler. An unfragmented packet is
    /// returned unchanged without touching any set; a fragment is buffered,
    /// and the reconstructed datagram comes back exactly when its set
    /// completes, as `process_spec` describes. A key purged earlier starts a
    /// fresh set: fragments lost to a timeout never contribute again.
    pub fn process_fragment(&mut self, h: &IpHeader, payload: &[u8], now: u64) -> (r: Option<
        Vec<u8>,
    >)
        requires
            payload@.len() <= 0xffff,
            reasm_wf(old(self)@),
        ensures
            final(self)@ == process_spec(old(self)@, *h, payload@, now).0,
            r matches Some(v) ==> process_spec(old(self)@, *h, payload@, now).1 == Some(v@),
            r is None ==> process_spec(old(self)@, *h, payload@, now).1 is None,
            reasm_wf(final(self)@),
            final(self).timeout_secs == old(self).timeout_secs,
    {
        let more = header_more_fragments(h);
        let off = header_fragment_offset_bytes(h);
        if !more && off == 0 {
            let out = subrange_vec(payload, 0, payload.len());
            proof {
                assert(out@ =~= payload@);
            }
            return Some(out);
        }
        proof {
            lemma_u16_and_le(h.flags_fragment_offset, 0x1fff);
        }
        let k = FragKey {
            src_ip: h.src_ip,
            dst_ip: h.dst_ip,
            ident: h.identification,
            protocol: h.protocol,
        };
        let data = subrange_vec(payload, 0, payload.len());
        proof {
            assert(data@ =~= payload@);
            lemma_lookup_set_props(self@, k);
        }
        match self.find(k) {
            Some(i) => {
                let ghost oldv = self@;
                let (key, mut fs) = self.sets.remove(i);
                fs.insert_fragment(off, data, more, now);
                if fs.is_complete() {
                    let out = fs.assembled();
                    proof {
                        assert(self@ =~= oldv.remove(i as int));
                        lemma_reasm_wf_remove(oldv, i as int);
                    }
                    Some(out)
                } else {
                    self.sets.insert(i, (key, fs));
                    proof {
                        assert(self@ =~= oldv.update(i as int, (oldv[i as int].0, fs@)));
                        lemma_reasm_wf_update(oldv, i as int, fs@);
                    }
                    None
                }
            },
            None => {
                let mut fs = FragmentSet::new();
                fs.insert_fragment(off, data, more, now);
                if fs.is_complete() {
                    let out = fs.assembled();
                    Some(out)
                } else {
                    let ghost oldv = self@;
                    self.sets.push((k, fs));
                    proof {
                        assert(self@ =~= oldv.push((k, fs@)));
                        assert forall|a: int, b: int| 0 <= a < b < self@.len() implies (
                        #[trigger] self@[a]).0 != (#[trigger] self@[b]).0 by {
                            if b < self@.len() - 1 {
                                assert(self@[a] == oldv[a] && self@[b] == oldv[b]);
                            } else {
                                assert(self@[a] == oldv[a]);
                            }
                        }
                        assert forall|a: int| 0 <= a < self@.len() implies set_wf(
                            (#[trigger] self@[a]).1,
                        ) by {
                            if a < self@.len() - 1 {
                                assert(self@[a] == oldv[a]);
                            }
                        }
                    }
                    None
                }
            },
        }
    }

    /// Purges every set untouched for longer than the reassembly timeout,
    /// discarding its bytes with no output.
    pub fn cleanup(&mut self, now: u64)
        requires
            reasm_wf(old(self)@),
        ensures
            final(self)@ == old(self)@.filter(cleanup_pred(now, old(self).timeout_secs)),
            reasm_wf(final(self)@),
            final(self).timeout_secs == old(self).timeout_secs,
    {
        let ghost oldv = self@;
        let ghost pred = cleanup_pred(now, self.timeout_secs);
        let mut i: usize = 0;
        let ghost mut j: int = 0;
        proof {
            reveal(Seq::filter);
            assert(oldv.take(0).filter(pred) =~= Seq::<(FragKey, FragSetModel)>::empty());
            assert(oldv.take(0).filter(pred) + oldv.skip(0) =~= oldv);
        }
        while i < self.sets.len()
            invariant
                0 <= j <= oldv.len(),
                i == oldv.take(j).filter(pred).len(),
                self@ == oldv.take(j).filter(pred) + oldv.skip(j),
                self@.len() == self.sets@.len(),
                i <= self@.len(),
                self.timeout_secs == old(self).timeout_secs,
                pred == cleanup_pred(now, old(self).timeout_secs),
            decreases oldv.len() - j,
        {
            proof {
                reveal(Seq::filter);
                assert(oldv.skip(j)[0] == oldv[j]);
                assert(self@[i as int] == oldv[j]);
                assert(oldv.take(j + 1) =~= oldv.take(j).push(oldv[j]));
                assert(oldv.take(j + 1).drop_last() =~= oldv.take(j));
            }
            let e = &self.sets[i];
            let expired = now > e.1.last_update && now - e.1.last_update > self.timeout_secs;
            let ghost v_before = self@;
            if expired {
                assert(!pred(oldv[j]));
                self.sets.remove(i);
                proof {
                    reveal(Seq::filter);
                    assert(self@ =~= v_before.remove(i as int));
                    assert(self@ =~= oldv.take(j + 1).filter(pred) + oldv.skip(j + 1));
                }
            } else {
                assert(pred(oldv[j]));
                i += 1;
                proof {
                    reveal(Seq::filter);
                    assert(oldv.take(j + 1).filter(pred) =~= oldv.take(j).filter(pred).push(
                        oldv[j],
                    ));
                    assert(self@ =~= oldv.take(j + 1).filter(pred) + oldv.skip(j + 1));
                }
            }
            proof {
                j = j + 1;
            }
        }
        proof {
            reveal(Seq::filter);
            assert(oldv.skip(j).len() == oldv.len() - j);
            assert(j == oldv.len());
            assert(oldv.take(oldv.len() as int) =~= oldv);
            assert(self@ =~= oldv.filter(pred));
            lemma_reasm_wf_filter(oldv, pred);
        }
    }
}

/// Shifts a lookup result by `i` positions.
pub open spec fn shift_set_match(r: Option<int>, i: int) -> Option<int> {
    match r {
        None => None,
        Some(j) => Some(j + i),
    }
}

proof fn lemma_reasm_wf_remove(t: Seq<(FragKey, FragSetModel)>, i: int)
    requires
        reasm_wf(t),
        0 <= i < t.len(),
    ensures
        reasm_wf(t.remove(i)),
{
    let u = t.remove(i);
    assert forall|a: int, b: int| 0 <= a < b < u.len() implies (#[trigger] u[a]).0 != (
    #[trigger] u[b]).0 by {
        let a0 = if a < i {
            a
        } else {
            a + 1
        };
        let b0 = if b < i {
            b
        } else {
            b + 1
        };
        assert(u[a] == t[a0]);
        assert(u[b] == t[b0]);
    }
    assert forall|a: int| 0 <= a < u.len() implies set_wf((#[trigger] u[a]).1) by {
        let a0 = if a < i {
            a
        } else {
            a + 1
        };
        assert(u[a] == t[a0]);
    }
}

proof fn lemma_reasm_wf_update(t: Seq<(FragKey, FragSetModel)>, i: int, s: FragSetModel)
    requires
        reasm_wf(t),
        0 <= i < t.len(),
        set_wf(s),
    ensures
        reasm_wf(t.update(i, (t[i].0, s))),
{
    let u = t.update(i, (t[i].0, s));
    assert forall|a: int, b: int| 0 <= a < b < u.len() implies (#[trigger] u[a]).0 != (
    #[trigger] u[b]).0 by {
        assert(u[a].0 == t[a].0);
        assert(u[b].0 == t[b].0);
    }
    assert forall|a: int| 0 <= a < u.len() implies set_wf((#[trigger] u[a]).1) by {
        if a != i {
            assert(u[a] == t[a]);
        }
    }
}

proof fn lemma_reasm_filter_from(
    t: Seq<(FragKey, FragSetModel)>,
    pred: spec_fn((FragKey, FragSetModel)) -> bool,
    a: int,
)
    requires
        0 <= a < t.filter(pred).len(),
    ensures
        exists|w: int| 0 <= w < t.len() && t[w] == #[trigger] t.filter(pred)[a],
    decreases t.len(),
{
    reveal(Seq::filter);
    if t.len() > 0 {
        let f = t.filter(pred);
        let fd = t.drop_last().filter(pred);
        if pred(t.last()) && a == f.len() - 1 {
            assert(t[t.len() - 1] == f[a]);
        } else {
            lemma_reasm_filter_from(t.drop_last(), pred, a);
            let w = choose|w: int| 0 <= w < t.drop_last().len() && t.drop_last()[w] == fd[a];
            assert(t[w] == f[a]);
        }
    }
}

proof fn lemma_reasm_wf_filter(
    t: Seq<(FragKey, FragSetModel)>,
    pred: spec_fn((FragKey, FragSetModel)) -> bool,
)
    requires
        reasm_wf(t),
    ensures
        reasm_wf(t.filter(pred)),
    decreases t.len(),
{
    reveal(Seq::filter);
    if t.len() > 0 {
        lemma_reasm_wf_filter(t.drop_last(), pred);
        let f = t.filter(pred);
        let fd = t.drop_last().filter(pred);
        if pred(t.last()) {
            assert(f == fd.push(t.last()));
            assert forall|a: int, b: int| 0 <= a < b < f.len() implies (#[trigger] f[a]).0 != (
            #[trigger] f[b]).0 by {
                if b < f.len() - 1 {
                    assert(f[a] == fd[a] && f[b] == fd[b]);
                } else {
                    assert(f[b] == t.last());
                    assert(f[a] == fd[a]);
                    lemma_reasm_filter_from(t.drop_last(), pred, a);
                    let w = choose|w: int|
                        0 <= w < t.drop_last().len() && t.drop_last()[w] == fd[a];
                    assert(t[w] == fd[a]);
                    assert(t.last() == t[t.len() - 1]);
                }
            }
            assert forall|a: int| 0 <= a < f.len() implies set_wf((#[trigger] f[a]).1) by {
                if a < f.len() - 1 {
                    assert(f[a] == fd[a]);
                } else {
                    assert(f[a] == t.last());
                    assert(t.last() == t[t.len() - 1]);
                }
            }
        } else {
            assert forall|a: int| 0 <= a < f.len() implies set_wf((#[trigger] f[a]).1) by {
                assert(f[a] == fd[a]);
            }
        }
    }
}

} // verus!
