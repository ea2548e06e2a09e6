//! Data that the consensus orders: proposals of branches of blocks to finalize.
pub mod chain_info;
pub mod compatibility;
pub mod data_interpreter;
pub mod data_provider;
pub mod data_store;
pub mod proposal;
pub mod status_provider;

use vstd::prelude::*;

use crate::compatibility::{concat_bytes, skip_bytes};
use crate::data_io::proposal::{copy_hashes, hashes_view, UnvalidatedAlephProposal};
use crate::primitives::BlockHash;
use crate::scale::{
    compact_u32, compact_u32_len, decode_bytes32, decode_compact_u32, encode_bytes32, encode_compact_u32, le_u32,
    lemma_bytes32_unique, lemma_compact_u32_unique, lemma_starts_with_concat, starts_with, Data,
};

verus! {

/// What a node proposes for ordering: the head of its branch, or nothing.
#[derive(Debug)]
pub enum AlephData {
    HeadProposal(UnvalidatedAlephProposal),
    Empty,
}

impl View for AlephData {
    /// `Some` of the proposal's view for a head proposal, `None` when empty.
    type V = Option<(Seq<[u8; 32]>, u32)>;

    open spec fn view(&self) -> Option<(Seq<[u8; 32]>, u32)> {
        match self {
            AlephData::HeadProposal(p) => Some(p@),
            AlephData::Empty => None,
        }
    }
}

/// The concatenated bytes of a sequence of hashes.
pub open spec fn flat_hashes(s: Seq<[u8; 32]>) -> Seq<u8>
    decreases s.len(),
{
    if s.len() == 0 {
        Seq::empty()
    } else {
        flat_hashes(s.drop_last()) + s.last()@
    }
}

/// The 32-byte array with the given bytes.
pub open spec fn bytes32_of(s: Seq<u8>) -> [u8; 32] {
    choose|v: [u8; 32]| v@ == s
}

/// Reading `k` hashes from the start of `bytes`: the hashes and the number of bytes taken.
pub open spec fn hashes_decoding(bytes: Seq<u8>, k: nat) -> Option<(Seq<[u8; 32]>, nat)>
    decreases k,
{
    if k == 0 {
        Some((Seq::empty(), 0))
    } else {
        match hashes_decoding(bytes, (k - 1) as nat) {
            Some((s, m)) => if m + 32 <= bytes.len() {
                Some((s.push(bytes32_of(bytes.subrange(m as int, (m + 32) as int))), m + 32))
            } else {
                None
            },
            None => None,
        }
    }
}

pub proof fn lemma_flat_hashes_len(s: Seq<[u8; 32]>)
    ensures
        flat_hashes(s).len() == 32 * s.len(),
    decreases s.len(),
{
    if s.len() > 0 {
        lemma_flat_hashes_len(s.drop_last());
    }
}

pub proof fn lemma_hashes_decoding_within(bytes: Seq<u8>, k: nat)
    ensures
        hashes_decoding(bytes, k) matches Some((s, m)) ==> m <= bytes.len() && m == 32 * k && s.len()
            == k,
    decreases k,
{
    if k > 0 {
        lemma_hashes_decoding_within(bytes, (k - 1) as nat);
    }
}

/// Reading back concatenated hashes gives the hashes.
pub proof fn lemma_hashes_roundtrip(s: Seq<[u8; 32]>, rest: Seq<u8>)
    ensures
        hashes_decoding(flat_hashes(s) + rest, s.len()) == Some((s, flat_hashes(s).len())),
    decreases s.len(),
{
    lemma_flat_hashes_len(s);
    if s.len() > 0 {
        let init = s.drop_last();
        let last = s.last();
        let rest2 = last@ + rest;
        assert(flat_hashes(s) + rest =~= flat_hashes(init) + rest2);
        lemma_hashes_roundtrip(init, rest2);
        lemma_flat_hashes_len(init);
        let bytes = flat_hashes(s) + rest;
        let m = flat_hashes(init).len();
        assert(hashes_decoding(bytes, init.len()) == Some((init, m)));
        assert(m + 32 <= bytes.len());
        assert(bytes.subrange(m as int, (m + 32) as int) =~= last@);
        lemma_bytes32_unique(last, last@);
        assert(bytes32_of(bytes.subrange(m as int, (m + 32) as int)) == last);
        assert(init.push(last) =~= s);
        assert((s.len() - 1) as nat == init.len());
        assert(hashes_decoding(bytes, s.len()) == Some((init.push(last), m + 32)));
    }
}

/// Encodes a sequence of hashes: their number in compact form, then the hashes.
/// A length beyond `u32::MAX` is cut down here to its lowest 32 bits; SCALE's own encoder
/// panics on such a length instead.
pub fn encode_hashes(v: &Vec<BlockHash>) -> (res: Vec<u8>)
    ensures
        res@ == compact_u32(v@.len() as u32) + flat_hashes(hashes_view(v@)),
{
    let mut res = encode_compact_u32(#[verifier::truncate] (v.len() as u32));
    let ghost prefix = res@;
    let mut i: usize = 0;
    while i < v.len()
        invariant
            0 <= i <= v@.len(),
            res@ == prefix + flat_hashes(hashes_view(v@.subrange(0, i as int))),
        decreases v@.len() - i,
    {
        let bytes = encode_bytes32(&v[i].0);
        res = concat_bytes(res, bytes);
        proof {
            let hv = hashes_view(v@.subrange(0, i + 1));
            assert(hv.drop_last() =~= hashes_view(v@.subrange(0, i as int)));
            assert(hv.last() == v@[i as int]@);
        }
        i = i + 1;
    }
    assert(v@.subrange(0, v@.len() as int) =~= v@);
    res
}

/// Reads `k` hashes from the start of `bytes`.
pub fn decode_hashes(bytes: &[u8], k: u32) -> (res: Option<(Vec<BlockHash>, usize)>)
    ensures
        match res {
            Some((v, m)) => hashes_decoding(bytes@, k as nat) == Some((hashes_view(v@), m as nat)),
            None => hashes_decoding(bytes@, k as nat) is None,
        },
{
    let mut res: Vec<BlockHash> = Vec::new();
    let mut pos: usize = 0;
    let mut i: u32 = 0;
    let total = bytes.len();
    while i < k
        invariant
            0 <= i <= k,
            total == bytes@.len(),
            pos <= bytes@.len(),
            hashes_decoding(bytes@, i as nat) == Some((hashes_view(res@), pos as nat)),
        decreases k - i,
    {
        let rest = skip_bytes(bytes, pos);
        match decode_bytes32(rest) {
            Some(h) => {
                proof {
                    assert(rest@.len() >= 32);
                    assert(pos + 32 <= bytes@.len());
                    assert(rest@.subrange(0, 32) =~= bytes@.subrange(pos as int, pos + 32));
                    lemma_bytes32_unique(h, bytes@.subrange(pos as int, pos + 32));
                }
                let ghost prev = res@;
                res.push(BlockHash(h));
                proof {
                    assert(hashes_view(res@) =~= hashes_view(prev).push(h));
                    let sub = bytes@.subrange(pos as int, pos + 32);
                    assert(bytes32_of(sub) == h);
                    assert(hashes_decoding(bytes@, i as nat) == Some((hashes_view(prev), pos as nat)));
                    assert(hashes_decoding(bytes@, (i + 1) as nat) == Some(
                        (hashes_view(prev).push(bytes32_of(sub)), (pos + 32) as nat),
                    ));
                }
                pos = pos + 32;
            },
            None => {
                proof {
                    lemma_hashes_decoding_is_none_after(bytes@, (i + 1) as nat, k as nat);
                }
                return None;
            },
        }
        i = i + 1;
    }
    Some((res, pos))
}

/// Once reading hashes fails, reading more of them fails too.
pub proof fn lemma_hashes_decoding_is_none_after(bytes: Seq<u8>, i: nat, k: nat)
    requires
        i <= k,
        hashes_decoding(bytes, i) is None,
    ensures
        hashes_decoding(bytes, k) is None,
    decreases k - i,
{
    if i < k {
        lemma_hashes_decoding_is_none_after(bytes, i + 1, k);
    }
}

/// Encoding of a value with view `v`: a variant byte, then for a head proposal the branch and
/// the number of its top block.
pub open spec fn aleph_data_encoding(v: Option<(Seq<[u8; 32]>, u32)>) -> Seq<u8> {
    match v {
        Some(p) => seq![0u8] + compact_u32(p.0.len() as u32) + flat_hashes(p.0) + le_u32(p.1),
        None => seq![1u8],
    }
}

/// Decoding of a value from the start of `bytes`.
pub open spec fn aleph_data_decoding(bytes: Seq<u8>) -> Option<(Option<(Seq<[u8; 32]>, u32)>, nat)> {
    if bytes.len() == 0 {
        None
    } else if bytes[0] == 1 {
        Some((None, 1))
    } else if bytes[0] == 0 {
        let r1 = bytes.subrange(1, bytes.len() as int);
        if exists|k: u32| starts_with(r1, #[trigger] compact_u32(k)) {
            let k = choose|k: u32| starts_with(r1, #[trigger] compact_u32(k));
            let c = compact_u32(k).len();
            let r2 = r1.subrange(c as int, r1.len() as int);
            match hashes_decoding(r2, k as nat) {
                Some((hs, m)) => match <u32 as Data>::decoding_of(r2.subrange(m as int, r2.len() as int)) {
                    Some((n, l)) => Some((Some((hs, n)), 1 + c + m + l)),
                    None => None,
                },
                None => None,
            }
        } else {
            None
        }
    } else {
        None
    }
}

impl AlephData {
    /// Number of bytes of the encoding.
    pub fn size_hint(&self) -> (res: usize)
        requires
            match self@ {
                Some(p) => 32 * p.0.len() + 9 <= usize::MAX,
                None => true,
            },
        ensures
            res == aleph_data_encoding(self@).len(),
    {
        match self {
            AlephData::HeadProposal(p) => {
                let len = p.branch.len();
                proof {
                    lemma_flat_hashes_len(hashes_view(p.branch@));
                }
                1 + compact_u32_len(#[verifier::truncate] (len as u32)) + 32 * len + 4
            },
            AlephData::Empty => 1,
        }
    }
}

impl Data for AlephData {
    open spec fn encoding_of(v: Option<(Seq<[u8; 32]>, u32)>) -> Seq<u8> {
        aleph_data_encoding(v)
    }

    open spec fn decoding_of(bytes: Seq<u8>) -> Option<(Option<(Seq<[u8; 32]>, u32)>, nat)> {
        aleph_data_decoding(bytes)
    }

    /// A branch longer than `u32::MAX` does not survive encoding.
    open spec fn valid_view(v: Option<(Seq<[u8; 32]>, u32)>) -> bool {
        match v {
            Some(p) => p.0.len() <= u32::MAX,
            None => true,
        }
    }

    fn encode(&self) -> (res: Vec<u8>)
    {
        match self {
            AlephData::HeadProposal(p) => {
                let mut tag: Vec<u8> = Vec::new();
                tag.push(0u8);
                assert(tag@ =~= seq![0u8]);
                let branch = encode_hashes(&p.branch);
                let res = concat_bytes(concat_bytes(tag, branch), p.number.encode());
                assert(res@ =~= aleph_data_encoding(self@));
                res
            },
            AlephData::Empty => {
                let mut tag: Vec<u8> = Vec::new();
                tag.push(1u8);
                assert(tag@ =~= seq![1u8]);
                tag
            },
        }
    }

    fn decode(bytes: &[u8]) -> (res: Option<(AlephData, usize)>) {
        if bytes.len() == 0 {
            return None;
        }
        if bytes[0] == 1 {
            return Some((AlephData::Empty, 1));
        }
        if bytes[0] != 0 {
            return None;
        }
        let total = bytes.len();
        let r1 = skip_bytes(bytes, 1);
        let k = match decode_compact_u32(r1) {
            Some(k) => k,
            None => return None,
        };
        proof {
            let kk = choose|kk: u32| starts_with(r1@, #[trigger] compact_u32(kk));
            lemma_compact_u32_unique(r1@, k, kk);
        }
        let c = compact_u32_len(k);
        let r2 = skip_bytes(r1, c);
        let (branch, m) = match decode_hashes(r2, k) {
            Some(r) => r,
            None => return None,
        };
        proof {
            lemma_hashes_decoding_within(r2@, k as nat);
        }
        let r3 = skip_bytes(r2, m);
        match <u32 as Data>::decode(r3) {
            Some((number, l)) => {
                proof {
                    <u32 as Data>::lemma_decoding_within(r3@);
                    assert(1 + c + m + l <= total);
                }
                Some((AlephData::HeadProposal(UnvalidatedAlephProposal::new(branch, number)), 1 + c + m + l))
            },
            None => None,
        }
    }

    proof fn lemma_decoding_within(bytes: Seq<u8>) {
        if bytes.len() > 0 && bytes[0] == 0 {
            let r1 = bytes.subrange(1, bytes.len() as int);
            if exists|k: u32| starts_with(r1, #[trigger] compact_u32(k)) {
                let k = choose|k: u32| starts_with(r1, #[trigger] compact_u32(k));
                let c = compact_u32(k).len();
                let r2 = r1.subrange(c as int, r1.len() as int);
                lemma_hashes_decoding_within(r2, k as nat);
                if let Some((hs, m)) = hashes_decoding(r2, k as nat) {
                    <u32 as Data>::lemma_decoding_within(r2.subrange(m as int, r2.len() as int));
                }
            }
        }
    }

    proof fn lemma_roundtrip(v: Option<(Seq<[u8; 32]>, u32)>, rest: Seq<u8>) {
        match v {
            None => {},
            Some(p) => {
                let k = p.0.len() as u32;
                let bytes = aleph_data_encoding(v) + rest;
                let r1 = bytes.subrange(1, bytes.len() as int);
                assert(r1 =~= compact_u32(k) + (flat_hashes(p.0) + le_u32(p.1) + rest));
                lemma_starts_with_concat(compact_u32(k), flat_hashes(p.0) + le_u32(p.1) + rest);
                let kk = choose|kk: u32| starts_with(r1, #[trigger] compact_u32(kk));
                lemma_compact_u32_unique(r1, k, kk);
                let r2 = r1.subrange(compact_u32(k).len() as int, r1.len() as int);
                assert(r2 =~= flat_hashes(p.0) + (le_u32(p.1) + rest));
                lemma_hashes_roundtrip(p.0, le_u32(p.1) + rest);
                let m = flat_hashes(p.0).len();
                assert(r2.subrange(m as int, r2.len() as int) =~= le_u32(p.1) + rest);
                <u32 as Data>::lemma_roundtrip(p.1, rest);
            },
        }
    }
}

} // verus!
