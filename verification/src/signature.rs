//! The signature engine: a keyed HMAC-SHA256 digest over the four protocol
//! frames and the auxiliary buffers, sent as lowercase hex.  An empty key
//! disables authentication entirely: every signature is accepted and the
//! empty signature is produced.

use vstd::prelude::*;

use crate::json_ser::push_bytes;

verus! {

broadcast use {vstd::std_specs::vec::group_vec_axioms, vstd::seq::group_seq_axioms};

/// The HMAC-SHA256 digest of `data` keyed by `key`.  The digest is a pure
/// function of its arguments; its value is not modelled.
pub uninterp spec fn hmac_sha256_of(key: Seq<u8>, data: Seq<u8>) -> Seq<u8>;

/// Relies on `hmac::Hmac<sha2::Sha256>` (`new_from_slice`, `update`,
/// `finalize`): the digest of `data` keyed by `key`, 32 bytes, depending on
/// the arguments alone.  HMAC accepts keys of any length, so
/// `new_from_slice` cannot fail.
#[verifier::external_body]
fn hmac_sha256(key: &[u8], data: &[u8]) -> (r: Vec<u8>)
    ensures
        r@ == hmac_sha256_of(key@, data@),
        r@.len() == 32,
{
    let mut mac = <hmac::Hmac<sha2::Sha256> as hmac::Mac>::new_from_slice(key).unwrap();
    hmac::Mac::update(&mut mac, data);
    hmac::Mac::finalize(mac).into_bytes().to_vec()
}

/// Lowercase hex of a byte string, two digits per byte.
pub open spec fn hex_of(b: Seq<u8>) -> Seq<u8>
    decreases b.len(),
{
    if b.len() == 0 {
        Seq::empty()
    } else {
        seq![
            crate::json_ser::hex_digit(b[0] / 16),
            crate::json_ser::hex_digit(b[0] % 16),
        ] + hex_of(b.drop_first())
    }
}

/// Relies on `hex::encode`: two lowercase hex digits for each input byte, in
/// order.
#[verifier::external_body]
fn hex_encode(b: &[u8]) -> (r: Vec<u8>)
    ensures
        r@ == hex_of(b@),
{
    hex::encode(b).into_bytes()
}

/// A hex string is empty exactly when its input is, and starts with a hex
/// digit otherwise.
pub proof fn lemma_hex_of_shape(b: Seq<u8>)
    ensures
        b.len() == 0 ==> hex_of(b).len() == 0,
        b.len() > 0 ==> hex_of(b).len() >= 2 && (('0' as u8 <= hex_of(b)[0] <= '9' as u8) || (
        'a' as u8 <= hex_of(b)[0] <= 'f' as u8)),
{
    if b.len() > 0 {
        assert(hex_of(b)[0] == crate::json_ser::hex_digit(b[0] / 16));
    }
}

/// The concatenation of a list of buffers.
pub open spec fn concat_bufs(bufs: Seq<Seq<u8>>) -> Seq<u8>
    decreases bufs.len(),
{
    if bufs.len() == 0 {
        Seq::empty()
    } else {
        bufs[0] + concat_bufs(bufs.drop_first())
    }
}

/// The exact bytes the digest is computed over: the four serialized frames,
/// then each auxiliary buffer, in order.
pub open spec fn mac_input(
    header: Seq<u8>,
    parent_header: Seq<u8>,
    metadata: Seq<u8>,
    content: Seq<u8>,
    buffers: Seq<Seq<u8>>,
) -> Seq<u8> {
    header + parent_header + metadata + content + concat_bufs(buffers)
}

/// The signature of a message: empty when signing is disabled, else the hex
/// digest.
pub open spec fn signature_of(
    key: Seq<u8>,
    header: Seq<u8>,
    parent_header: Seq<u8>,
    metadata: Seq<u8>,
    content: Seq<u8>,
    buffers: Seq<Seq<u8>>,
) -> Seq<u8> {
    if key.len() == 0 {
        Seq::empty()
    } else {
        hex_of(hmac_sha256_of(key, mac_input(header, parent_header, metadata, content, buffers)))
    }
}

/// Whether a claimed signature is accepted: always, when signing is
/// disabled; else exactly the recomputed signature.
pub open spec fn signature_accepted(
    key: Seq<u8>,
    header: Seq<u8>,
    parent_header: Seq<u8>,
    metadata: Seq<u8>,
    content: Seq<u8>,
    buffers: Seq<Seq<u8>>,
    claimed: Seq<u8>,
) -> bool {
    key.len() == 0 || claimed == signature_of(
        key,
        header,
        parent_header,
        metadata,
        content,
        buffers,
    )
}

/// With signing disabled, every signature value is accepted.
pub proof fn lemma_empty_key_accepts_all(
    header: Seq<u8>,
    parent_header: Seq<u8>,
    metadata: Seq<u8>,
    content: Seq<u8>,
    buffers: Seq<Seq<u8>>,
    claimed: Seq<u8>,
)
    ensures
        signature_accepted(Seq::empty(), header, parent_header, metadata, content, buffers, claimed),
{
}

/// Computes the signature over the four frames and the buffers.
pub fn sign(
    key: &[u8],
    header: &Vec<u8>,
    parent_header: &Vec<u8>,
    metadata: &Vec<u8>,
    content: &Vec<u8>,
    buffers: &Vec<Vec<u8>>,
) -> (r: Vec<u8>)
    ensures
        r@ == signature_of(key@, header@, parent_header@, metadata@, content@, buffers.deep_view()),
{
    if key.len() == 0 {
        let r: Vec<u8> = Vec::new();
        proof {
            assert(r@ =~= Seq::<u8>::empty());
        }
        return r;
    }
    let mut data: Vec<u8> = Vec::new();
    push_bytes(&mut data, header.as_slice());
    push_bytes(&mut data, parent_header.as_slice());
    push_bytes(&mut data, metadata.as_slice());
    push_bytes(&mut data, content.as_slice());
    let ghost flat = header@ + parent_header@ + metadata@ + content@;
    proof {
        assert(data@ =~= flat);
    }
    let mut i: usize = 0;
    while i < buffers.len()
        invariant
            i <= buffers@.len(),
            data@ == flat + concat_prefix(buffers.deep_view(), i as int),
        decreases buffers@.len() - i,
    {
        push_bytes(&mut data, buffers[i].as_slice());
        proof {
            lemma_concat_prefix_snoc(buffers.deep_view(), i as int);
            assert(data@ =~= flat + concat_prefix(buffers.deep_view(), i + 1int));
        }
        i = i + 1;
    }
    proof {
        lemma_concat_prefix_all(buffers.deep_view());
    }
    let digest = hmac_sha256(key, data.as_slice());
    hex_encode(digest.as_slice())
}

/// The concatenation of the first `i` buffers.
pub open spec fn concat_prefix(bufs: Seq<Seq<u8>>, i: int) -> Seq<u8>
    decreases i,
{
    if i <= 0 {
        Seq::empty()
    } else {
        concat_prefix(bufs, i - 1) + bufs[i - 1]
    }
}

pub proof fn lemma_concat_prefix_snoc(bufs: Seq<Seq<u8>>, i: int)
    requires
        0 <= i,
    ensures
        concat_prefix(bufs, i + 1) == concat_prefix(bufs, i) + bufs[i],
{
}

pub proof fn lemma_concat_prefix_all(bufs: Seq<Seq<u8>>)
    ensures
        concat_prefix(bufs, bufs.len() as int) == concat_bufs(bufs),
    decreases bufs.len(),
{
    lemma_concat_prefix_all_from(bufs, 0);
    assert(concat_prefix_from(bufs, 0) == concat_bufs(bufs)) by {
        assert(bufs.skip(0int) =~= bufs);
    }
}

/// The concatenation of the buffers from `i` on.
pub open spec fn concat_prefix_from(bufs: Seq<Seq<u8>>, i: int) -> Seq<u8> {
    concat_bufs(bufs.skip(i))
}

proof fn lemma_concat_prefix_all_from(bufs: Seq<Seq<u8>>, i: int)
    requires
        0 <= i <= bufs.len(),
    ensures
        concat_prefix(bufs, bufs.len() as int) == concat_prefix(bufs, i) + concat_bufs(
            bufs.skip(i),
        ),
    decreases bufs.len() - i,
{
    if i == bufs.len() {
        assert(bufs.skip(i).len() == 0);
        assert(concat_prefix(bufs, i) + concat_bufs(bufs.skip(i)) =~= concat_prefix(bufs, i));
    } else {
        lemma_concat_prefix_all_from(bufs, i + 1);
        lemma_concat_prefix_snoc(bufs, i);
        assert(bufs.skip(i)[0] == bufs[i]);
        assert(bufs.skip(i).drop_first() =~= bufs.skip(i + 1));
        assert(concat_bufs(bufs.skip(i)) == bufs[i] + concat_bufs(bufs.skip(i + 1)));
        assert((concat_prefix(bufs, i) + bufs[i]) + concat_bufs(bufs.skip(i + 1)) =~= concat_prefix(
            bufs,
            i,
        ) + (bufs[i] + concat_bufs(bufs.skip(i + 1))));
    }
}

/// Recomputes the signature and compares it with the claimed one.  With an
/// empty key every claimed signature is accepted.
pub fn verify(
    key: &[u8],
    header: &Vec<u8>,
    parent_header: &Vec<u8>,
    metadata: &Vec<u8>,
    content: &Vec<u8>,
    buffers: &Vec<Vec<u8>>,
    claimed: &[u8],
) -> (r: bool)
    ensures
        r == signature_accepted(
            key@,
            header@,
            parent_header@,
            metadata@,
            content@,
            buffers.deep_view(),
            claimed@,
        ),
{
    if key.len() == 0 {
        return true;
    }
    let expected = sign(key, header, parent_header, metadata, content, buffers);
    crate::bytesutil::bytes_eq(claimed, expected.as_slice())
}

/// The provable half of signature sensitivity: two messages whose parts have
/// the same lengths but differ anywhere feed different byte strings to the
/// digest.  (That the digest itself then differs is a property of HMAC, not
/// modelled here; the tests exercise it on concrete values.)
pub proof fn lemma_mac_input_injective(
    h1: Seq<u8>,
    p1: Seq<u8>,
    m1: Seq<u8>,
    c1: Seq<u8>,
    h2: Seq<u8>,
    p2: Seq<u8>,
    m2: Seq<u8>,
    c2: Seq<u8>,
    bufs: Seq<Seq<u8>>,
)
    requires
        h1.len() == h2.len(),
        p1.len() == p2.len(),
        m1.len() == m2.len(),
        c1.len() == c2.len(),
        !(h1 == h2 && p1 == p2 && m1 == m2 && c1 == c2),
    ensures
        mac_input(h1, p1, m1, c1, bufs) != mac_input(h2, p2, m2, c2, bufs),
{
    let a = mac_input(h1, p1, m1, c1, bufs);
    let b = mac_input(h2, p2, m2, c2, bufs);
    if h1 != h2 {
        let i = choose|i: int| 0 <= i < h1.len() && h1[i] != h2[i];
        assert(h1 =~= h2 ==> h1 == h2);
        assert(exists|i: int| 0 <= i < h1.len() && h1[i] != h2[i]) by {
            if forall|i: int| 0 <= i < h1.len() ==> h1[i] == h2[i] {
                assert(h1 =~= h2);
            }
        }
        let i = choose|i: int| 0 <= i < h1.len() && h1[i] != h2[i];
        assert(a[i] == h1[i]);
        assert(b[i] == h2[i]);
    } else if p1 != p2 {
        assert(exists|i: int| 0 <= i < p1.len() && p1[i] != p2[i]) by {
            if forall|i: int| 0 <= i < p1.len() ==> p1[i] == p2[i] {
                assert(p1 =~= p2);
            }
        }
        let i = choose|i: int| 0 <= i < p1.len() && p1[i] != p2[i];
        assert(a[h1.len() + i] == p1[i]);
        assert(b[h2.len() + i] == p2[i]);
    } else if m1 != m2 {
        assert(exists|i: int| 0 <= i < m1.len() && m1[i] != m2[i]) by {
            if forall|i: int| 0 <= i < m1.len() ==> m1[i] == m2[i] {
                assert(m1 =~= m2);
            }
        }
        let i = choose|i: int| 0 <= i < m1.len() && m1[i] != m2[i];
        assert(a[h1.len() + p1.len() + i] == m1[i]);
        assert(b[h2.len() + p2.len() + i] == m2[i]);
    } else {
        assert(c1 != c2);
        assert(exists|i: int| 0 <= i < c1.len() && c1[i] != c2[i]) by {
            if forall|i: int| 0 <= i < c1.len() ==> c1[i] == c2[i] {
                assert(c1 =~= c2);
            }
        }
        let i = choose|i: int| 0 <= i < c1.len() && c1[i] != c2[i];
        assert(a[h1.len() + p1.len() + m1.len() + i] == c1[i]);
        assert(b[h2.len() + p2.len() + m2.len() + i] == c2[i]);
    }
}

/// Buffer lists of the same shape that differ anywhere concatenate to
/// different byte strings of the same length.
proof fn lemma_concat_bufs_injective(bufs1: Seq<Seq<u8>>, bufs2: Seq<Seq<u8>>)
    requires
        bufs1.len() == bufs2.len(),
        forall|k: int| 0 <= k < bufs1.len() ==> (#[trigger] bufs1[k]).len() == bufs2[k].len(),
        bufs1 != bufs2,
    ensures
        concat_bufs(bufs1) != concat_bufs(bufs2),
        concat_bufs(bufs1).len() == concat_bufs(bufs2).len(),
    decreases bufs1.len(),
{
    assert(bufs1.len() > 0) by {
        if bufs1.len() == 0 {
            assert(bufs1 =~= bufs2);
        }
    }
    let c1 = concat_bufs(bufs1);
    let c2 = concat_bufs(bufs2);
    let h1 = bufs1[0];
    let h2 = bufs2[0];
    let t1 = bufs1.drop_first();
    let t2 = bufs2.drop_first();
    assert(forall|k: int| 0 <= k < t1.len() ==> (#[trigger] t1[k]).len() == t2[k].len()) by {
        assert(forall|k: int| 0 <= k < t1.len() ==> #[trigger] t1[k] == bufs1[k + 1]);
        assert(forall|k: int| 0 <= k < t2.len() ==> #[trigger] t2[k] == bufs2[k + 1]);
    }
    if h1 == h2 {
        assert(t1 != t2) by {
            if t1 == t2 {
                assert forall|k: int| 0 <= k < bufs1.len() implies #[trigger] bufs1[k]
                    == bufs2[k] by {
                    if k > 0 {
                        assert(t1[k - 1] == bufs1[k]);
                        assert(t2[k - 1] == bufs2[k]);
                    }
                }
                assert(bufs1 =~= bufs2);
            }
        }
        lemma_concat_bufs_injective(t1, t2);
        let r1 = concat_bufs(t1);
        let r2 = concat_bufs(t2);
        assert(r1 != r2 && r1.len() == r2.len());
        assert(exists|i: int| 0 <= i < r1.len() && r1[i] != r2[i]) by {
            if forall|i: int| 0 <= i < r1.len() ==> r1[i] == r2[i] {
                assert(r1 =~= r2);
            }
        }
        let i = choose|i: int| 0 <= i < r1.len() && r1[i] != r2[i];
        assert(c1[h1.len() + i] == r1[i]);
        assert(c2[h2.len() + i] == r2[i]);
    } else {
        assert(exists|i: int| 0 <= i < h1.len() && h1[i] != h2[i]) by {
            if forall|i: int| 0 <= i < h1.len() ==> h1[i] == h2[i] {
                assert(h1 =~= h2);
            }
        }
        let i = choose|i: int| 0 <= i < h1.len() && h1[i] != h2[i];
        assert(c1[i] == h1[i]);
        assert(c2[i] == h2[i]);
        lemma_concat_bufs_same_shape_len(t1, t2);
    }
}

proof fn lemma_concat_bufs_same_shape_len(bufs1: Seq<Seq<u8>>, bufs2: Seq<Seq<u8>>)
    requires
        bufs1.len() == bufs2.len(),
        forall|k: int| 0 <= k < bufs1.len() ==> (#[trigger] bufs1[k]).len() == bufs2[k].len(),
    ensures
        concat_bufs(bufs1).len() == concat_bufs(bufs2).len(),
    decreases bufs1.len(),
{
    if bufs1.len() > 0 {
        let t1 = bufs1.drop_first();
        let t2 = bufs2.drop_first();
        assert(forall|k: int| 0 <= k < t1.len() ==> (#[trigger] t1[k]).len() == t2[k].len()) by {
            assert(forall|k: int| 0 <= k < t1.len() ==> #[trigger] t1[k] == bufs1[k + 1]);
            assert(forall|k: int| 0 <= k < t2.len() ==> #[trigger] t2[k] == bufs2[k + 1]);
        }
        lemma_concat_bufs_same_shape_len(t1, t2);
    }
}

/// The remaining provable half of signature sensitivity: with the four
/// frames fixed, changing any byte of any auxiliary buffer changes the
/// bytes fed to the digest.
pub proof fn lemma_mac_input_buffers_injective(
    h: Seq<u8>,
    p: Seq<u8>,
    m: Seq<u8>,
    c: Seq<u8>,
    bufs1: Seq<Seq<u8>>,
    bufs2: Seq<Seq<u8>>,
)
    requires
        bufs1.len() == bufs2.len(),
        forall|k: int| 0 <= k < bufs1.len() ==> (#[trigger] bufs1[k]).len() == bufs2[k].len(),
        bufs1 != bufs2,
    ensures
        mac_input(h, p, m, c, bufs1) != mac_input(h, p, m, c, bufs2),
{
    lemma_concat_bufs_injective(bufs1, bufs2);
    let c1 = concat_bufs(bufs1);
    let c2 = concat_bufs(bufs2);
    assert(exists|i: int| 0 <= i < c1.len() && c1[i] != c2[i]) by {
        if forall|i: int| 0 <= i < c1.len() ==> c1[i] == c2[i] {
            assert(c1 =~= c2);
        }
    }
    let i = choose|i: int| 0 <= i < c1.len() && c1[i] != c2[i];
    let off = h.len() + p.len() + m.len() + c.len();
    assert(mac_input(h, p, m, c, bufs1)[off + i] == c1[i]);
    assert(mac_input(h, p, m, c, bufs2)[off + i] == c2[i]);
}

} // verus!
