//! Directory announcement codec of the gossip file-directory protocol.
//!
//! A `FileAnnouncement` names a file and the addresses at which its
//! provider can be reached. On the wire the record is a sequence of
//! tagged, length-delimited fields — one optional filename field, then
//! one field per address, in order — and the whole serialized record is
//! wrapped in a single varint size prefix so it can be embedded in a
//! gossip payload. Decoding strips the prefix, which must cover the
//! payload exactly, then parses the fields; any failure at either layer
//! is one decode failure with no partial result.

use vstd::prelude::*;
use crate::varint::{
    spec_encode_varint, spec_decode_varint, spec_length_prefixed, lemma_decode_varint_props,
    lemma_pow128_values, lemma_varint_round_trip, decode_varint_at, encode_length_prefixed,
    copy_range, clone_bytes, PREFIX_VALUE_LIMIT, PREFIX_MAX_BYTES,
};

verus! {

/// Wire tag of the filename field: field number one, length-delimited.
pub const FILENAME_FIELD_TAG: u8 = 10;

/// Wire tag of an address field: field number two, length-delimited.
pub const ADDR_FIELD_TAG: u8 = 18;

/// A gossip-distributed record advertising that the announcing peer
/// provides `filename`, reachable at the given encoded addresses.
#[derive(Debug, Clone, PartialEq, Eq)]
pub struct FileAnnouncement {
    pub filename: Vec<u8>,
    pub addrs: Vec<Vec<u8>>,
}

/// The byte views of a list of address byte-strings.
pub open spec fn views_of_addrs(addrs: Seq<Vec<u8>>) -> Seq<Seq<u8>> {
    Seq::new(addrs.len(), |i: int| addrs[i]@)
}

/// The encoded run of address fields, one tagged length-delimited block
/// per address, in order.
pub open spec fn spec_encode_addrs(addrs: Seq<Seq<u8>>) -> Seq<u8>
    decreases addrs.len(),
{
    if addrs.len() == 0 {
        Seq::empty()
    } else {
        seq![ADDR_FIELD_TAG] + spec_length_prefixed(addrs[0])
            + spec_encode_addrs(addrs.subrange(1, addrs.len() as int))
    }
}

/// The encoded record: the filename field when the name is non-empty,
/// then the address fields.
pub open spec fn spec_encode_record(filename: Seq<u8>, addrs: Seq<Seq<u8>>) -> Seq<u8> {
    (if filename.len() == 0 {
        Seq::<u8>::empty()
    } else {
        seq![FILENAME_FIELD_TAG] + spec_length_prefixed(filename)
    }) + spec_encode_addrs(addrs)
}

/// The full announcement payload: the record wrapped in one varint size
/// prefix.
pub open spec fn spec_encode_announcement(filename: Seq<u8>, addrs: Seq<Seq<u8>>) -> Seq<u8> {
    spec_length_prefixed(spec_encode_record(filename, addrs))
}

/// Decode a run of address fields covering `s` exactly.
pub open spec fn spec_decode_addrs(s: Seq<u8>) -> Option<Seq<Seq<u8>>>
    decreases s.len(),
{
    if s.len() == 0 {
        Some(Seq::empty())
    } else if s[0] != ADDR_FIELD_TAG {
        None
    } else {
        match spec_decode_varint(s.subrange(1, s.len() as int), PREFIX_MAX_BYTES as nat) {
            None => None,
            Some(p) => {
                let l = p.0;
                let k = p.1;
                if s.len() < 1 + k + l {
                    None
                } else {
                    match spec_decode_addrs(s.subrange((1 + k + l) as int, s.len() as int)) {
                        None => None,
                        Some(rest) => Some(
                            seq![s.subrange((1 + k) as int, (1 + k + l) as int)] + rest,
                        ),
                    }
                }
            },
        }
    }
}

/// Decode a record covering `s` exactly: an optional leading filename
/// field, then address fields to the end.
pub open spec fn spec_decode_record(s: Seq<u8>) -> Option<(Seq<u8>, Seq<Seq<u8>>)> {
    if s.len() == 0 {
        Some((Seq::empty(), Seq::empty()))
    } else if s[0] == FILENAME_FIELD_TAG {
        match spec_decode_varint(s.subrange(1, s.len() as int), PREFIX_MAX_BYTES as nat) {
            None => None,
            Some(p) => {
                let l = p.0;
                let k = p.1;
                if s.len() < 1 + k + l {
                    None
                } else {
                    let f = s.subrange((1 + k) as int, (1 + k + l) as int);
                    match spec_decode_addrs(s.subrange((1 + k + l) as int, s.len() as int)) {
                        None => None,
                        Some(a) => Some((f, a)),
                    }
                }
            },
        }
    } else {
        match spec_decode_addrs(s) {
            None => None,
            Some(a) => Some((Seq::empty(), a)),
        }
    }
}

/// Decode an announcement payload: the size prefix must cover the rest
/// of `s` exactly, and the covered span must parse as a record.
pub open spec fn spec_decode_announcement(s: Seq<u8>) -> Option<(Seq<u8>, Seq<Seq<u8>>)> {
    match spec_decode_varint(s, PREFIX_MAX_BYTES as nat) {
        None => None,
        Some(p) => if s.len() == p.1 + p.0 {
            spec_decode_record(s.subrange(p.1 as int, s.len() as int))
        } else {
            None
        },
    }
}

/// Shape of one tagged length-delimited field block followed by `rest`.
proof fn lemma_field_block(tag: u8, field: Seq<u8>, rest: Seq<u8>)
    requires
        field.len() < PREFIX_VALUE_LIMIT,
    ensures
        ({
            let e = spec_encode_varint(field.len());
            let s = seq![tag] + spec_length_prefixed(field) + rest;
            &&& s.len() == 1 + e.len() + field.len() + rest.len()
            &&& s[0] == tag
            &&& spec_decode_varint(s.subrange(1, s.len() as int), 5)
                == Some((field.len(), e.len()))
            &&& s.subrange((1 + e.len()) as int, (1 + e.len() + field.len()) as int) == field
            &&& s.subrange((1 + e.len() + field.len()) as int, s.len() as int) == rest
        }),
{
    lemma_pow128_values();
    lemma_varint_round_trip(field.len(), field + rest, 5);
    let e = spec_encode_varint(field.len());
    let s = seq![tag] + spec_length_prefixed(field) + rest;
    assert(s.subrange(1, s.len() as int) =~= e + (field + rest));
    assert(s.subrange((1 + e.len()) as int, (1 + e.len() + field.len()) as int) =~= field);
    assert(s.subrange((1 + e.len() + field.len()) as int, s.len() as int) =~= rest);
}

/// Decoding an encoded run of address fields recovers the addresses.
proof fn lemma_addrs_round_trip(addrs: Seq<Seq<u8>>)
    requires
        forall|i: int| 0 <= i < addrs.len() ==> #[trigger] addrs[i].len() < PREFIX_VALUE_LIMIT,
    ensures
        spec_decode_addrs(spec_encode_addrs(addrs)) == Some(addrs),
    decreases addrs.len(),
{
    if addrs.len() == 0 {
        assert(addrs =~= Seq::<Seq<u8>>::empty());
    } else {
        let a0 = addrs[0];
        let tail = addrs.subrange(1, addrs.len() as int);
        let rest_enc = spec_encode_addrs(tail);
        lemma_field_block(ADDR_FIELD_TAG, a0, rest_enc);
        assert(forall|i: int| 0 <= i < tail.len()
            ==> #[trigger] tail[i].len() < PREFIX_VALUE_LIMIT) by {
            assert(forall|i: int| 0 <= i < tail.len() ==> tail[i] == addrs[i + 1]);
        }
        lemma_addrs_round_trip(tail);
        let s = spec_encode_addrs(addrs);
        assert(spec_decode_addrs(s) == Some(seq![a0] + tail));
        assert(seq![a0] + tail =~= addrs);
    }
}

/// Decoding an encoded record recovers the record.
proof fn lemma_record_round_trip(filename: Seq<u8>, addrs: Seq<Seq<u8>>)
    requires
        filename.len() < PREFIX_VALUE_LIMIT,
        forall|i: int| 0 <= i < addrs.len() ==> #[trigger] addrs[i].len() < PREFIX_VALUE_LIMIT,
    ensures
        spec_decode_record(spec_encode_record(filename, addrs)) == Some((filename, addrs)),
{
    lemma_addrs_round_trip(addrs);
    let ae = spec_encode_addrs(addrs);
    let s = spec_encode_record(filename, addrs);
    if filename.len() == 0 {
        assert(s =~= ae);
        if addrs.len() == 0 {
            assert(filename =~= Seq::<u8>::empty());
            assert(addrs =~= Seq::<Seq<u8>>::empty());
        } else {
            assert(ae[0] == ADDR_FIELD_TAG);
            assert(ae[0] != FILENAME_FIELD_TAG);
        }
    } else {
        lemma_field_block(FILENAME_FIELD_TAG, filename, ae);
        assert(s =~= seq![FILENAME_FIELD_TAG] + spec_length_prefixed(filename) + ae);
    }
}

/// Round trip of the directory protocol: decoding the exact bytes
/// produced by encoding a record always yields the original record, for
/// any filename and any (possibly empty) list of address byte-strings
/// within the format's five-byte length-prefix caps.
pub proof fn lemma_announcement_round_trip(filename: Seq<u8>, addrs: Seq<Seq<u8>>)
    requires
        filename.len() < PREFIX_VALUE_LIMIT,
        forall|i: int| 0 <= i < addrs.len() ==> #[trigger] addrs[i].len() < PREFIX_VALUE_LIMIT,
        spec_encode_record(filename, addrs).len() < PREFIX_VALUE_LIMIT,
    ensures
        spec_decode_announcement(spec_encode_announcement(filename, addrs))
            == Some((filename, addrs)),
{
    let r = spec_encode_record(filename, addrs);
    lemma_pow128_values();
    lemma_varint_round_trip(r.len(), r, 5);
    let e = spec_encode_varint(r.len());
    let s = spec_encode_announcement(filename, addrs);
    assert(s.subrange(e.len() as int, s.len() as int) =~= r);
    lemma_record_round_trip(filename, addrs);
}

/// Appending one address extends the encoded run by one field block.
proof fn lemma_encode_addrs_push(addrs: Seq<Seq<u8>>, x: Seq<u8>)
    ensures
        spec_encode_addrs(addrs.push(x)) == spec_encode_addrs(addrs)
            + (seq![ADDR_FIELD_TAG] + spec_length_prefixed(x)),
    decreases addrs.len(),
{
    let p = addrs.push(x);
    if addrs.len() == 0 {
        assert(p[0] == x);
        assert(p.subrange(1, p.len() as int) =~= Seq::<Seq<u8>>::empty());
        assert(spec_encode_addrs(p.subrange(1, p.len() as int)) == Seq::<u8>::empty());
        assert(spec_encode_addrs(addrs) == Seq::<u8>::empty());
        assert(spec_encode_addrs(p) =~= spec_encode_addrs(addrs)
            + (seq![ADDR_FIELD_TAG] + spec_length_prefixed(x)));
    } else {
        assert(p[0] == addrs[0]);
        assert(p.subrange(1, p.len() as int)
            =~= addrs.subrange(1, addrs.len() as int).push(x));
        lemma_encode_addrs_push(addrs.subrange(1, addrs.len() as int), x);
        assert(spec_encode_addrs(p) =~= spec_encode_addrs(addrs)
            + (seq![ADDR_FIELD_TAG] + spec_length_prefixed(x)));
    }
}

/// A copy of a list of address byte-strings; the views are unchanged.
pub fn clone_addrs(v: &Vec<Vec<u8>>) -> (out: Vec<Vec<u8>>)
    ensures
        views_of_addrs(out@) == views_of_addrs(v@),
{
    let mut out: Vec<Vec<u8>> = Vec::new();
    let mut i: usize = 0;
    while i < v.len()
        invariant
            i <= v@.len(),
            out@.len() == i,
            forall|j: int| 0 <= j < i ==> out@[j]@ == v@[j]@,
        decreases v@.len() - i,
    {
        out.push(clone_bytes(&v[i]));
        i = i + 1;
    }
    proof {
        assert(views_of_addrs(out@) =~= views_of_addrs(v@));
    }
    out
}

/// Serialize an announcement for embedding in a gossip payload.
pub fn encode_announcement(a: &FileAnnouncement) -> (out: Vec<u8>)
    ensures
        out@ == spec_encode_announcement(a.filename@, views_of_addrs(a.addrs@)),
{
    let mut rec: Vec<u8> = Vec::new();
    if a.filename.len() > 0 {
        rec.push(FILENAME_FIELD_TAG);
        let mut f = encode_length_prefixed(&a.filename);
        rec.append(&mut f);
    }
    let ghost head = rec@;
    proof {
        assert(rec@ =~= head + spec_encode_addrs(views_of_addrs(a.addrs@).subrange(0, 0)));
    }
    let mut i: usize = 0;
    while i < a.addrs.len()
        invariant
            i <= a.addrs@.len(),
            rec@ == head + spec_encode_addrs(views_of_addrs(a.addrs@).subrange(0, i as int)),
        decreases a.addrs@.len() - i,
    {
        rec.push(ADDR_FIELD_TAG);
        let mut f = encode_length_prefixed(&a.addrs[i]);
        rec.append(&mut f);
        proof {
            let vs = views_of_addrs(a.addrs@);
            lemma_encode_addrs_push(vs.subrange(0, i as int), vs[i as int]);
            assert(vs.subrange(0, i as int).push(vs[i as int]) =~= vs.subrange(0, i + 1));
            assert(rec@ =~= head + spec_encode_addrs(vs.subrange(0, i + 1)));
        }
        i = i + 1;
    }
    proof {
        let vs = views_of_addrs(a.addrs@);
        assert(vs.subrange(0, vs.len() as int) =~= vs);
        assert(rec@ =~= spec_encode_record(a.filename@, vs));
    }
    encode_length_prefixed(&rec)
}

/// Parse the record span of `s` beginning at `start`; mirrors
/// `spec_decode_record` on the corresponding suffix.
fn decode_record_at(s: &Vec<u8>, start: usize) -> (r: Option<FileAnnouncement>)
    requires
        start <= s@.len(),
    ensures
        ({
            let t = s@.subrange(start as int, s@.len() as int);
            match r {
                None => spec_decode_record(t) is None,
                Some(a) => spec_decode_record(t)
                    == Some((a.filename@, views_of_addrs(a.addrs@))),
            }
        }),
{
    let ghost t = s@.subrange(start as int, s@.len() as int);
    let mut filename: Vec<u8> = Vec::new();
    let mut pos: usize = start;
    if start == s.len() {
        let addrs: Vec<Vec<u8>> = Vec::new();
        proof {
            assert(views_of_addrs(addrs@) =~= Seq::<Seq<u8>>::empty());
        }
        return Some(FileAnnouncement { filename, addrs });
    }
    if s[start] == FILENAME_FIELD_TAG {
        assert(t[0] == FILENAME_FIELD_TAG);
        assert(t.subrange(1, t.len() as int) =~= s@.subrange(start + 1, s@.len() as int));
        match decode_varint_at(s, start + 1, PREFIX_MAX_BYTES) {
            None => {
                return None;
            },
            Some((l, k)) => {
                proof {
                    lemma_decode_varint_props(t.subrange(1, t.len() as int), 5);
                }
                if ((s.len() - (start + 1 + k)) as u64) < l {
                    assert(t.len() < 1 + k + l);
                    return None;
                }
                let flen = l as usize;
                filename = copy_range(s, start + 1 + k, start + 1 + k + flen);
                pos = start + 1 + k + flen;
                assert(filename@ =~= t.subrange((1 + k) as int, (1 + k + l) as int));
            },
        }
    }
    let ghost fview = filename@;
    let mut addrs: Vec<Vec<u8>> = Vec::new();
    proof {
        assert(views_of_addrs(addrs@) =~= Seq::<Seq<u8>>::empty());
        let u = s@.subrange(pos as int, s@.len() as int);
        if t[0] == FILENAME_FIELD_TAG {
            assert(t.subrange((t.len() - u.len()) as int, t.len() as int) =~= u);
        } else {
            assert(u =~= t);
        }
    }
    while pos < s.len()
        invariant
            start <= pos <= s@.len(),
            t == s@.subrange(start as int, s@.len() as int),
            fview == filename@,
            ({
                let u = s@.subrange(pos as int, s@.len() as int);
                match spec_decode_addrs(u) {
                    None => spec_decode_record(t) is None,
                    Some(rest) => spec_decode_record(t)
                        == Some((fview, views_of_addrs(addrs@) + rest)),
                }
            }),
        decreases s@.len() - pos,
    {
        let ghost u = s@.subrange(pos as int, s@.len() as int);
        if s[pos] != ADDR_FIELD_TAG {
            assert(u[0] != ADDR_FIELD_TAG);
            return None;
        }
        assert(u[0] == ADDR_FIELD_TAG);
        assert(u.subrange(1, u.len() as int) =~= s@.subrange(pos + 1, s@.len() as int));
        match decode_varint_at(s, pos + 1, PREFIX_MAX_BYTES) {
            None => {
                return None;
            },
            Some((l, k)) => {
                proof {
                    lemma_decode_varint_props(u.subrange(1, u.len() as int), 5);
                }
                if ((s.len() - (pos + 1 + k)) as u64) < l {
                    assert(u.len() < 1 + k + l);
                    return None;
                }
                let alen = l as usize;
                let field = copy_range(s, pos + 1 + k, pos + 1 + k + alen);
                assert(field@ =~= u.subrange((1 + k) as int, (1 + k + l) as int));
                let ghost old_addrs = addrs@;
                addrs.push(field);
                let new_pos = pos + 1 + k + alen;
                proof {
                    let u2 = s@.subrange(new_pos as int, s@.len() as int);
                    assert(u.subrange((1 + k + l) as int, u.len() as int) =~= u2);
                    assert(views_of_addrs(addrs@)
                        =~= views_of_addrs(old_addrs).push(field@));
                    match spec_decode_addrs(u2) {
                        None => {},
                        Some(rest2) => {
                            assert(spec_decode_addrs(u)
                                == Some(seq![field@] + rest2));
                            assert(views_of_addrs(old_addrs) + (seq![field@] + rest2)
                                =~= views_of_addrs(addrs@) + rest2);
                        },
                    }
                }
                pos = new_pos;
            },
        }
    }
    proof {
        let u = s@.subrange(pos as int, s@.len() as int);
        assert(u =~= Seq::<u8>::empty());
        assert(spec_decode_addrs(u) == Some(Seq::<Seq<u8>>::empty()));
        assert(views_of_addrs(addrs@) + Seq::<Seq<u8>>::empty() =~= views_of_addrs(addrs@));
    }
    Some(FileAnnouncement { filename, addrs })
}

/// Parse a gossip payload as an announcement; `None` on any malformed,
/// truncated, or over-covering input.
pub fn decode_announcement(s: &Vec<u8>) -> (r: Option<FileAnnouncement>)
    ensures
        ({
            match r {
                None => spec_decode_announcement(s@) is None,
                Some(a) => spec_decode_announcement(s@)
                    == Some((a.filename@, views_of_addrs(a.addrs@))),
            }
        }),
{
    assert(s@.subrange(0, s@.len() as int) =~= s@);
    match decode_varint_at(s, 0, PREFIX_MAX_BYTES) {
        None => None,
        Some((l, k)) => {
            proof {
                lemma_decode_varint_props(s@, 5);
            }
            if ((s.len() - k) as u64) != l {
                assert(s@.len() != k + l);
                None
            } else {
                decode_record_at(s, k)
            }
        },
    }
}

} // verus!
