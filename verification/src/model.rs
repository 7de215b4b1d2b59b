//! The persisted model: the feature table, the label and attribute
//! symbol tables and the reverse indices, together with the binary
//! `lCRF` format that stores them.
//!
//! All multi-byte integers of the format are little-endian.  Feature
//! weights are binary64 bit patterns stored as eight bytes.  The two
//! symbol tables are embedded constant-quark-database sections written
//! and read through the `cqdb` crate.

use crate::features::{Feat, FeatType};
use crate::floats::{fis_zero, fis_zero_x};
use crate::quark::Quark;
use crate::CrfError;
use vstd::prelude::*;

verus! {

/// The little-endian 32-bit value at `off`.
pub open spec fn le32(b: Seq<u8>, off: int) -> int {
    b[off] + 0x100 * b[off + 1] + 0x10000 * b[off + 2] + 0x1000000 * b[off + 3]
}

/// The little-endian 64-bit value at `off`.
pub open spec fn le64(b: Seq<u8>, off: int) -> int {
    le32(b, off) + 0x1_0000_0000 * le32(b, off + 4)
}

/// The four little-endian bytes of a 32-bit value.
pub open spec fn le32_bytes(x: u32) -> Seq<u8> {
    seq![
        (x % 0x100) as u8,
        ((x / 0x100) % 0x100) as u8,
        ((x / 0x10000) % 0x100) as u8,
        ((x / 0x1000000) % 0x100) as u8,
    ]
}

/// The eight little-endian bytes of a 64-bit value.
pub open spec fn le64_bytes(x: u64) -> Seq<u8> {
    le32_bytes((x % 0x1_0000_0000) as u32) + le32_bytes((x / 0x1_0000_0000) as u32)
}

/// Read a little-endian 32-bit value.
pub fn read_u32(b: &Vec<u8>, off: usize) -> (r: u32)
    requires
        off + 4 <= b@.len(),
    ensures
        r == le32(b@, off as int),
{
    let n = b.len();
    let b0 = b[off] as u32;
    let b1 = b[off + 1] as u32;
    let b2 = b[off + 2] as u32;
    let b3 = b[off + 3] as u32;
    b0 + 0x100 * b1 + 0x10000 * b2 + 0x1000000 * b3
}

/// Read a little-endian 64-bit value.
pub fn read_u64(b: &Vec<u8>, off: usize) -> (r: u64)
    requires
        off + 8 <= b@.len(),
    ensures
        r == le64(b@, off as int),
{
    let n = b.len();
    let lo = read_u32(b, off) as u64;
    let hi = read_u32(b, off + 4) as u64;
    lo + 0x1_0000_0000 * hi
}

/// Append the four little-endian bytes of a 32-bit value.
pub fn push_u32(v: &mut Vec<u8>, x: u32)
    ensures
        final(v)@ =~= old(v)@ + le32_bytes(x),
{
    v.push((x % 0x100) as u8);
    v.push(((x / 0x100) % 0x100) as u8);
    v.push(((x / 0x10000) % 0x100) as u8);
    v.push(((x / 0x1000000) % 0x100) as u8);
}

/// Append the eight little-endian bytes of a 64-bit value.
#[verifier::rlimit(100)]
#[verifier::spinoff_prover]
pub fn push_u64(v: &mut Vec<u8>, x: u64)
    ensures
        final(v)@ =~= old(v)@ + le64_bytes(x),
{
    push_u32(v, (x % 0x1_0000_0000) as u32);
    push_u32(v, ((x / 0x1_0000_0000) % 0x1_0000_0000) as u32);
}

/// Reading four pushed little-endian bytes gives the value back.
pub proof fn lemma_le32_round_trip(x: u32)
    by (nonlinear_arith)
    ensures
        le32(le32_bytes(x), 0) == x,
{
}

/// Reading eight pushed little-endian bytes gives the value back.
pub proof fn lemma_le64_round_trip(x: u64)
    ensures
        le64(le64_bytes(x), 0) == x,
{
    let lo = (x % 0x1_0000_0000) as u32;
    let hi = (x / 0x1_0000_0000) as u32;
    lemma_le32_round_trip(lo);
    lemma_le32_round_trip(hi);
    assert(le32(le64_bytes(x), 0) == lo as int && le32(le64_bytes(x), 4) == hi as int) by {
        assert(forall|k: int| 0 <= k < 4 ==> le32_bytes(lo)[k] == #[trigger] le64_bytes(x)[k]);
        assert(forall|k: int| 0 <= k < 4 ==> le32_bytes(hi)[k] == #[trigger] le64_bytes(x)[k + 4]);
    }
    vstd::arithmetic::div_mod::lemma_fundamental_div_mod(x as int, 0x1_0000_0000);
}

/// The 32-bit value read from anywhere is nonnegative and below 2^32.
pub proof fn lemma_le32_range(b: Seq<u8>, off: int)
    requires
        0 <= off,
        off + 4 <= b.len(),
    ensures
        0 <= le32(b, off) < 0x1_0000_0000,
{
}

/// A conservative bound on the bytes a symbol-table section takes: the
/// fixed 2072-byte header and table references, and per name its record
/// (two 4-byte fields, the key bytes, a terminator), its two hash
/// buckets (16 bytes) and its backlink (4 bytes), with every character
/// counted at the UTF-8 maximum of four bytes.
pub open spec fn cqdb_size_bound(names: Seq<Seq<char>>, n: int) -> int
    decreases n,
{
    if n <= 0 {
        2072
    } else {
        cqdb_size_bound(names, n - 1) + 29 + 4 * names[n - 1].len()
    }
}

/// The size bound only grows with more names.
pub proof fn lemma_cqdb_size_bound_mono(names: Seq<Seq<char>>, a: int, b: int)
    requires
        0 <= a <= b,
    ensures
        cqdb_size_bound(names, a) <= cqdb_size_bound(names, b),
    decreases b - a,
{
    if a < b {
        lemma_cqdb_size_bound_mono(names, a, b - 1);
    }
}

/// The name under which the ids and strings of a table are packed into
/// a constant-quark-database section by the `cqdb` crate's writer.
pub uninterp spec fn cqdb_bytes_of(names: Seq<Seq<char>>) -> Seq<u8>;

/// The name for what the `cqdb` crate's reader recovers from a byte
/// region: the strings in id order, or nothing when the region is not a
/// well-formed database.
pub uninterp spec fn cqdb_strings_of(b: Seq<u8>) -> Option<Seq<Seq<char>>>;

/// Relies on `cqdb::CQDBWriter`: writing the pairs `(names[i], i)` in
/// order produces a section whose bytes depend on the names alone, and
/// the crate's reader recovers exactly those names from it -- also when
/// the section is embedded with trailing bytes after it, since the
/// reader confines itself to the offsets the section records.  The
/// format's internal offsets and sizes are 32-bit, and the writer
/// advances them unchecked, so the total encoded size must stay below
/// 2^32; `cqdb_size_bound` over-counts that total (UTF-8 takes at most
/// four bytes per character), and the produced section never exceeds
/// the bound.
#[verifier::external_body]
fn cqdb_write_table(names: &Vec<String>) -> (r: Vec<u8>)
    requires
        names@.len() < 0x1_0000_0000,
        cqdb_size_bound(names@.map_values(|s: String| s@), names@.len() as int) < 0x1_0000_0000,
    ensures
        r@ == cqdb_bytes_of(names@.map_values(|s: String| s@)),
        cqdb_strings_of(r@) == Option::Some(names@.map_values(|s: String| s@)),
        forall|tail: Seq<u8>| #[trigger]
            cqdb_strings_of(r@ + tail) == Option::Some(names@.map_values(|s: String| s@)),
        12 <= r@.len() <= cqdb_size_bound(names@.map_values(|s: String| s@), names@.len() as int),
{
    let mut cur = std::io::Cursor::new(Vec::new());
    {
        let mut w = cqdb::CQDBWriter::new(&mut cur).expect("cqdb writer failed");
        let mut i: u32 = 0;
        for s in names.iter() {
            w.put(s, i).expect("cqdb put failed");
            i += 1;
        }
    }
    cur.into_inner()
}

/// Relies on `cqdb::CQDB`: parse the database section starting at
/// `start` and walk the ids from zero up, handing back the strings in
/// id order; a malformed section gives nothing.
#[verifier::external_body]
fn cqdb_read_table(buf: &Vec<u8>, start: usize) -> (r: Option<Vec<String>>)
    requires
        start <= buf@.len(),
    ensures
        match r {
            Option::Some(v) => cqdb_strings_of(buf@.skip(start as int)) == Option::Some(
                v@.map_values(|s: String| s@),
            ),
            Option::None => cqdb_strings_of(buf@.skip(start as int))
                == Option::<Seq<Seq<char>>>::None,
        },
{
    let db = match cqdb::CQDB::new(&buf[start..]) {
        Ok(db) => db,
        Err(_) => return None,
    };
    let mut v: Vec<String> = Vec::new();
    let mut id: u32 = 0;
    while id < u32::MAX {
        match db.to_str(id) {
            Some(s) => v.push(String::from_utf8_lossy(s.as_ref()).into_owned()),
            None => break ,
        }
        id += 1;
    }
    Some(v)
}

/// A persisted feature: its kind, compacted source and destination ids,
/// and its learned weight as a binary64 bit pattern.
#[derive(Debug, Clone)]
pub struct Feature {
    pub cat: FeatType,
    pub src: u32,
    pub dst: u32,
    pub weight: u64,
}

/// A reverse-index entry: the feature ids attached to one source id.
pub type FeatRefs = Vec<usize>;

/// A loaded model: the feature table, the two symbol tables and the
/// reverse indices.
#[derive(Debug)]
pub struct Crf1dModel {
    pub attr_refs: Vec<FeatRefs>,
    pub label_refs: Vec<FeatRefs>,
    pub features: Vec<Feature>,
    pub labels: Quark,
    pub attrs: Quark,
}

impl Crf1dModel {
    /// Well-formedness: one reverse-index list per symbol, every feature
    /// id in a list addresses a feature of the matching kind whose
    /// source is the list's own id, and every feature's ids are in
    /// range.
    pub open spec fn wf(self) -> bool {
        &&& self.label_refs@.len() == self.labels.view_seq().len()
        &&& self.attr_refs@.len() == self.attrs.view_seq().len()
        &&& self.labels.view_seq().len() < 0x1_0000_0000
        &&& self.attrs.view_seq().len() < 0x1_0000_0000
        &&& self.features@.len() < 0x1_0000_0000
        &&& forall|k: int|
            0 <= k < self.features@.len() ==> {
                &&& (#[trigger] self.features@[k]).dst < self.labels.view_seq().len()
                &&& (self.features@[k].cat == FeatType::FT_STATE ==> self.features@[k].src
                    < self.attrs.view_seq().len())
                &&& (self.features@[k].cat == FeatType::FT_TRANS ==> self.features@[k].src
                    < self.labels.view_seq().len())
            }
        &&& forall|i: int, j: int|
            0 <= i < self.label_refs@.len() && 0 <= j < self.label_refs@[i]@.len() ==> {
                &&& (#[trigger] self.label_refs@[i]@[j]) < self.features@.len()
                &&& self.features@[self.label_refs@[i]@[j] as int].cat == FeatType::FT_TRANS
                &&& self.features@[self.label_refs@[i]@[j] as int].src == i
            }
        &&& forall|a: int, j: int|
            0 <= a < self.attr_refs@.len() && 0 <= j < self.attr_refs@[a]@.len() ==> {
                &&& (#[trigger] self.attr_refs@[a]@[j]) < self.features@.len()
                &&& self.features@[self.attr_refs@[a]@[j] as int].cat == FeatType::FT_STATE
                &&& self.features@[self.attr_refs@[a]@[j] as int].src == a
            }
    }

    pub fn num_labels(&self) -> (r: usize)
        ensures
            r == self.labels.view_seq().len(),
    {
        self.labels.len()
    }

    pub fn num_attrs(&self) -> (r: usize)
        ensures
            r == self.attrs.view_seq().len(),
    {
        self.attrs.len()
    }

    /// The transition features leaving label `lid`.
    pub fn crf1dm_get_labelref(&self, lid: usize) -> (r: &FeatRefs)
        requires
            lid < self.label_refs@.len(),
        ensures
            r == self.label_refs@[lid as int],
    {
        &self.label_refs[lid]
    }

    /// The state features fired by attribute `aid`.
    pub fn crf1dm_get_attrref(&self, aid: usize) -> (r: &FeatRefs)
        requires
            aid < self.attr_refs@.len(),
        ensures
            r == self.attr_refs@[aid as int],
    {
        &self.attr_refs[aid]
    }

    /// The `i`-th feature id of a reverse-index list.
    pub fn crf1dm_get_featureid(&self, refx: &FeatRefs, i: usize) -> (r: usize)
        requires
            i < refx@.len(),
        ensures
            r == refx@[i as int],
    {
        refx[i]
    }

    /// The feature record of a feature id.
    pub fn crf1dm_get_feature(&self, fid: usize) -> (r: &Feature)
        requires
            fid < self.features@.len(),
        ensures
            r == self.features@[fid as int],
    {
        &self.features[fid]
    }
}

/// The counts and section offsets of a model image, as the header
/// records them.
pub open spec fn hdr(b: Seq<u8>, field: int) -> int {
    le32(b, 16 + 4 * field)
}

/// Whether a byte image is a well-formed model: the magic and recorded
/// size match, every section lies within the image, every feature record
/// is of a known kind with in-range ids, every reverse-index list points
/// at features of the matching kind and source, the two symbol-table
/// sections parse, and their lengths match the recorded counts.
pub open spec fn model_valid(b: Seq<u8>) -> bool {
    let nf = hdr(b, 0);
    let nl = hdr(b, 1);
    let na = hdr(b, 2);
    let off_f = hdr(b, 3);
    let off_l = hdr(b, 4);
    let off_a = hdr(b, 5);
    let off_lr = hdr(b, 6);
    let off_ar = hdr(b, 7);
    &&& b.len() >= 48
    &&& b[0] == 0x6Cu8 && b[1] == 0x43u8 && b[2] == 0x52u8 && b[3] == 0x46u8
    &&& le32(b, 4) == b.len()
    &&& off_f + 12 <= b.len()
    &&& off_f + 12 + 20 * le32(b, off_f + 8) <= b.len()
    &&& (forall|k: int|
        #![trigger le32(b, off_f + 12 + 20 * k)]
        0 <= k < le32(b, off_f + 8) ==> {
            let rec = off_f + 12 + 20 * k;
            &&& (le32(b, rec) == 0 || le32(b, rec) == 1)
            &&& le32(b, rec + 8) < nl
            &&& (le32(b, rec) == 0 ==> le32(b, rec + 4) < na)
            &&& (le32(b, rec) == 1 ==> le32(b, rec + 4) < nl)
        })
    &&& off_lr + 12 + 4 * nl <= b.len()
    &&& le32(b, off_lr + 8) == nl
    &&& (forall|i: int|
        #![trigger le32(b, off_lr + 12 + 4 * i)]
        0 <= i < nl ==> {
            let p = le32(b, off_lr + 12 + 4 * i);
            &&& p + 4 <= b.len()
            &&& p + 4 + 4 * le32(b, p) <= b.len()
        })
    &&& (forall|i: int, j: int|
        #![trigger le32(b, le32(b, off_lr + 12 + 4 * i) + 4 + 4 * j)]
        0 <= i < nl && 0 <= j < le32(b, le32(b, off_lr + 12 + 4 * i)) ==> {
            let p = le32(b, off_lr + 12 + 4 * i);
            let fid = le32(b, p + 4 + 4 * j);
            &&& fid < le32(b, off_f + 8)
            &&& le32(b, off_f + 12 + 20 * fid) == 1
            &&& le32(b, off_f + 12 + 20 * fid + 4) == i
        })
    &&& off_ar + 12 + 4 * na <= b.len()
    &&& le32(b, off_ar + 8) == na
    &&& (forall|a: int|
        #![trigger le32(b, off_ar + 12 + 4 * a)]
        0 <= a < na ==> {
            let p = le32(b, off_ar + 12 + 4 * a);
            &&& p + 4 <= b.len()
            &&& p + 4 + 4 * le32(b, p) <= b.len()
        })
    &&& (forall|a: int, j: int|
        #![trigger le32(b, le32(b, off_ar + 12 + 4 * a) + 4 + 4 * j)]
        0 <= a < na && 0 <= j < le32(b, le32(b, off_ar + 12 + 4 * a)) ==> {
            let p = le32(b, off_ar + 12 + 4 * a);
            let fid = le32(b, p + 4 + 4 * j);
            &&& fid < le32(b, off_f + 8)
            &&& le32(b, off_f + 12 + 20 * fid) == 0
            &&& le32(b, off_f + 12 + 20 * fid + 4) == a
        })
    &&& off_l <= b.len()
    &&& off_a <= b.len()
    &&& {
        match cqdb_strings_of(b.skip(off_l)) {
            Option::Some(ls) => ls.len() == nl,
            Option::None => false,
        }
    }
    &&& {
        match cqdb_strings_of(b.skip(off_a)) {
            Option::Some(ats) => ats.len() == na,
            Option::None => false,
        }
    }
}

impl Crf1dModel {
    /// Decode a model image.  Returns the model when `model_valid`
    /// holds of the bytes, with every field equal to what the image
    /// records, and `InvalidModel` otherwise; it never panics.
    #[verifier::rlimit(100)]
    #[verifier::spinoff_prover]
    pub fn from_memory(buffer: Vec<u8>) -> (r: Result<Crf1dModel, CrfError>)
        ensures
            match r {
                Result::Ok(m) => {
                    let b = buffer@;
                    &&& model_valid(b)
                    &&& m.wf()
                    &&& m.labels.view_seq() == cqdb_strings_of(b.skip(hdr(b, 4))).unwrap()
                    &&& m.attrs.view_seq() == cqdb_strings_of(b.skip(hdr(b, 5))).unwrap()
                    &&& m.features@.len() == le32(b, hdr(b, 3) + 8)
                    &&& (forall|k: int|
                        0 <= k < m.features@.len() ==> {
                            let rec = hdr(b, 3) + 12 + 20 * k;
                            &&& (#[trigger] m.features@[k]).cat == (if le32(b, rec) == 0 {
                                FeatType::FT_STATE
                            } else {
                                FeatType::FT_TRANS
                            })
                            &&& m.features@[k].src == le32(b, rec + 4)
                            &&& m.features@[k].dst == le32(b, rec + 8)
                            &&& m.features@[k].weight == le64(b, rec + 12)
                        })
                    &&& m.label_refs@.len() == hdr(b, 1)
                    &&& (forall|i: int|
                        0 <= i < m.label_refs@.len() ==> (#[trigger] m.label_refs@[i])@.len()
                            == le32(b, le32(b, hdr(b, 6) + 12 + 4 * i)))
                    &&& (forall|i: int, j: int|
                        0 <= i < m.label_refs@.len() && 0 <= j < m.label_refs@[i]@.len() ==> (
                        #[trigger] m.label_refs@[i]@[j]) == le32(
                            b,
                            le32(b, hdr(b, 6) + 12 + 4 * i) + 4 + 4 * j,
                        ))
                    &&& m.attr_refs@.len() == hdr(b, 2)
                    &&& (forall|a: int|
                        0 <= a < m.attr_refs@.len() ==> (#[trigger] m.attr_refs@[a])@.len()
                            == le32(b, le32(b, hdr(b, 7) + 12 + 4 * a)))
                    &&& (forall|a: int, j: int|
                        0 <= a < m.attr_refs@.len() && 0 <= j < m.attr_refs@[a]@.len() ==> (
                        #[trigger] m.attr_refs@[a]@[j]) == le32(
                            b,
                            le32(b, hdr(b, 7) + 12 + 4 * a) + 4 + 4 * j,
                        ))
                },
                Result::Err(e) => e == CrfError::InvalidModel && !model_valid(buffer@),
            },
    {
        let b = &buffer;
        let n = b.len();
        if n < 48 {
            return Err(CrfError::InvalidModel);
        }
        if !(b[0] == 0x6C && b[1] == 0x43 && b[2] == 0x52 && b[3] == 0x46) {
            return Err(CrfError::InvalidModel);
        }
        if read_u32(b, 4) as usize != n {
            return Err(CrfError::InvalidModel);
        }
        let nf = read_u32(b, 16) as usize;
        let nl = read_u32(b, 20) as usize;
        let na = read_u32(b, 24) as usize;
        let off_f = read_u32(b, 28) as usize;
        let off_l = read_u32(b, 32) as usize;
        let off_a = read_u32(b, 36) as usize;
        let off_lr = read_u32(b, 40) as usize;
        let off_ar = read_u32(b, 44) as usize;
        if off_f > n || n - off_f < 12 {
            return Err(CrfError::InvalidModel);
        }
        let kf = read_u32(b, off_f + 8) as usize;
        if kf > (n - off_f - 12) / 20 {
            return Err(CrfError::InvalidModel);
        }
        // Feature records.
        let features = match read_feature_records(b, off_f, kf, nl, na) {
            Some(v) => v,
            None => {
                return Err(CrfError::InvalidModel);
            },
        };
        // Reverse-index sections.
        let label_refs = match read_ref_section(b, off_lr, nl, kf, off_f, 1) {
            Some(v) => v,
            None => {
                return Err(CrfError::InvalidModel);
            },
        };
        let attr_refs = match read_ref_section(b, off_ar, na, kf, off_f, 0) {
            Some(v) => v,
            None => {
                return Err(CrfError::InvalidModel);
            },
        };
        // Symbol tables.
        if off_l > n || off_a > n {
            return Err(CrfError::InvalidModel);
        }
        let label_strs = match cqdb_read_table(b, off_l) {
            Some(v) => v,
            None => {
                return Err(CrfError::InvalidModel);
            },
        };
        let attr_strs = match cqdb_read_table(b, off_a) {
            Some(v) => v,
            None => {
                return Err(CrfError::InvalidModel);
            },
        };
        if label_strs.len() != nl || attr_strs.len() != na {
            return Err(CrfError::InvalidModel);
        }
        let m = Crf1dModel {
            attr_refs,
            label_refs,
            features,
            labels: Quark::from_vec(label_strs),
            attrs: Quark::from_vec(attr_strs),
        };
        proof {
            let bb = buffer@;
            assert forall|i: int, j: int|
                0 <= i < m.label_refs@.len() && 0 <= j < m.label_refs@[i]@.len() implies {
                &&& (#[trigger] m.label_refs@[i]@[j]) < m.features@.len()
                &&& m.features@[m.label_refs@[i]@[j] as int].cat == FeatType::FT_TRANS
                &&& m.features@[m.label_refs@[i]@[j] as int].src == i
            } by {
                assert(le32(bb, le32(bb, off_lr as int + 12 + 4 * i) + 4 + 4 * j) == m.label_refs@[i]@[j]);
                let fid = m.label_refs@[i]@[j] as int;
                assert(le32(bb, off_f as int + 12 + 20 * fid) == 1);
            }
            assert forall|a: int, j: int|
                0 <= a < m.attr_refs@.len() && 0 <= j < m.attr_refs@[a]@.len() implies {
                &&& (#[trigger] m.attr_refs@[a]@[j]) < m.features@.len()
                &&& m.features@[m.attr_refs@[a]@[j] as int].cat == FeatType::FT_STATE
                &&& m.features@[m.attr_refs@[a]@[j] as int].src == a
            } by {
                assert(le32(bb, le32(bb, off_ar as int + 12 + 4 * a) + 4 + 4 * j) == m.attr_refs@[a]@[j]);
                let fid = m.attr_refs@[a]@[j] as int;
                assert(le32(bb, off_f as int + 12 + 20 * fid) == 0);
            }
            assert(m.wf());
            assert(model_valid(bb));
        }
        Ok(m)
    }
}

/// Parse one reverse-index section: a 12-byte chunk header whose count
/// must equal `count`, an offset table, and one (length, ids) list per
/// entry.  Every id must address a feature of kind `want_cat` whose
/// source is the entry's index.  Gives nothing when any check fails.
fn read_ref_section(
    b: &Vec<u8>,
    off: usize,
    count: usize,
    kf: usize,
    off_f: usize,
    want_cat: u32,
) -> (r: Option<Vec<FeatRefs>>)
    requires
        b@.len() >= 48,
        off_f + 12 + 20 * kf <= b@.len(),
        kf == le32(b@, off_f + 8),
        count < 0x1_0000_0000,
        want_cat == 0 || want_cat == 1,
    ensures
        match r {
            Option::Some(v) => {
                &&& off + 12 + 4 * count <= b@.len()
                &&& le32(b@, off + 8) == count
                &&& v@.len() == count
                &&& (forall|i: int|
                    #![trigger le32(b@, off + 12 + 4 * i)]
                    0 <= i < count ==> {
                        let p = le32(b@, off + 12 + 4 * i);
                        &&& p + 4 <= b@.len()
                        &&& p + 4 + 4 * le32(b@, p) <= b@.len()
                    })
                &&& (forall|i: int|
                    0 <= i < count ==> (#[trigger] v@[i])@.len() == le32(
                        b@,
                        le32(b@, off + 12 + 4 * i),
                    ))
                &&& (forall|i: int, j: int|
                    #![trigger le32(b@, le32(b@, off + 12 + 4 * i) + 4 + 4 * j)]
                    0 <= i < count && 0 <= j < v@[i]@.len() ==> {
                        let p = le32(b@, off + 12 + 4 * i);
                        let fid = le32(b@, p + 4 + 4 * j);
                        &&& v@[i]@[j] == fid
                        &&& fid < kf
                        &&& le32(b@, off_f + 12 + 20 * fid) == want_cat
                        &&& le32(b@, off_f + 12 + 20 * fid + 4) == i
                    })
            },
            Option::None => !({
                &&& off + 12 + 4 * count <= b@.len()
                &&& le32(b@, off + 8) == count
                &&& (forall|i: int|
                    #![trigger le32(b@, off + 12 + 4 * i)]
                    0 <= i < count ==> {
                        let p = le32(b@, off + 12 + 4 * i);
                        &&& p + 4 <= b@.len()
                        &&& p + 4 + 4 * le32(b@, p) <= b@.len()
                    })
                &&& (forall|i: int, j: int|
                    #![trigger le32(b@, le32(b@, off + 12 + 4 * i) + 4 + 4 * j)]
                    0 <= i < count && 0 <= j < le32(b@, le32(b@, off + 12 + 4 * i)) ==> {
                        let p = le32(b@, off + 12 + 4 * i);
                        let fid = le32(b@, p + 4 + 4 * j);
                        &&& fid < kf
                        &&& le32(b@, off_f + 12 + 20 * fid) == want_cat
                        &&& le32(b@, off_f + 12 + 20 * fid + 4) == i
                    })
            }),
        },
{
    let n = b.len();
    if off > n || n - off < 12 {
        return None;
    }
    if count > (n - off - 12) / 4 {
        return None;
    }
    if read_u32(b, off + 8) as usize != count {
        return None;
    }
    let mut out: Vec<FeatRefs> = Vec::new();
    let mut i: usize = 0;
    while i < count
        invariant
            i <= count,
            n == b@.len(),
            48 <= n,
            off_f + 12 + 20 * kf <= n,
            kf == le32(b@, off_f + 8),
            count < 0x1_0000_0000,
            want_cat == 0 || want_cat == 1,
            off + 12 + 4 * count <= n,
            le32(b@, off + 8) == count,
            out@.len() == i,
            forall|i2: int|
                #![trigger le32(b@, off + 12 + 4 * i2)]
                0 <= i2 < i ==> {
                    let p = le32(b@, off + 12 + 4 * i2);
                    &&& p + 4 <= n
                    &&& p + 4 + 4 * le32(b@, p) <= n
                },
            forall|i2: int|
                0 <= i2 < i ==> (#[trigger] out@[i2])@.len() == le32(
                    b@,
                    le32(b@, off + 12 + 4 * i2),
                ),
            forall|i2: int, j: int|
                #![trigger le32(b@, le32(b@, off + 12 + 4 * i2) + 4 + 4 * j)]
                0 <= i2 < i && 0 <= j < out@[i2]@.len() ==> {
                    let p = le32(b@, off + 12 + 4 * i2);
                    let fid = le32(b@, p + 4 + 4 * j);
                    &&& out@[i2]@[j] == fid
                    &&& fid < kf
                    &&& le32(b@, off_f + 12 + 20 * fid) == want_cat
                    &&& le32(b@, off_f + 12 + 20 * fid + 4) == i2
                },
        decreases count - i,
    {
        let p = read_u32(b, off + 12 + 4 * i) as usize;
        if p > n || n - p < 4 {
            return None;
        }
        let c = read_u32(b, p) as usize;
        if c > (n - p - 4) / 4 {
            return None;
        }
        let mut ids: FeatRefs = Vec::new();
        let mut j: usize = 0;
        while j < c
            invariant
                j <= c,
                n == b@.len(),
                off_f + 12 + 20 * kf <= n,
                kf == le32(b@, off_f + 8),
                want_cat == 0 || want_cat == 1,
                i < count,
                p == le32(b@, off + 12 + 4 * i),
                c == le32(b@, p as int),
                p + 4 + 4 * c <= n,
                ids@.len() == j,
                forall|j2: int|
                    #![trigger le32(b@, p as int + 4 + 4 * j2)]
                    0 <= j2 < j ==> {
                        let fid = le32(b@, p + 4 + 4 * j2);
                        &&& ids@[j2] == fid
                        &&& fid < kf
                        &&& le32(b@, off_f + 12 + 20 * fid) == want_cat
                        &&& le32(b@, off_f + 12 + 20 * fid + 4) == i
                    },
            decreases c - j,
        {
            let fid = read_u32(b, p + 4 + 4 * j) as usize;
            if fid >= kf {
                return None;
            }
            let cat = read_u32(b, off_f + 12 + 20 * fid);
            if cat != want_cat {
                return None;
            }
            let src = read_u32(b, off_f + 12 + 20 * fid + 4);
            if src as usize != i {
                return None;
            }
            ids.push(fid);
            j += 1;
        }
        out.push(ids);
        i += 1;
    }
    Some(out)
}

/// Parse the feature records of the feature chunk: each must be of a
/// known kind with its destination below the label count and its source
/// below the count its kind refers to.  Gives nothing when a record
/// violates that.
fn read_feature_records(b: &Vec<u8>, off_f: usize, kf: usize, nl: usize, na: usize) -> (r: Option<
    Vec<Feature>,
>)
    requires
        off_f + 12 + 20 * kf <= b@.len(),
    ensures
        match r {
            Option::Some(v) => {
                &&& v@.len() == kf
                &&& (forall|k: int|
                    #![trigger le32(b@, off_f + 12 + 20 * k)]
                    0 <= k < kf ==> {
                        let rec = off_f + 12 + 20 * k;
                        &&& (le32(b@, rec) == 0 || le32(b@, rec) == 1)
                        &&& le32(b@, rec + 8) < nl
                        &&& (le32(b@, rec) == 0 ==> le32(b@, rec + 4) < na)
                        &&& (le32(b@, rec) == 1 ==> le32(b@, rec + 4) < nl)
                    })
                &&& (forall|k: int|
                    0 <= k < kf ==> {
                        let rec = off_f + 12 + 20 * k;
                        &&& (#[trigger] v@[k]).cat == (if le32(b@, rec) == 0 {
                            FeatType::FT_STATE
                        } else {
                            FeatType::FT_TRANS
                        })
                        &&& v@[k].src == le32(b@, rec + 4)
                        &&& v@[k].dst == le32(b@, rec + 8)
                        &&& v@[k].weight == le64(b@, rec + 12)
                    })
            },
            Option::None => !(forall|k: int|
                #![trigger le32(b@, off_f + 12 + 20 * k)]
                0 <= k < kf ==> {
                    let rec = off_f + 12 + 20 * k;
                    &&& (le32(b@, rec) == 0 || le32(b@, rec) == 1)
                    &&& le32(b@, rec + 8) < nl
                    &&& (le32(b@, rec) == 0 ==> le32(b@, rec + 4) < na)
                    &&& (le32(b@, rec) == 1 ==> le32(b@, rec + 4) < nl)
                }),
        },
{
    let n = b.len();
    let mut features: Vec<Feature> = Vec::new();
    let mut k: usize = 0;
    while k < kf
        invariant
            k <= kf,
            n == b@.len(),
            off_f + 12 + 20 * kf <= n,
            features@.len() == k,
            forall|k2: int|
                #![trigger le32(b@, off_f + 12 + 20 * k2)]
                0 <= k2 < k ==> {
                    let rec = off_f + 12 + 20 * k2;
                    &&& (le32(b@, rec) == 0 || le32(b@, rec) == 1)
                    &&& le32(b@, rec + 8) < nl
                    &&& (le32(b@, rec) == 0 ==> le32(b@, rec + 4) < na)
                    &&& (le32(b@, rec) == 1 ==> le32(b@, rec + 4) < nl)
                },
            forall|k2: int|
                0 <= k2 < k ==> {
                    let rec = off_f + 12 + 20 * k2;
                    &&& (#[trigger] features@[k2]).cat == (if le32(b@, rec) == 0 {
                        FeatType::FT_STATE
                    } else {
                        FeatType::FT_TRANS
                    })
                    &&& features@[k2].src == le32(b@, rec + 4)
                    &&& features@[k2].dst == le32(b@, rec + 8)
                    &&& features@[k2].weight == le64(b@, rec + 12)
                },
        decreases kf - k,
    {
        let rec = off_f + 12 + 20 * k;
        let cat = read_u32(b, rec);
        let src = read_u32(b, rec + 4);
        let dst = read_u32(b, rec + 8);
        let weight = read_u64(b, rec + 12);
        if cat > 1 || (dst as usize) >= nl || (cat == 0 && (src as usize) >= na) || (cat == 1 && (
        src as usize) >= nl) {
            return None;
        }
        features.push(
            Feature {
                cat: if cat == 0 {
                    FeatType::FT_STATE
                } else {
                    FeatType::FT_TRANS
                },
                src,
                dst,
                weight,
            },
        );
        k += 1;
    }
    Some(features)
}

/// Append every byte of `src` onto `dst`.
pub fn append_vec(dst: &mut Vec<u8>, src: &Vec<u8>)
    ensures
        final(dst)@ =~= old(dst)@ + src@,
{
    let n = src.len();
    let mut i: usize = 0;
    while i < n
        invariant
            i <= n,
            n == src@.len(),
            dst@ =~= old(dst)@ + src@.subrange(0, i as int),
        decreases n - i,
    {
        dst.push(src[i]);
        proof {
            assert(dst@ =~= old(dst)@ + src@.subrange(0, i + 1));
        }
        i += 1;
    }
    proof {
        assert(src@.subrange(0, n as int) =~= src@);
    }
}


/// The byte size of the first `n` id lists of a reverse-index chunk:
/// each list takes a 4-byte length and four bytes per id.
pub open spec fn chunk_lists_len(refs: Seq<FeatRefs>, n: int) -> int
    decreases n,
{
    if n <= 0 {
        0
    } else {
        chunk_lists_len(refs, n - 1) + 4 + 4 * refs[n - 1]@.len()
    }
}

/// The byte size of a reverse-index chunk: a 12-byte chunk header, the
/// 4-byte offset table entries, and the lists.
pub open spec fn ref_chunk_len(refs: Seq<FeatRefs>) -> int {
    12 + 4 * refs.len() + chunk_lists_len(refs, refs.len() as int)
}

/// List bytes are nonnegative.
pub proof fn lemma_chunk_lists_nonneg(refs: Seq<FeatRefs>, n: int)
    ensures
        chunk_lists_len(refs, n) >= 0,
    decreases n,
{
    if n > 0 {
        lemma_chunk_lists_nonneg(refs, n - 1);
    }
}

/// List bytes grow with more lists.
pub proof fn lemma_chunk_lists_mono(refs: Seq<FeatRefs>, a: int, b: int)
    requires
        0 <= a <= b,
    ensures
        chunk_lists_len(refs, a) <= chunk_lists_len(refs, b),
    decreases b - a,
{
    if a < b {
        lemma_chunk_lists_mono(refs, a, b - 1);
    }
}

/// The byte size of a whole model image: the 48-byte header, the
/// feature chunk, the two symbol-table sections and the two
/// reverse-index chunks.
pub open spec fn image_size(m: Crf1dModel) -> int {
    60 + 20 * m.features@.len() + cqdb_bytes_of(m.labels.view_seq()).len() + cqdb_bytes_of(
        m.attrs.view_seq(),
    ).len() + ref_chunk_len(m.label_refs@) + ref_chunk_len(m.attr_refs@)
}

/// Whether a model cannot be encoded: a symbol table whose conservative
/// section bound reaches 2^32 (the format's internal offsets are
/// 32-bit), or a total image beyond the header's 32-bit size field.
pub open spec fn image_too_large(m: Crf1dModel) -> bool {
    ||| cqdb_size_bound(m.labels.view_seq(), m.labels.view_seq().len() as int) >= 0x1_0000_0000
    ||| cqdb_size_bound(m.attrs.view_seq(), m.attrs.view_seq().len() as int) >= 0x1_0000_0000
    ||| image_size(m) > 0xFFFF_FFFF
}

/// Whether a symbol table's conservative section bound stays below
/// 2^32, counted over the characters of the names.
fn table_bound_ok(names: &Vec<String>) -> (r: bool)
    ensures
        r <==> cqdb_size_bound(names@.map_values(|s: String| s@), names@.len() as int)
            < 0x1_0000_0000,
{
    let ghost vm = names@.map_values(|s: String| s@);
    let n = names.len();
    let mut acc: u64 = 2072;
    let mut i: usize = 0;
    while i < n
        invariant
            i <= n,
            n == names@.len(),
            vm == names@.map_values(|s: String| s@),
            acc == cqdb_size_bound(vm, i as int),
            acc < 0x1_0000_0000,
        decreases n - i,
    {
        let c = names[i].as_str().unicode_len();
        if c >= 0x4000_0000 {
            proof {
                lemma_cqdb_size_bound_mono(vm, i + 1, n as int);
            }
            return false;
        }
        let add: u64 = 29 + 4 * (c as u64);
        if acc + add >= 0x1_0000_0000 {
            proof {
                lemma_cqdb_size_bound_mono(vm, i + 1, n as int);
            }
            return false;
        }
        acc = acc + add;
        i += 1;
    }
    true
}

/// The number of nonzero entries among the first `n` weights.
pub open spec fn nz_count(w: Seq<u64>, n: int) -> int
    decreases n,
{
    if n <= 0 {
        0
    } else {
        nz_count(w, n - 1) + (if !fis_zero(w[n - 1]) {
            1int
        } else {
            0int
        })
    }
}


/// The first index of `a` among the first `n` entries of `order`.
pub open spec fn u32_index_of(order: Seq<u32>, a: u32, n: int) -> Option<int>
    decreases n,
{
    if n <= 0 {
        None
    } else {
        match u32_index_of(order, a, n - 1) {
            Option::Some(i) => Option::Some(i),
            Option::None => if order[n - 1] == a {
                Option::Some(n - 1)
            } else {
                Option::None
            },
        }
    }
}

/// A found first index lies in range and holds the value.
pub proof fn lemma_u32_index_bound(order: Seq<u32>, a: u32, n: int)
    requires
        n <= order.len(),
    ensures
        match u32_index_of(order, a, n) {
            Option::Some(i) => 0 <= i < n && order[i] == a,
            Option::None => forall|k: int| 0 <= k < n ==> order[k] != a,
        },
    decreases n,
{
    if n > 0 {
        lemma_u32_index_bound(order, a, n - 1);
    }
}

/// If no index below `i` holds `a` and index `i` does, the first index
/// below any larger bound is `i`.
pub proof fn lemma_u32_index_extend(order: Seq<u32>, a: u32, i: int, n: int)
    requires
        0 <= i < n <= order.len(),
        u32_index_of(order, a, i) == Option::<int>::None,
        order[i] == a,
    ensures
        u32_index_of(order, a, n) == Option::Some(i),
    decreases n,
{
    if n == i + 1 {
    } else {
        lemma_u32_index_extend(order, a, i, n - 1);
    }
}

/// First-index search agrees on sequences that agree on the searched
/// prefix.
pub proof fn lemma_u32_index_agree(o1: Seq<u32>, o2: Seq<u32>, a: u32, n: int)
    requires
        forall|k: int| 0 <= k < n ==> o1[k] == o2[k],
    ensures
        u32_index_of(o1, a, n) == u32_index_of(o2, a, n),
    decreases n,
{
    if n > 0 {
        lemma_u32_index_agree(o1, o2, a, n - 1);
    }
}

/// The compacted attribute order after the first `n` features: each
/// kept state feature appends its attribute id at first sight.
pub open spec fn compact_order(w: Seq<u64>, feats: Seq<Feat>, n: int) -> Seq<u32>
    decreases n,
{
    if n <= 0 {
        Seq::empty()
    } else {
        let o = compact_order(w, feats, n - 1);
        if !fis_zero(w[n - 1]) && feats[n - 1].ftype == FeatType::FT_STATE && u32_index_of(
            o,
            feats[n - 1].src,
            o.len() as int,
        ) is None {
            o.push(feats[n - 1].src)
        } else {
            o
        }
    }
}

/// The kept-feature map after the first `n` features: a feature with
/// nonzero weight gets the next dense id (the count of kept features
/// before it), the rest get nothing.
pub open spec fn compact_fmap(w: Seq<u64>, feats: Seq<Feat>, n: int) -> Seq<Option<usize>>
    decreases n,
{
    if n <= 0 {
        Seq::empty()
    } else {
        compact_fmap(w, feats, n - 1).push(
            if !fis_zero(w[n - 1]) {
                Option::Some(nz_count(w, n - 1) as usize)
            } else {
                Option::None
            },
        )
    }
}

/// The emitted features after the first `n` inputs: the kept ones in
/// input order, each carrying its weight, with a state feature's
/// attribute id remapped to its compacted id.
pub open spec fn compact_feats(w: Seq<u64>, feats: Seq<Feat>, n: int) -> Seq<Feature>
    decreases n,
{
    if n <= 0 {
        Seq::empty()
    } else {
        let prev = compact_feats(w, feats, n - 1);
        if !fis_zero(w[n - 1]) {
            let f = feats[n - 1];
            let o = compact_order(w, feats, n);
            let src_out = if f.ftype == FeatType::FT_STATE {
                u32_index_of(o, f.src, o.len() as int)->Some_0 as u32
            } else {
                f.src
            };
            prev.push(Feature { cat: f.ftype, src: src_out, dst: f.dst, weight: w[n - 1] })
        } else {
            prev
        }
    }
}

/// A reference list mapped through the kept-feature map: each id whose
/// feature survives is replaced by its dense id, the rest are dropped;
/// an id that does not address an emitted feature of the wanted kind
/// and source is dropped too.
pub open spec fn remap_spec(
    refs: Seq<usize>,
    fmap: Seq<Option<usize>>,
    out: Seq<Feature>,
    want: FeatType,
    src: int,
    n: int,
) -> Seq<usize>
    decreases n,
{
    if n <= 0 {
        Seq::empty()
    } else {
        let prev = remap_spec(refs, fmap, out, want, src, n - 1);
        let fid = refs[n - 1];
        if fid < fmap.len() && fmap[fid as int] is Some && fmap[fid as int]->Some_0
            < out.len() && out[fmap[fid as int]->Some_0 as int].cat == want && out[fmap[
            fid as int]->Some_0 as int].src == src {
            prev.push(fmap[fid as int]->Some_0)
        } else {
            prev
        }
    }
}

/// Build the persisted model from a trained encoder state: keep only the
/// features with nonzero weight, compact their ids, compact the
/// attribute ids to those an active state feature refers to, and remap
/// the reverse-index lists accordingly.  The label table is kept whole.
pub fn save_model_r(
    w: &Vec<u64>,
    feats: &Vec<Feat>,
    attr_refs_in: &Vec<Vec<usize>>,
    label_refs_in: &Vec<Vec<usize>>,
    labels: &Vec<String>,
    attrs: &Vec<String>,
) -> (r: Crf1dModel)
    requires
        w@.len() == feats@.len(),
        feats@.len() < 0x1_0000_0000,
        labels@.len() < 0x1_0000_0000,
        attrs@.len() < 0x1_0000_0000,
        label_refs_in@.len() == labels@.len(),
        forall|k: int|
            0 <= k < feats@.len() ==> {
                &&& (#[trigger] feats@[k]).dst < labels@.len()
                &&& (feats@[k].ftype == FeatType::FT_STATE ==> feats@[k].src < attrs@.len())
                &&& (feats@[k].ftype == FeatType::FT_TRANS ==> feats@[k].src < labels@.len())
            },
    ensures
        r.wf(),
        r.labels.view_seq() == labels@.map_values(|s: String| s@),
        r.features@.len() == nz_count(w@, w@.len() as int),
        forall|k: int| 0 <= k < r.features@.len() ==> !fis_zero((#[trigger] r.features@[k]).weight),
        r.label_refs@.len() == labels@.len(),
        r.features@ == compact_feats(w@, feats@, w@.len() as int),
        r.attrs.view_seq() =~= Seq::new(
            compact_order(w@, feats@, w@.len() as int).len(),
            |p: int| attrs@[compact_order(w@, feats@, w@.len() as int)[p] as int]@,
        ),
        r.attr_refs@.len() == compact_order(w@, feats@, w@.len() as int).len(),
        forall|i: int|
            0 <= i < labels@.len() ==> (#[trigger] r.label_refs@[i])@ == remap_spec(
                label_refs_in@[i]@,
                compact_fmap(w@, feats@, w@.len() as int),
                compact_feats(w@, feats@, w@.len() as int),
                FeatType::FT_TRANS,
                i,
                label_refs_in@[i]@.len() as int,
            ),
        forall|p: int|
            0 <= p < r.attr_refs@.len() ==> (#[trigger] r.attr_refs@[p])@ == ({
                let o = compact_order(w@, feats@, w@.len() as int);
                if o[p] < attr_refs_in@.len() {
                    remap_spec(
                        attr_refs_in@[o[p] as int]@,
                        compact_fmap(w@, feats@, w@.len() as int),
                        compact_feats(w@, feats@, w@.len() as int),
                        FeatType::FT_STATE,
                        p,
                        attr_refs_in@[o[p] as int]@.len() as int,
                    )
                } else {
                    Seq::empty()
                }
            }),
{
    let kf = feats.len();
    // Pass 1: map kept feature ids and compacted attribute ids, and emit
    // the compacted features.
    let mut fmap: Vec<Option<usize>> = Vec::new();
    let mut aorder: Vec<u32> = Vec::new();
    let mut amap: Vec<Option<usize>> = vec_none(attrs.len());
    let mut features: Vec<Feature> = Vec::new();
    let mut k: usize = 0;
    while k < kf
        invariant
            k <= kf,
            kf == feats@.len(),
            w@.len() == kf,
            kf < 0x1_0000_0000,
            labels@.len() < 0x1_0000_0000,
            attrs@.len() < 0x1_0000_0000,
            fmap@.len() == k,
            amap@.len() == attrs@.len(),
            aorder@.len() <= features@.len(),
            fmap@ == compact_fmap(w@, feats@, k as int),
            aorder@ == compact_order(w@, feats@, k as int),
            features@ == compact_feats(w@, feats@, k as int),
            forall|q: int| 0 <= q < aorder@.len() ==> (#[trigger] aorder@[q]) < attrs@.len(),
            features@.len() == nz_count(w@, k as int),
            features@.len() <= k,
            forall|k2: int|
                0 <= k2 < feats@.len() ==> {
                    &&& (#[trigger] feats@[k2]).dst < labels@.len()
                    &&& (feats@[k2].ftype == FeatType::FT_STATE ==> feats@[k2].src < attrs@.len())
                    &&& (feats@[k2].ftype == FeatType::FT_TRANS ==> feats@[k2].src < labels@.len())
                },
            forall|j: int|
                0 <= j < features@.len() ==> {
                    &&& !fis_zero((#[trigger] features@[j]).weight)
                    &&& features@[j].dst < labels@.len()
                    &&& (features@[j].cat == FeatType::FT_STATE ==> features@[j].src
                        < aorder@.len())
                    &&& (features@[j].cat == FeatType::FT_TRANS ==> features@[j].src
                        < labels@.len())
                },
            forall|a: int|
                0 <= a < amap@.len() ==> match #[trigger] amap@[a] {
                    Option::Some(p) => p < aorder@.len() && u32_index_of(
                        aorder@,
                        a as u32,
                        aorder@.len() as int,
                    ) == Option::Some(p as int),
                    Option::None => u32_index_of(aorder@, a as u32, aorder@.len() as int) is None,
                },
            forall|j: int|
                0 <= j < fmap@.len() ==> match #[trigger] fmap@[j] {
                    Option::Some(p) => p < features@.len(),
                    Option::None => true,
                },
        decreases kf - k,
    {
        if !fis_zero_x(w[k]) {
            let f = &feats[k];
            let src_out: u32 = match f.ftype {
                FeatType::FT_STATE => {
                    let a = f.src as usize;
                    match amap[a] {
                        Some(p) => p as u32,
                        None => {
                            let ghost o0 = aorder@;
                            let p = aorder.len();
                            aorder.push(f.src);
                            amap.set(a, Some(p));
                            proof {
                                lemma_u32_index_agree(aorder@, o0, f.src, o0.len() as int);
                                lemma_u32_index_extend(
                                    aorder@,
                                    f.src,
                                    o0.len() as int,
                                    aorder@.len() as int,
                                );
                                assert forall|a2: int| 0 <= a2 < amap@.len() implies (
                                match #[trigger] amap@[a2] {
                                    Option::Some(q) => q < aorder@.len() && u32_index_of(
                                        aorder@,
                                        a2 as u32,
                                        aorder@.len() as int,
                                    ) == Option::Some(q as int),
                                    Option::None => u32_index_of(
                                        aorder@,
                                        a2 as u32,
                                        aorder@.len() as int,
                                    ) is None,
                                }) by {
                                    lemma_u32_index_agree(aorder@, o0, a2 as u32, o0.len() as int);
                                    if a2 != a {
                                        assert(aorder@[aorder@.len() - 1] == f.src);
                                        assert(a2 as u32 != f.src);
                                    }
                                }
                            }
                            p as u32
                        },
                    }
                },
                FeatType::FT_TRANS => f.src,
            };
            fmap.push(Some(features.len()));
            features.push(Feature { cat: f.ftype, src: src_out, dst: f.dst, weight: w[k] });
            proof {
                assert(features@ =~= compact_feats(w@, feats@, k + 1));
                assert(fmap@ =~= compact_fmap(w@, feats@, k + 1));
            }
        } else {
            fmap.push(None);
            proof {
                assert(fmap@ =~= compact_fmap(w@, feats@, k + 1));
            }
        }
        k += 1;
    }
    // Pass 2: the compacted attribute string table, in compacted order.
    let bn = aorder.len();
    let ghost fmap_ok = fmap@;
    let ghost feats_out = features@;
    let mut attr_strs: Vec<String> = Vec::new();
    let mut p: usize = 0;
    while p < bn
        invariant
            p <= bn,
            bn == aorder@.len(),
            attr_strs@.len() == p,
            forall|q: int| 0 <= q < bn ==> (#[trigger] aorder@[q]) < attrs@.len(),
            forall|q: int| 0 <= q < p ==> (#[trigger] attr_strs@[q])@ == attrs@[aorder@[q] as int]@,
        decreases bn - p,
    {
        attr_strs.push(attrs[aorder[p] as usize].clone());
        p += 1;
    }
    // Pass 3: remap the reverse-index lists, dropping ids of inactive
    // features and any entry that does not address a feature of the
    // matching kind and source.
    let nl = labels.len();
    let mut label_refs: Vec<FeatRefs> = Vec::new();
    let mut i: usize = 0;
    while i < nl
        invariant
            i <= nl,
            nl == label_refs_in@.len(),
            nl == labels@.len(),
            label_refs@.len() == i,
            forall|j: int|
                0 <= j < fmap@.len() ==> match #[trigger] fmap@[j] {
                    Option::Some(q) => q < features@.len(),
                    Option::None => true,
                },
            forall|j: int|
                0 <= j < features@.len() ==> {
                    &&& !fis_zero((#[trigger] features@[j]).weight)
                    &&& features@[j].dst < labels@.len()
                    &&& (features@[j].cat == FeatType::FT_STATE ==> features@[j].src < bn)
                    &&& (features@[j].cat == FeatType::FT_TRANS ==> features@[j].src
                        < labels@.len())
                },

            forall|i2: int, j: int|
                0 <= i2 < i && 0 <= j < label_refs@[i2]@.len() ==> {
                    &&& (#[trigger] label_refs@[i2]@[j]) < features@.len()
                    &&& features@[label_refs@[i2]@[j] as int].cat == FeatType::FT_TRANS
                    &&& features@[label_refs@[i2]@[j] as int].src == i2
                },
            forall|i2: int|
                0 <= i2 < i ==> (#[trigger] label_refs@[i2])@ == remap_spec(
                    label_refs_in@[i2]@,
                    fmap@,
                    features@,
                    FeatType::FT_TRANS,
                    i2,
                    label_refs_in@[i2]@.len() as int,
                ),
        decreases nl - i,
    {
        label_refs.push(remap_refs(&label_refs_in[i], &fmap, &features, FeatType::FT_TRANS, i));
        i += 1;
    }
    let mut attr_refs: Vec<FeatRefs> = Vec::new();
    let mut p: usize = 0;
    while p < bn
        invariant
            p <= bn,
            bn == aorder@.len(),
            attr_refs@.len() == p,
            forall|q: int| 0 <= q < bn ==> (#[trigger] aorder@[q]) < attrs@.len(),
            forall|j: int|
                0 <= j < fmap@.len() ==> match #[trigger] fmap@[j] {
                    Option::Some(q) => q < features@.len(),
                    Option::None => true,
                },
            forall|j: int|
                0 <= j < features@.len() ==> {
                    &&& !fis_zero((#[trigger] features@[j]).weight)
                    &&& features@[j].dst < labels@.len()
                    &&& (features@[j].cat == FeatType::FT_STATE ==> features@[j].src < bn)
                    &&& (features@[j].cat == FeatType::FT_TRANS ==> features@[j].src
                        < labels@.len())
                },

            forall|a2: int, j: int|
                0 <= a2 < p && 0 <= j < attr_refs@[a2]@.len() ==> {
                    &&& (#[trigger] attr_refs@[a2]@[j]) < features@.len()
                    &&& features@[attr_refs@[a2]@[j] as int].cat == FeatType::FT_STATE
                    &&& features@[attr_refs@[a2]@[j] as int].src == a2
                },
            forall|a2: int|
                0 <= a2 < p ==> (#[trigger] attr_refs@[a2])@ == (if (aorder@[a2] as int)
                    < attr_refs_in@.len() {
                    remap_spec(
                        attr_refs_in@[aorder@[a2] as int]@,
                        fmap@,
                        features@,
                        FeatType::FT_STATE,
                        a2,
                        attr_refs_in@[aorder@[a2] as int]@.len() as int,
                    )
                } else {
                    Seq::empty()
                }),
        decreases bn - p,
    {
        let a = aorder[p] as usize;
        if a < attr_refs_in.len() {
            attr_refs.push(remap_refs(&attr_refs_in[a], &fmap, &features, FeatType::FT_STATE, p));
        } else {
            attr_refs.push(Vec::new());
        }
        p += 1;
    }
    let m = Crf1dModel {
        attr_refs,
        label_refs,
        features,
        labels: Quark::new(labels),
        attrs: Quark::from_vec(attr_strs),
    };
    proof {
        assert(m.attrs.view_seq() =~= Seq::new(
            compact_order(w@, feats@, w@.len() as int).len(),
            |p: int| attrs@[compact_order(w@, feats@, w@.len() as int)[p] as int]@,
        ));
    }
    m
}

/// A vector of `n` empty entries.
fn vec_none(n: usize) -> (r: Vec<Option<usize>>)
    ensures
        r@.len() == n,
        forall|i: int| 0 <= i < n ==> (#[trigger] r@[i]) == Option::<usize>::None,
{
    let mut v: Vec<Option<usize>> = Vec::new();
    let mut i: usize = 0;
    while i < n
        invariant
            i <= n,
            v@.len() == i,
            forall|k: int| 0 <= k < i ==> (#[trigger] v@[k]) == Option::<usize>::None,
        decreases n - i,
    {
        v.push(None);
        i += 1;
    }
    v
}

/// Map one reference list through the kept-feature map, keeping the ids
/// that address a compacted feature of the wanted kind and source.
fn remap_refs(
    refs: &Vec<usize>,
    fmap: &Vec<Option<usize>>,
    features: &Vec<Feature>,
    want: FeatType,
    src: usize,
) -> (r: FeatRefs)
    requires
        forall|j: int|
            0 <= j < fmap@.len() ==> match #[trigger] fmap@[j] {
                Option::Some(p) => p < features@.len(),
                Option::None => true,
            },
    ensures
        r@ == remap_spec(refs@, fmap@, features@, want, src as int, refs@.len() as int),
        forall|j: int|
            0 <= j < r@.len() ==> {
                &&& (#[trigger] r@[j]) < features@.len()
                &&& features@[r@[j] as int].cat == want
                &&& features@[r@[j] as int].src == src
            },
{
    let n = refs.len();
    let mut out: FeatRefs = Vec::new();
    let mut j: usize = 0;
    while j < n
        invariant
            j <= n,
            n == refs@.len(),
            forall|j2: int|
                0 <= j2 < fmap@.len() ==> match #[trigger] fmap@[j2] {
                    Option::Some(p) => p < features@.len(),
                    Option::None => true,
                },
            out@ == remap_spec(refs@, fmap@, features@, want, src as int, j as int),
            forall|j2: int|
                0 <= j2 < out@.len() ==> {
                    &&& (#[trigger] out@[j2]) < features@.len()
                    &&& features@[out@[j2] as int].cat == want
                    &&& features@[out@[j2] as int].src == src
                },
        decreases n - j,
    {
        let fid = refs[j];
        if fid < fmap.len() {
            match fmap[fid] {
                Some(p) => {
                    let matches_kind = match (features[p].cat, want) {
                        (FeatType::FT_STATE, FeatType::FT_STATE) => true,
                        (FeatType::FT_TRANS, FeatType::FT_TRANS) => true,
                        _ => false,
                    };
                    if matches_kind && features[p].src as usize == src {
                        out.push(p);
                    }
                },
                None => {},
            }
        }
        j += 1;
    }
    out
}

impl Crf1dModel {
    /// Encode the model in the binary format: the header with the magic,
    /// the recorded total size and the section offsets; the feature
    /// chunk; the two symbol-table sections (written by the `cqdb`
    /// crate); and the two reverse-index chunks.  Fails exactly when the
    /// image would not fit the format's 32-bit size and offset fields.
    #[verifier::rlimit(100)]
    #[verifier::spinoff_prover]
    pub fn to_bytes(&self) -> (r: Result<Vec<u8>, CrfError>)
        requires
            self.wf(),
        ensures
            match r {
                Result::Ok(b) => {
                    &&& !image_too_large(*self)
                    &&& b@.len() == image_size(*self)
                    &&& b@.len() >= 48
                    &&& b@[0] == 0x6Cu8 && b@[1] == 0x43u8 && b@[2] == 0x52u8 && b@[3] == 0x46u8
                    &&& le32(b@, 4) == b@.len()
                    &&& hdr(b@, 0) == self.features@.len()
                    &&& hdr(b@, 1) == self.labels.view_seq().len()
                    &&& hdr(b@, 2) == self.attrs.view_seq().len()
                    &&& hdr(b@, 3) == 48
                    &&& hdr(b@, 4) == 60 + 20 * self.features@.len()
                    &&& hdr(b@, 5) == hdr(b@, 4) + cqdb_bytes_of(self.labels.view_seq()).len()
                    &&& hdr(b@, 6) == hdr(b@, 5) + cqdb_bytes_of(self.attrs.view_seq()).len()
                    &&& hdr(b@, 7) == hdr(b@, 6) + ref_chunk_len(self.label_refs@)
                    &&& b@.subrange(
                        hdr(b@, 4),
                        hdr(b@, 4) + cqdb_bytes_of(self.labels.view_seq()).len() as int,
                    ) == cqdb_bytes_of(self.labels.view_seq())
                    &&& b@.subrange(
                        hdr(b@, 5),
                        hdr(b@, 5) + cqdb_bytes_of(self.attrs.view_seq()).len() as int,
                    ) == cqdb_bytes_of(self.attrs.view_seq())
                    &&& b@.subrange(48, hdr(b@, 4)) == feature_chunk_bytes(
                        self.features@,
                        (12 + 20 * self.features@.len()) as u32,
                    )
                    &&& b@.subrange(hdr(b@, 6), hdr(b@, 6) + ref_chunk_len(self.label_refs@))
                        == ref_chunk_bytes(
                        self.label_refs@,
                        0x4C,
                        ref_chunk_len(self.label_refs@) as u32,
                        hdr(b@, 6),
                    )
                    &&& b@.subrange(hdr(b@, 7), hdr(b@, 7) + ref_chunk_len(self.attr_refs@))
                        == ref_chunk_bytes(
                        self.attr_refs@,
                        0x41,
                        ref_chunk_len(self.attr_refs@) as u32,
                        hdr(b@, 7),
                    )
                },
                Result::Err(e) => e == CrfError::InvalidModel && image_too_large(*self),
            },
    {
        let kf = self.features.len();
        let nl = self.labels.len();
        let na = self.attrs.len();
        if !table_bound_ok(&self.labels.v) {
            return Err(CrfError::InvalidModel);
        }
        if !table_bound_ok(&self.attrs.v) {
            return Err(CrfError::InvalidModel);
        }
        let lab_bytes = cqdb_write_table(&self.labels.v);
        let attr_bytes = cqdb_write_table(&self.attrs.v);
        let layout = match image_layout(kf, lab_bytes.len(), attr_bytes.len(), &self.label_refs, &self.attr_refs) {
            Some(t) => t,
            None => {
                proof {
                    assert(lab_bytes@.len() == cqdb_bytes_of(self.labels.view_seq()).len());
                    assert(attr_bytes@.len() == cqdb_bytes_of(self.attrs.view_seq()).len());
                    assert(image_size(*self) > 0xFFFF_FFFF);
                }
                return Err(CrfError::InvalidModel);
            },
        };
        let (size, feat_chunk, off_l, off_a, off_lr, off_ar, lr_chunk, ar_chunk) = layout;
        let off_f: usize = 48;
        // Header.
        let mut out: Vec<u8> = emit_header(
            size as u32,
            kf as u32,
            nl as u32,
            na as u32,
            off_f as u32,
            off_l as u32,
            off_a as u32,
            off_lr as u32,
            off_ar as u32,
        );
        let ghost hdr48 = out@;
        // Feature chunk.
        let fbytes = emit_features(&self.features, feat_chunk as u32);
        append_vec(&mut out, &fbytes);
        // Symbol-table sections.
        let ghost pre_lab = out@.len() as int;
        append_vec(&mut out, &lab_bytes);
        let ghost pre_attr = out@.len() as int;
        append_vec(&mut out, &attr_bytes);
        // Reverse-index chunks.
        proof {
            assert forall|i: int, j: int|
                0 <= i < self.label_refs@.len() && 0 <= j < self.label_refs@[i]@.len() implies (
            #[trigger] self.label_refs@[i]@[j]) < 0x1_0000_0000 by {}
            assert forall|i: int, j: int|
                0 <= i < self.attr_refs@.len() && 0 <= j < self.attr_refs@[i]@.len() implies (
            #[trigger] self.attr_refs@[i]@[j]) < 0x1_0000_0000 by {}
        }
        let ghost pre_lr = out@.len() as int;
        let lrb = emit_ref_chunk(&self.label_refs, 0x4C, lr_chunk, off_lr);
        append_vec(&mut out, &lrb);
        let ghost pre_ar = out@.len() as int;
        let arb = emit_ref_chunk(&self.attr_refs, 0x41, ar_chunk, off_ar);
        append_vec(&mut out, &arb);
        proof {
            assert(out@.subrange(0, 48) =~= hdr48);
            assert(out@.subrange(pre_lab, pre_lab + lab_bytes@.len() as int) =~= lab_bytes@);
            assert(out@.subrange(pre_attr, pre_attr + attr_bytes@.len() as int) =~= attr_bytes@);
            assert(out@.subrange(48, 48 + fbytes@.len() as int) =~= fbytes@);
            assert(out@.subrange(pre_lr, pre_lr + lrb@.len() as int) =~= lrb@);
            assert(out@.subrange(pre_ar, pre_ar + arb@.len() as int) =~= arb@);
            assert(pre_lr == off_lr);
            assert(pre_ar == off_ar);
            assert(out@.len() == size);
            lemma_le32_offset(out@, hdr48, size as u32, 4);
            lemma_le32_offset(out@, hdr48, kf as u32, 16);
            lemma_le32_offset(out@, hdr48, nl as u32, 20);
            lemma_le32_offset(out@, hdr48, na as u32, 24);
            lemma_le32_offset(out@, hdr48, off_f as u32, 28);
            lemma_le32_offset(out@, hdr48, off_l as u32, 32);
            lemma_le32_offset(out@, hdr48, off_a as u32, 36);
            lemma_le32_offset(out@, hdr48, off_lr as u32, 40);
            lemma_le32_offset(out@, hdr48, off_ar as u32, 44);
            assert(out@[0] == hdr48[0] && out@[1] == hdr48[1] && out@[2] == hdr48[2] && out@[3]
                == hdr48[3]) by {
                assert(out@.subrange(0, 48)[0] == out@[0]);
                assert(out@.subrange(0, 48)[1] == out@[1]);
                assert(out@.subrange(0, 48)[2] == out@[2]);
                assert(out@.subrange(0, 48)[3] == out@[3]);
            }
            assert(pre_lab == off_l);
            assert(pre_attr == off_a);
        }
        Ok(out)
    }
}


/// The 20-byte records of the first `n` features: kind, source,
/// destination, and the weight bits, all little-endian.
pub open spec fn feature_records(features: Seq<Feature>, n: int) -> Seq<u8>
    decreases n,
{
    if n <= 0 {
        Seq::empty()
    } else {
        let f = features[n - 1];
        feature_records(features, n - 1) + le32_bytes(
            if f.cat == FeatType::FT_STATE {
                0u32
            } else {
                1u32
            },
        ) + le32_bytes(f.src) + le32_bytes(f.dst) + le64_bytes(f.weight)
    }
}

/// The feature chunk: its identifier, its recorded size and count, and
/// the records.
pub open spec fn feature_chunk_bytes(features: Seq<Feature>, chunk: u32) -> Seq<u8> {
    seq![0x46u8, 0x45u8, 0x41u8, 0x54u8] + le32_bytes(chunk) + le32_bytes(
        features.len() as u32,
    ) + feature_records(features, features.len() as int)
}

/// The offset table of a reverse-index chunk placed at `off`: the
/// absolute position of each list.
pub open spec fn ref_table_bytes(refs: Seq<FeatRefs>, off: int, n: int) -> Seq<u8>
    decreases n,
{
    if n <= 0 {
        Seq::empty()
    } else {
        ref_table_bytes(refs, off, n - 1) + le32_bytes(
            (off + 12 + 4 * refs.len() + chunk_lists_len(refs, n - 1)) as u32,
        )
    }
}

/// The id lists of a reverse-index chunk: each list's length then its
/// ids, little-endian.
pub open spec fn ref_list_bytes(refs: Seq<FeatRefs>, n: int) -> Seq<u8>
    decreases n,
{
    if n <= 0 {
        Seq::empty()
    } else {
        ref_list_bytes(refs, n - 1) + le32_bytes(refs[n - 1]@.len() as u32) + ref_ids_bytes(
            refs[n - 1]@,
            refs[n - 1]@.len() as int,
        )
    }
}

/// The ids of one list, little-endian.
pub open spec fn ref_ids_bytes(ids: Seq<usize>, n: int) -> Seq<u8>
    decreases n,
{
    if n <= 0 {
        Seq::empty()
    } else {
        ref_ids_bytes(ids, n - 1) + le32_bytes(ids[n - 1] as u32)
    }
}

/// A whole reverse-index chunk placed at `off`: the section identifier,
/// the recorded chunk size and entry count, the offset table and the
/// lists.
pub open spec fn ref_chunk_bytes(refs: Seq<FeatRefs>, idb: u8, chunk: u32, off: int) -> Seq<u8> {
    seq![idb, 0x46u8, 0x52u8, 0x46u8] + le32_bytes(chunk) + le32_bytes(refs.len() as u32)
        + ref_table_bytes(refs, off, refs.len() as int) + ref_list_bytes(refs, refs.len() as int)
}

/// The layout of a model image over the given symbol-section lengths:
/// the total size, the feature-chunk size, the four section offsets and
/// the two reverse-index chunk sizes -- or nothing when the total
/// exceeds the format's 32-bit size field.
fn image_layout(
    kf: usize,
    lab_len: usize,
    attr_len: usize,
    label_refs: &Vec<FeatRefs>,
    attr_refs: &Vec<FeatRefs>,
) -> (r: Option<(usize, usize, usize, usize, usize, usize, usize, usize)>)
    requires
        kf < 0x1_0000_0000,
        lab_len < 0x1_0000_0000,
        attr_len < 0x1_0000_0000,
    ensures
        match r {
            Option::Some(t) => {
                &&& t.6 == ref_chunk_len(label_refs@)
                &&& t.7 == ref_chunk_len(attr_refs@)
                &&& t.1 == 12 + 20 * kf
                &&& t.2 == 48 + t.1
                &&& t.3 == t.2 + lab_len
                &&& t.4 == t.3 + attr_len
                &&& t.5 == t.4 + t.6
                &&& t.0 == t.5 + t.7
                &&& t.0 <= 0xFFFF_FFFF
            },
            Option::None => 60 + 20 * kf + lab_len + attr_len + ref_chunk_len(label_refs@)
                + ref_chunk_len(attr_refs@) > 0xFFFF_FFFF,
        },
{
    let limit: usize = 0xFFFF_FFFF;
    let lr_chunk = match chunk_size(label_refs, limit) {
        Some(c) => c,
        None => {
            proof {
                lemma_chunk_lists_nonneg(attr_refs@, attr_refs@.len() as int);
            }
            return None;
        },
    };
    let ar_chunk = match chunk_size(attr_refs, limit) {
        Some(c) => c,
        None => {
            proof {
                lemma_chunk_lists_nonneg(label_refs@, label_refs@.len() as int);
            }
            return None;
        },
    };
    let feat_chunk64: u64 = 12 + 20 * (kf as u64);
    let total64: u64 = 48 + feat_chunk64 + lab_len as u64 + attr_len as u64 + lr_chunk as u64
        + ar_chunk as u64;
    if total64 > 0xFFFF_FFFF {
        return None;
    }
    let size: usize = total64 as usize;
    let feat_chunk: usize = 12 + 20 * kf;
    let off_l: usize = 48 + feat_chunk;
    let off_a: usize = off_l + lab_len;
    let off_lr: usize = off_a + attr_len;
    let off_ar: usize = off_lr + lr_chunk;
    Some((size, feat_chunk, off_l, off_a, off_lr, off_ar, lr_chunk, ar_chunk))
}

/// The byte size of a reverse-index chunk, or nothing when it exceeds
/// the format's 32-bit size field.
fn chunk_size(refs: &Vec<FeatRefs>, limit: usize) -> (r: Option<usize>)
    requires
        16 <= limit,
    ensures
        match r {
            Option::Some(c) => c == ref_chunk_len(refs@) && c <= limit,
            Option::None => ref_chunk_len(refs@) > limit,
        },
{
    let n = refs.len();
    if n > (limit - 12) / 4 {
        proof {
            lemma_chunk_lists_nonneg(refs@, n as int);
        }
        return None;
    }
    let mut total: usize = 12 + 4 * n;
    let mut i: usize = 0;
    while i < n
        invariant
            i <= n,
            n == refs@.len(),
            16 <= limit,
            total <= limit,
            total == 12 + 4 * n + chunk_lists_len(refs@, i as int),
        decreases n - i,
    {
        let len = refs[i].len();
        if len > (limit - 4) / 4 {
            proof {
                lemma_chunk_lists_mono(refs@, i + 1, n as int);
            }
            return None;
        }
        let add_sz = 4 + 4 * len;
        if add_sz > limit - total {
            proof {
                lemma_chunk_lists_mono(refs@, i + 1, n as int);
            }
            return None;
        }
        total = total + add_sz;
        i += 1;
    }
    Some(total)
}

/// One reverse-index chunk: the id byte names the section, the chunk
/// records its own size and entry count, then the offset table of
/// absolute list positions and the lists themselves.
#[verifier::rlimit(50)]
fn emit_ref_chunk(refs: &Vec<FeatRefs>, idb: u8, chunk: usize, off: usize) -> (r: Vec<u8>)
    requires
        refs@.len() < 0x1_0000_0000,
        chunk == ref_chunk_len(refs@),
        chunk <= 0xFFFF_FFFF,
        off + chunk <= 0xFFFF_FFFF,
        forall|i: int, j: int|
            0 <= i < refs@.len() && 0 <= j < refs@[i]@.len() ==> (#[trigger] refs@[i]@[j])
                < 0x1_0000_0000,
    ensures
        r@.len() == ref_chunk_len(refs@),
        r@ == ref_chunk_bytes(refs@, idb, chunk as u32, off as int),
{
    let ghost rs = refs@;
    let n = refs.len();
    let mut out: Vec<u8> = Vec::new();
    out.push(idb);
    out.push(0x46);  // "FR"
    out.push(0x52);
    out.push(0x46);
    push_u32(&mut out, chunk as u32);
    push_u32(&mut out, n as u32);
    let ghost hdr12 = out@;
    proof {
        assert(hdr12 =~= seq![idb, 0x46u8, 0x52u8, 0x46u8] + le32_bytes(chunk as u32)
            + le32_bytes(n as u32));
    }
    // Offset table: absolute positions of each list.
    let mut pos_check: u64 = off as u64 + 12 + 4 * (n as u64);
    let mut i: usize = 0;
    while i < n
        invariant
            i <= n,
            n == rs.len(),
            rs == refs@,
            chunk == ref_chunk_len(rs),
            chunk <= 0xFFFF_FFFF,
            off + chunk <= 0xFFFF_FFFF,
            hdr12 =~= seq![idb, 0x46u8, 0x52u8, 0x46u8] + le32_bytes(chunk as u32) + le32_bytes(
                n as u32,
            ),
            pos_check == off + 12 + 4 * n + chunk_lists_len(rs, i as int),
            out@ =~= hdr12 + ref_table_bytes(rs, off as int, i as int),
        decreases n - i,
    {
        proof {
            lemma_chunk_lists_nonneg(rs, i as int);
            lemma_chunk_lists_mono(rs, i as int, n as int);
        }
        push_u32(&mut out, saturating_pos(pos_check));
        pos_check = next_pos(pos_check, refs[i].len());
        proof {
            lemma_chunk_lists_mono(rs, i + 1, n as int);
            assert(out@ =~= hdr12 + ref_table_bytes(rs, off as int, i + 1));
        }
        i += 1;
    }
    let ghost table = out@;
    proof {
        lemma_ref_table_bytes_len(rs, off as int, n as int);
    }
    // The lists.
    let mut i: usize = 0;
    while i < n
        invariant
            i <= n,
            n == rs.len(),
            rs == refs@,
            chunk == ref_chunk_len(rs),
            chunk <= 0xFFFF_FFFF,
            off + chunk <= 0xFFFF_FFFF,
            forall|i2: int, j: int|
                0 <= i2 < rs.len() && 0 <= j < rs[i2]@.len() ==> (#[trigger] rs[i2]@[j])
                    < 0x1_0000_0000,
            table == hdr12 + ref_table_bytes(rs, off as int, n as int),
            table.len() == 12 + 4 * n,
            out@ =~= table + ref_list_bytes(rs, i as int),
        decreases n - i,
    {
        let len = refs[i].len();
        proof {
            lemma_chunk_lists_nonneg(rs, i as int);
            lemma_chunk_lists_mono(rs, i + 1, n as int);
        }
        push_u32(&mut out, saturating_pos(len as u64));
        let ghost list_start = out@;
        let mut j: usize = 0;
        while j < len
            invariant
                j <= len,
                i < n,
                n == rs.len(),
                rs == refs@,
                len == rs[i as int]@.len(),
                forall|i2: int, j2: int|
                    0 <= i2 < rs.len() && 0 <= j2 < rs[i2]@.len() ==> (#[trigger] rs[i2]@[j2])
                        < 0x1_0000_0000,
                list_start == out_base_for_list(table, rs, i as int),
                out@ =~= list_start + ref_ids_bytes(rs[i as int]@, j as int),
            decreases len - j,
        {
            push_u32(&mut out, saturating_pos(refs[i][j] as u64));
            proof {
                assert(out@ =~= list_start + ref_ids_bytes(rs[i as int]@, j + 1));
            }
            j += 1;
        }
        proof {
            assert(out@ =~= table + ref_list_bytes(rs, i + 1));
        }
        i += 1;
    }
    proof {
        assert(out@ =~= ref_chunk_bytes(rs, idb, chunk as u32, off as int));
        lemma_ref_chunk_bytes_len(rs, idb, chunk as u32, off as int);
    }
    out
}

/// The bytes of a list section up to (and including) one list's length
/// field.
pub open spec fn out_base_for_list(table: Seq<u8>, rs: Seq<FeatRefs>, i: int) -> Seq<u8> {
    table + ref_list_bytes(rs, i) + le32_bytes(rs[i]@.len() as u32)
}

/// The chunk bytes have exactly the chunk's recorded size.
pub proof fn lemma_ref_chunk_bytes_len(refs: Seq<FeatRefs>, idb: u8, chunk: u32, off: int)
    ensures
        ref_chunk_bytes(refs, idb, chunk, off).len() == ref_chunk_len(refs),
{
    lemma_ref_table_bytes_len(refs, off, refs.len() as int);
    lemma_ref_list_bytes_len(refs, refs.len() as int);
}

proof fn lemma_ref_table_bytes_len(refs: Seq<FeatRefs>, off: int, n: int)
    ensures
        n >= 0 ==> ref_table_bytes(refs, off, n).len() == 4 * n,
        n < 0 ==> ref_table_bytes(refs, off, n).len() == 0,
    decreases n,
{
    if n > 0 {
        lemma_ref_table_bytes_len(refs, off, n - 1);
    }
}

proof fn lemma_ref_list_bytes_len(refs: Seq<FeatRefs>, n: int)
    ensures
        ref_list_bytes(refs, n).len() == chunk_lists_len(refs, n),
    decreases n,
{
    if n > 0 {
        lemma_ref_list_bytes_len(refs, n - 1);
        lemma_ref_ids_bytes_len(refs[n - 1]@, refs[n - 1]@.len() as int);
    }
}

proof fn lemma_ref_ids_bytes_len(ids: Seq<usize>, n: int)
    ensures
        n >= 0 ==> ref_ids_bytes(ids, n).len() == 4 * n,
        n < 0 ==> ref_ids_bytes(ids, n).len() == 0,
    decreases n,
{
    if n > 0 {
        lemma_ref_ids_bytes_len(ids, n - 1);
    }
}

/// The 48-byte header: the magic, the recorded size, the type tag and
/// version, and the counts and section offsets.
fn emit_header(
    size: u32,
    kf: u32,
    nl: u32,
    na: u32,
    off_f: u32,
    off_l: u32,
    off_a: u32,
    off_lr: u32,
    off_ar: u32,
) -> (r: Vec<u8>)
    ensures
        r@.len() == 48,
        r@[0] == 0x6Cu8 && r@[1] == 0x43u8 && r@[2] == 0x52u8 && r@[3] == 0x46u8,
        forall|k: int| 0 <= k < 4 ==> r@[4 + k] == le32_bytes(size)[k],
        forall|k: int| 0 <= k < 4 ==> r@[16 + k] == le32_bytes(kf)[k],
        forall|k: int| 0 <= k < 4 ==> r@[20 + k] == le32_bytes(nl)[k],
        forall|k: int| 0 <= k < 4 ==> r@[24 + k] == le32_bytes(na)[k],
        forall|k: int| 0 <= k < 4 ==> r@[28 + k] == le32_bytes(off_f)[k],
        forall|k: int| 0 <= k < 4 ==> r@[32 + k] == le32_bytes(off_l)[k],
        forall|k: int| 0 <= k < 4 ==> r@[36 + k] == le32_bytes(off_a)[k],
        forall|k: int| 0 <= k < 4 ==> r@[40 + k] == le32_bytes(off_lr)[k],
        forall|k: int| 0 <= k < 4 ==> r@[44 + k] == le32_bytes(off_ar)[k],
{
    let mut out: Vec<u8> = Vec::new();
    out.push(0x6C);
    out.push(0x43);
    out.push(0x52);
    out.push(0x46);
    push_u32(&mut out, size);
    out.push(0x46);  // type tag "FOMC"
    out.push(0x4F);
    out.push(0x4D);
    out.push(0x43);
    push_u32(&mut out, 100);
    push_u32(&mut out, kf);
    push_u32(&mut out, nl);
    push_u32(&mut out, na);
    push_u32(&mut out, off_f);
    push_u32(&mut out, off_l);
    push_u32(&mut out, off_a);
    push_u32(&mut out, off_lr);
    push_u32(&mut out, off_ar);
    out
}

/// The feature chunk: its id, its size and count, and the 20-byte
/// records.
fn emit_features(features: &Vec<Feature>, chunk: u32) -> (r: Vec<u8>)
    requires
        features@.len() < 0x1_0000_0000,
        12 + 20 * features@.len() <= usize::MAX,
    ensures
        r@.len() == 12 + 20 * features@.len(),
        r@ == feature_chunk_bytes(features@, chunk),
{
    let ghost fs = features@;
    let kf = features.len();
    let mut out: Vec<u8> = Vec::new();
    out.push(0x46);  // chunk id "FEAT"
    out.push(0x45);
    out.push(0x41);
    out.push(0x54);
    push_u32(&mut out, chunk);
    push_u32(&mut out, kf as u32);
    let ghost hdr12 = out@;
    proof {
        assert(hdr12 =~= seq![0x46u8, 0x45u8, 0x41u8, 0x54u8] + le32_bytes(chunk) + le32_bytes(
            kf as u32,
        ));
    }
    let mut k: usize = 0;
    while k < kf
        invariant
            k <= kf,
            kf == fs.len(),
            fs == features@,
            12 + 20 * kf <= usize::MAX,
            out@.len() == 12 + 20 * k,
            hdr12 =~= seq![0x46u8, 0x45u8, 0x41u8, 0x54u8] + le32_bytes(chunk) + le32_bytes(
                kf as u32,
            ),
            out@ =~= hdr12 + feature_records(fs, k as int),
        decreases kf - k,
    {
        let f = &features[k];
        let cat: u32 = match f.cat {
            FeatType::FT_STATE => 0,
            FeatType::FT_TRANS => 1,
        };
        push_u32(&mut out, cat);
        push_u32(&mut out, f.src);
        push_u32(&mut out, f.dst);
        push_u64(&mut out, f.weight);
        proof {
            assert(out@ =~= hdr12 + feature_records(fs, k + 1));
        }
        k += 1;
    }
    proof {
        assert(out@ =~= feature_chunk_bytes(fs, chunk));
    }
    out
}

/// A position clamped into the 32-bit field; exact when it fits.
fn saturating_pos(p: u64) -> (r: u32)
    ensures
        p <= 0xFFFF_FFFF ==> r == p,
{
    if p > 0xFFFF_FFFF {
        0xFFFF_FFFF
    } else {
        p as u32
    }
}

/// The next absolute list position, clamped against overflow; exact
/// when everything fits the 32-bit field.
fn next_pos(p: u64, len: usize) -> (r: u64)
    ensures
        p <= 0xFFFF_FFFF && len <= 0x3FFF_FFFF ==> r == p + 4 + 4 * len,
{
    if p > 0xFFFF_FFFF || len > 0x3FFF_FFFF {
        0xFFFF_FFFF
    } else {
        p + 4 + 4 * (len as u64)
    }
}

/// Reading a 32-bit header field of a buffer whose 48-byte prefix was
/// assembled from pushed little-endian fields gives the pushed value.
proof fn lemma_le32_offset(b: Seq<u8>, hdr48: Seq<u8>, x: u32, off: int)
    requires
        hdr48.len() == 48,
        b.len() >= 48,
        b.subrange(0, 48) == hdr48,
        0 <= off,
        off + 4 <= 48,
        forall|k: int| 0 <= k < 4 ==> hdr48[off + k] == le32_bytes(x)[k],
    ensures
        le32(b, off) == x,
{
    lemma_le32_round_trip(x);
    assert forall|k: int| 0 <= k < 4 implies b[off + k] == le32_bytes(x)[k] by {
        assert(b.subrange(0, 48)[off + k] == b[off + k]);
    }
}

/// A persisted model: its symbol tables and its byte-level encode and
/// decode.
pub trait Model: Sized {
    fn get_labels(&self) -> &Quark;

    fn get_attrs(&self) -> &Quark;

    fn load(bytes: Vec<u8>) -> Result<Self, CrfError>;

    fn save(&self) -> Result<Vec<u8>, CrfError>;
}

impl Model for Crf1dModel {
    fn get_labels(&self) -> &Quark {
        &self.labels
    }

    fn get_attrs(&self) -> &Quark {
        &self.attrs
    }

    fn load(bytes: Vec<u8>) -> Result<Crf1dModel, CrfError> {
        Crf1dModel::from_memory(bytes)
    }

    fn save(&self) -> Result<Vec<u8>, CrfError> {
        if !check_model(self) {
            return Err(CrfError::InvalidModel);
        }
        self.to_bytes()
    }
}

/// Runtime well-formedness check of a model assembled by a caller: the
/// byte encoder demands `wf`, which unverified callers cannot be held
/// to, so `save` re-establishes it here.
fn check_model(m: &Crf1dModel) -> (r: bool)
    ensures
        r ==> m.wf(),
{
    let nl = m.labels.len();
    let na = m.attrs.len();
    let kf = m.features.len();
    if m.label_refs.len() != nl || m.attr_refs.len() != na {
        return false;
    }
    if !(nl < 0xFFFF_FFFF && na < 0xFFFF_FFFF && kf < 0xFFFF_FFFF) {
        return false;
    }
    let mut k: usize = 0;
    while k < kf
        invariant
            k <= kf,
            kf == m.features@.len(),
            nl == m.labels.view_seq().len(),
            na == m.attrs.view_seq().len(),
            forall|k2: int|
                0 <= k2 < k ==> {
                    &&& (#[trigger] m.features@[k2]).dst < nl
                    &&& (m.features@[k2].cat == FeatType::FT_STATE ==> m.features@[k2].src < na)
                    &&& (m.features@[k2].cat == FeatType::FT_TRANS ==> m.features@[k2].src < nl)
                },
        decreases kf - k,
    {
        let f = &m.features[k];
        if f.dst as usize >= nl {
            return false;
        }
        let src_ok = match f.cat {
            FeatType::FT_STATE => (f.src as usize) < na,
            FeatType::FT_TRANS => (f.src as usize) < nl,
        };
        if !src_ok {
            return false;
        }
        k += 1;
    }
    if !check_refs(&m.label_refs, &m.features, false, kf) {
        return false;
    }
    if !check_refs(&m.attr_refs, &m.features, true, kf) {
        return false;
    }
    true
}

/// Whether every reverse-index list addresses features of the given
/// kind whose source is the list's index.
fn check_refs(refs: &Vec<FeatRefs>, features: &Vec<Feature>, want_state: bool, kf: usize) -> (r:
    bool)
    requires
        kf == features@.len(),
    ensures
        r ==> forall|i: int, j: int|
            0 <= i < refs@.len() && 0 <= j < refs@[i]@.len() ==> {
                &&& (#[trigger] refs@[i]@[j]) < features@.len()
                &&& features@[refs@[i]@[j] as int].cat == (if want_state {
                    FeatType::FT_STATE
                } else {
                    FeatType::FT_TRANS
                })
                &&& features@[refs@[i]@[j] as int].src == i
            },
{
    let n = refs.len();
    let mut i: usize = 0;
    while i < n
        invariant
            i <= n,
            n == refs@.len(),
            kf == features@.len(),
            forall|i2: int, j: int|
                0 <= i2 < i && 0 <= j < refs@[i2]@.len() ==> {
                    &&& (#[trigger] refs@[i2]@[j]) < features@.len()
                    &&& features@[refs@[i2]@[j] as int].cat == (if want_state {
                        FeatType::FT_STATE
                    } else {
                        FeatType::FT_TRANS
                    })
                    &&& features@[refs@[i2]@[j] as int].src == i2
                },
        decreases n - i,
    {
        let len = refs[i].len();
        let mut j: usize = 0;
        while j < len
            invariant
                j <= len,
                i < n,
                n == refs@.len(),
                kf == features@.len(),
                len == refs@[i as int]@.len(),
                forall|j2: int|
                    0 <= j2 < j ==> {
                        &&& (#[trigger] refs@[i as int]@[j2]) < features@.len()
                        &&& features@[refs@[i as int]@[j2] as int].cat == (if want_state {
                            FeatType::FT_STATE
                        } else {
                            FeatType::FT_TRANS
                        })
                        &&& features@[refs@[i as int]@[j2] as int].src == i
                    },
            decreases len - j,
        {
            let fid = refs[i][j];
            if fid >= kf {
                return false;
            }
            let cat_ok = match (features[fid].cat, want_state) {
                (FeatType::FT_STATE, true) => true,
                (FeatType::FT_TRANS, false) => true,
                _ => false,
            };
            if !cat_ok || features[fid].src as usize != i {
                return false;
            }
            j += 1;
        }
        i += 1;
    }
    true
}

} // verus!
