//! The hash-chained ledger of (student name, grade) records.
//!
//! Every record binds its predecessor: its `hash` field is the chain digest
//! of the record's own name and grade text together with the decimal text of
//! the previous record's hash (zero for the first record).  Grades travel
//! through the system as their decimal text, so one byte-identical formatting
//! is used by every node.  The digest is a 64-bit
//! Fowler-Noll-Vo-style fold over the characters, fixed here so that every
//! node computes the same chain.

use vstd::prelude::*;
use vstd::string::StrSliceExecFns;
use vstd::string::StringExecFns;
use crate::digits::spec_dec;
use crate::digits::spec_parse_u64;
use crate::digits::u64_to_string;
use crate::digits::parse_u64;
use crate::text::spec_split;
use crate::text::spec_join;
use crate::text::views_of;
use crate::text::split_str;

verus! {

pub const DIGEST_SEED: u64 = 0xcbf2_9ce4_8422_2325;

pub const DIGEST_PRIME: u64 = 0x100_0000_01b3;

/// One digest round: fold the next character into the state.
pub open spec fn digest_step(h: u64, c: char) -> u64 {
    vstd::wrapping::u64_specs::wrapping_mul(h ^ (c as u64), DIGEST_PRIME)
}

pub open spec fn spec_digest_from(h: u64, s: Seq<char>) -> u64
    decreases s.len(),
{
    if s.len() == 0 {
        h
    } else {
        spec_digest_from(digest_step(h, s[0]), s.drop_first())
    }
}

/// The chain digest of a piece of text.
pub open spec fn spec_digest(s: Seq<char>) -> u64 {
    spec_digest_from(DIGEST_SEED, s)
}

/// Digest of name, grade text and the decimal text of the previous hash,
/// concatenated: what a record's `hash` field must hold.
#[verifier::opaque]
pub open spec fn spec_generate_hash(name: Seq<char>, grade: Seq<char>, prev: u64) -> u64 {
    spec_digest(name + grade + spec_dec(prev as nat))
}

/// One ledger entry.  The grade is carried as its decimal text, exactly as
/// it is hashed and serialized.
#[derive(Debug)]
pub struct BlockchainRecord {
    pub student_name: String,
    pub grade: String,
    pub hash: u64,
}

/// Mathematical model of a record.
#[verifier::ext_equal]
pub struct RecordModel {
    pub name: Seq<char>,
    pub grade: Seq<char>,
    pub hash: u64,
}

impl View for BlockchainRecord {
    type V = RecordModel;

    open spec fn view(&self) -> RecordModel {
        RecordModel { name: self.student_name@, grade: self.grade@, hash: self.hash }
    }
}

impl BlockchainRecord {
    pub fn clone(&self) -> (r: Self)
        ensures
            r@ == self@,
    {
        BlockchainRecord {
            student_name: self.student_name.clone(),
            grade: self.grade.clone(),
            hash: self.hash,
        }
    }
}

/// The ledger: an append-only sequence of records.
#[derive(Debug)]
pub struct Blockchain {
    records: Vec<BlockchainRecord>,
}

impl View for Blockchain {
    type V = Seq<RecordModel>;

    closed spec fn view(&self) -> Seq<RecordModel> {
        self.records@.map_values(|r: BlockchainRecord| r@)
    }
}

/// Hash of the predecessor of a record appended to `rs`: zero for the first.
pub open spec fn spec_chain_prev(rs: Seq<RecordModel>) -> u64 {
    if rs.len() == 0 {
        0u64
    } else {
        rs.last().hash
    }
}

/// The chain invariant: every record's hash is the digest of its own fields
/// and its predecessor's hash.
pub open spec fn chain_valid(rs: Seq<RecordModel>) -> bool {
    forall|i: int|
        0 <= i < rs.len() ==> (#[trigger] rs[i]).hash == spec_generate_hash(
            rs[i].name,
            rs[i].grade,
            if i == 0 {
                0u64
            } else {
                rs[i - 1].hash
            },
        )
}

/// The serialized text of one record: `name,grade,hash`.
pub open spec fn record_chunk(r: RecordModel) -> Seq<char> {
    r.name + seq![','] + r.grade + seq![','] + spec_dec(r.hash as nat)
}

/// Serialized ledger: record chunks joined with `;`; empty text for the
/// empty ledger.
pub open spec fn spec_serialize(rs: Seq<RecordModel>) -> Seq<char> {
    spec_join(rs.map_values(|r: RecordModel| record_chunk(r)), ';')
}

/// The record a chunk of serialized text denotes: its first three
/// comma-separated fields, when there are at least three and the third is a
/// decimal hash that fits; nothing otherwise.
pub open spec fn chunk_record(c: Seq<char>) -> Option<RecordModel> {
    let fields = spec_split(c, ',');
    if fields.len() > 2 {
        match spec_parse_u64(fields[2]) {
            Some(h) => Some(RecordModel { name: fields[0], grade: fields[1], hash: h }),
            None => None,
        }
    } else {
        None
    }
}

pub open spec fn parse_chunks(chunks: Seq<Seq<char>>) -> Seq<RecordModel>
    decreases chunks.len(),
{
    if chunks.len() == 0 {
        Seq::empty()
    } else {
        parse_chunks(chunks.drop_last()) + match chunk_record(chunks.last()) {
            Some(r) => seq![r],
            None => Seq::empty(),
        }
    }
}

/// The ledger denoted by serialized text: the records of its well-formed
/// `;`-separated chunks, in order.
pub open spec fn spec_parse_chain(s: Seq<char>) -> Seq<RecordModel> {
    parse_chunks(spec_split(s, ';'))
}

/// The chain digest of `a_string`.
pub fn hash(a_string: String) -> (h: u64)
    ensures
        h == spec_digest(a_string@),
{
    let s = a_string.as_str();
    let len = s.unicode_len();
    let mut h: u64 = DIGEST_SEED;
    proof {
        assert(s@.subrange(0, len as int) =~= s@);
    }
    let mut i: usize = 0;
    while i < len
        invariant
            0 <= i <= len,
            len == s@.len(),
            s@ == a_string@,
            spec_digest(a_string@) == spec_digest_from(h, s@.subrange(i as int, len as int)),
        decreases len - i,
    {
        let c = s.get_char(i);
        let ghost tail = s@.subrange(i as int, len as int);
        proof {
            assert(tail[0] == s@[i as int]);
            assert(tail.drop_first() =~= s@.subrange(i as int + 1, len as int));
        }
        h = (h ^ (c as u64)).wrapping_mul(DIGEST_PRIME);
        i = i + 1;
    }
    proof {
        assert(s@.subrange(len as int, len as int) =~= Seq::<char>::empty());
    }
    h
}

/// The hash a record must carry: digest of the name, the grade text and the
/// decimal text of the previous record's hash.
pub fn generate_hash(student_name: &String, grade: &String, previous_record_hash: u64) -> (h: u64)
    ensures
        h == spec_generate_hash(student_name@, grade@, previous_record_hash),
{
    let mut t = student_name.clone();
    t.append(grade.as_str());
    let p = u64_to_string(previous_record_hash);
    t.append(p.as_str());
    proof {
        reveal(spec_generate_hash);
        assert(t@ =~= student_name@ + grade@ + spec_dec(previous_record_hash as nat));
    }
    hash(t)
}

/// The record one serialized chunk denotes, if it is well formed.
fn parse_record_chunk(chunk: &String) -> (r: Option<BlockchainRecord>)
    ensures
        match r {
            Some(rec) => chunk_record(chunk@) == Some(rec@),
            None => chunk_record(chunk@) is None,
        },
{
    let fields = split_str(chunk.as_str(), ',');
    if fields.len() > 2 {
        proof {
            assert(views_of(fields@)[0] == fields@[0]@);
            assert(views_of(fields@)[1] == fields@[1]@);
            assert(views_of(fields@)[2] == fields@[2]@);
        }
        match parse_u64(fields[2].as_str()) {
            Some(h) => Some(
                BlockchainRecord {
                    student_name: fields[0].clone(),
                    grade: fields[1].clone(),
                    hash: h,
                },
            ),
            None => None,
        }
    } else {
        None
    }
}

impl Blockchain {
    /// A new, empty ledger.
    pub fn new() -> (r: Blockchain)
        ensures
            r@ == Seq::<RecordModel>::empty(),
    {
        let r = Blockchain { records: Vec::new() };
        proof {
            assert(r@ =~= Seq::<RecordModel>::empty());
        }
        r
    }

    /// An independent copy holding the same records.
    pub fn clone(&self) -> (r: Blockchain)
        ensures
            r@ == self@,
    {
        let mut records: Vec<BlockchainRecord> = Vec::new();
        let n = self.records.len();
        let mut i: usize = 0;
        while i < n
            invariant
                0 <= i <= n,
                n == self.records.len(),
                records@.map_values(|r: BlockchainRecord| r@) =~= self@.subrange(0, i as int),
            decreases n - i,
        {
            let rec = self.records[i].clone();
            proof {
                assert(self@[i as int] == self.records@[i as int]@);
                assert(records@.push(rec).map_values(|r: BlockchainRecord| r@) =~= records@
                    .map_values(|r: BlockchainRecord| r@).push(rec@));
                assert(self@.subrange(0, i as int).push(self@[i as int]) =~= self@.subrange(
                    0,
                    i as int + 1,
                ));
            }
            records.push(rec);
            i = i + 1;
        }
        proof {
            assert(self@.subrange(0, n as int) =~= self@);
        }
        Blockchain { records }
    }

    /// The records, oldest first.
    pub fn records(&self) -> (r: &Vec<BlockchainRecord>)
        ensures
            r@.map_values(|rec: BlockchainRecord| rec@) == self@,
    {
        &self.records
    }

    /// The most recent record, if any.
    pub fn last_record(&self) -> (r: Option<&BlockchainRecord>)
        ensures
            match r {
                None => self@.len() == 0,
                Some(rec) => self@.len() > 0 && rec@ == self@.last(),
            },
    {
        let n = self.records.len();
        if n == 0 {
            None
        } else {
            let rec = &self.records[n - 1];
            proof {
                assert(self@[n - 1] == self.records@[n - 1]@);
            }
            Some(rec)
        }
    }

    /// Append a new record for `student_name` with the given grade text,
    /// computing its hash from the current end of the chain.
    pub fn add_grade(&mut self, student_name: String, grade: String)
        ensures
            final(self)@ == old(self)@.push(
                RecordModel {
                    name: student_name@,
                    grade: grade@,
                    hash: spec_generate_hash(student_name@, grade@, spec_chain_prev(old(self)@)),
                },
            ),
    {
        let n = self.records.len();
        let previous_record_hash: u64 = if n == 0 {
            0
        } else {
            proof {
                assert(self@[n - 1] == self.records@[n - 1]@);
            }
            self.records[n - 1].hash
        };
        let hash = generate_hash(&student_name, &grade, previous_record_hash);
        let ghost before = self@;
        self.records.push(BlockchainRecord { student_name, grade, hash });
        proof {
            assert(final(self)@ =~= before.push(
                RecordModel {
                    name: student_name@,
                    grade: grade@,
                    hash: spec_generate_hash(student_name@, grade@, spec_chain_prev(before)),
                },
            ));
        }
    }

    /// Append a record exactly as given, without recomputing its hash; a
    /// non-matching hash leaves the ledger detectably invalid.
    pub fn add_record(&mut self, record: BlockchainRecord)
        ensures
            final(self)@ == old(self)@.push(record@),
    {
        let ghost before = self@;
        let ghost rm = record@;
        self.records.push(record);
        proof {
            assert(final(self)@ =~= before.push(rm));
        }
    }

    /// Whether every record satisfies the chain invariant.  An empty ledger
    /// is valid.
    #[verifier::rlimit(25)]
    pub fn is_valid(&self) -> (r: bool)
        ensures
            r == chain_valid(self@),
    {
        let n = self.records.len();
        let mut last_hash: u64 = 0;
        let mut i: usize = 0;
        while i < n
            invariant
                0 <= i <= n,
                n == self.records.len(),
                forall|j: int|
                    0 <= j < i ==> (#[trigger] self@[j]).hash == spec_generate_hash(
                        self@[j].name,
                        self@[j].grade,
                        if j == 0 {
                            0u64
                        } else {
                            self@[j - 1].hash
                        },
                    ),
                last_hash == if i == 0 {
                    0u64
                } else {
                    self@[i - 1].hash
                },
            decreases n - i,
        {
            let rec = &self.records[i];
            proof {
                assert(self@[i as int] == self.records@[i as int]@);
            }
            let expected = generate_hash(&rec.student_name, &rec.grade, last_hash);
            if expected != rec.hash {
                return false;
            }
            last_hash = rec.hash;
            i = i + 1;
        }
        true
    }

    /// The ledger denoted by serialized text; chunks that are not
    /// well-formed records are passed over.
    pub fn from_str(blockchain_as_str: String) -> (r: Blockchain)
        ensures
            r@ == spec_parse_chain(blockchain_as_str@),
    {
        let chunks = split_str(blockchain_as_str.as_str(), ';');
        let n = chunks.len();
        let mut records: Vec<BlockchainRecord> = Vec::new();
        proof {
            assert(views_of(chunks@).subrange(0, 0) =~= Seq::<Seq<char>>::empty());
            assert(records@.map_values(|r: BlockchainRecord| r@) =~= parse_chunks(
                views_of(chunks@).subrange(0, 0),
            ));
        }
        let mut i: usize = 0;
        while i < n
            invariant
                0 <= i <= n,
                n == chunks.len(),
                views_of(chunks@) == spec_split(blockchain_as_str@, ';'),
                records@.map_values(|r: BlockchainRecord| r@) == parse_chunks(
                    views_of(chunks@).subrange(0, i as int),
                ),
            decreases n - i,
        {
            let ghost prefix = views_of(chunks@).subrange(0, i as int);
            let ghost next_prefix = views_of(chunks@).subrange(0, i as int + 1);
            proof {
                assert(next_prefix.drop_last() =~= prefix);
                assert(next_prefix.last() == views_of(chunks@)[i as int]);
                assert(views_of(chunks@)[i as int] == chunks@[i as int]@);
            }
            match parse_record_chunk(&chunks[i]) {
                Some(rec) => {
                    proof {
                        assert(records@.push(rec).map_values(|r: BlockchainRecord| r@)
                            =~= records@.map_values(|r: BlockchainRecord| r@).push(rec@));
                        assert(parse_chunks(next_prefix) =~= parse_chunks(prefix).push(rec@));
                    }
                    records.push(rec);
                },
                None => {
                    proof {
                        assert(parse_chunks(next_prefix) =~= parse_chunks(prefix));
                    }
                },
            }
            i = i + 1;
        }
        proof {
            assert(views_of(chunks@).subrange(0, n as int) =~= views_of(chunks@));
        }
        Blockchain { records }
    }

    /// The serialized text of the ledger.
    pub fn as_str(&self) -> (r: String)
        ensures
            r@ == spec_serialize(self@),
    {
        let n = self.records.len();
        if n == 0 {
            let r = String::new();
            proof {
                assert(self@.map_values(|r: RecordModel| record_chunk(r)) =~= Seq::<
                    Seq<char>,
                >::empty());
            }
            return r;
        }
        let mut out = String::new();
        proof {
            reveal_strlit(",");
            reveal_strlit(";");
        }
        let mut i: usize = 0;
        while i < n
            invariant
                0 <= i <= n,
                n == self.records.len(),
                out@ == spec_serialize_trailed(self@.subrange(0, i as int)),
            decreases n - i,
        {
            let rec = &self.records[i];
            proof {
                assert(self@[i as int] == self.records@[i as int]@);
            }
            out.append(rec.student_name.as_str());
            out.append(",");
            out.append(rec.grade.as_str());
            out.append(",");
            let dec = u64_to_string(rec.hash);
            out.append(dec.as_str());
            out.append(";");
            proof {
                reveal_strlit(",");
                reveal_strlit(";");
                let pre = self@.subrange(0, i as int);
                let nxt = self@.subrange(0, i as int + 1);
                assert(nxt.drop_last() =~= pre);
                assert(nxt.last() == self@[i as int]);
                lemma_serialize_trailed_push(pre, self@[i as int]);
                assert(out@ =~= spec_serialize_trailed(pre) + record_chunk(self@[i as int])
                    + seq![';']);
            }
            i = i + 1;
        }
        proof {
            assert(self@.subrange(0, n as int) =~= self@);
            lemma_serialize_trailed(self@);
        }
        let len = out.as_str().unicode_len();
        let r = out.as_str().substring_char(0, len - 1).to_owned();
        proof {
            assert(r@ =~= spec_serialize(self@));
        }
        r
    }
}

/// Serialized text with a `;` after every record, the loop-friendly shape of
/// `spec_serialize`.
pub open spec fn spec_serialize_trailed(rs: Seq<RecordModel>) -> Seq<char>
    decreases rs.len(),
{
    if rs.len() == 0 {
        Seq::empty()
    } else {
        spec_serialize_trailed(rs.drop_last()) + record_chunk(rs.last()) + seq![';']
    }
}

proof fn lemma_serialize_trailed_push(rs: Seq<RecordModel>, r: RecordModel)
    ensures
        spec_serialize_trailed(rs.push(r)) == spec_serialize_trailed(rs) + record_chunk(r)
            + seq![';'],
{
    assert(rs.push(r).drop_last() =~= rs);
    assert(rs.push(r).last() == r);
}

/// For a non-empty ledger the trailed text is the serialization plus one
/// final `;`.
proof fn lemma_serialize_trailed(rs: Seq<RecordModel>)
    requires
        rs.len() >= 1,
    ensures
        spec_serialize_trailed(rs) == spec_serialize(rs) + seq![';'],
    decreases rs.len(),
{
    let chunks = rs.map_values(|r: RecordModel| record_chunk(r));
    if rs.len() == 1 {
        assert(spec_serialize_trailed(rs.drop_last()) =~= Seq::<char>::empty());
        assert(chunks.len() == 1);
        assert(spec_join(chunks, ';') == chunks[0]);
        assert(chunks[0] == record_chunk(rs[0]));
        assert(rs.last() == rs[0]);
        assert(spec_serialize_trailed(rs) =~= record_chunk(rs[0]) + seq![';']);
    } else {
        let a = rs.drop_last();
        lemma_serialize_trailed(a);
        let achunks = a.map_values(|r: RecordModel| record_chunk(r));
        crate::text::lemma_join_push_chunk(achunks, record_chunk(rs.last()), ';');
        assert(achunks.push(record_chunk(rs.last())) =~= chunks);
        assert(spec_serialize_trailed(rs) =~= spec_serialize(rs) + seq![';']);
    }
}

/// Record fields that serialization can carry: neither the name nor the
/// grade text holds a field or record delimiter.
pub open spec fn wf_record_fields(r: RecordModel) -> bool {
    &&& !r.name.contains(',')
    &&& !r.name.contains(';')
    &&& !r.grade.contains(',')
    &&& !r.grade.contains(';')
}

/// One chunk of well-formed serialized text: exactly three fields, the
/// third a canonical decimal hash that fits in 64 bits.
pub open spec fn wf_chunk(c: Seq<char>) -> bool {
    let fields = spec_split(c, ',');
    &&& fields.len() == 3
    &&& crate::digits::is_canonical_digits(fields[2])
    &&& crate::digits::digits_value(fields[2]) <= u64::MAX
}

/// Well-formed serialized ledger text: empty, or every chunk well formed.
pub open spec fn wf_chain_text(s: Seq<char>) -> bool {
    s.len() == 0 || (forall|k: int|
        0 <= k < spec_split(s, ';').len() ==> wf_chunk(#[trigger] spec_split(s, ';')[k]))
}

proof fn lemma_digits_have_no_delimiters(s: Seq<char>)
    requires
        crate::digits::all_digits(s),
    ensures
        !s.contains(','),
        !s.contains(';'),
{
    if s.contains(',') {
        let j = choose|j: int| 0 <= j < s.len() && s[j] == ',';
        assert(crate::digits::is_digit_char(s[j]));
    }
    if s.contains(';') {
        let j = choose|j: int| 0 <= j < s.len() && s[j] == ';';
        assert(crate::digits::is_digit_char(s[j]));
    }
}

proof fn lemma_chunk_has_no_semicolon(r: RecordModel)
    requires
        wf_record_fields(r),
    ensures
        !record_chunk(r).contains(';'),
{
    crate::digits::lemma_dec_canonical(r.hash as nat);
    lemma_digits_have_no_delimiters(spec_dec(r.hash as nat));
    let c = record_chunk(r);
    if c.contains(';') {
        let j = choose|j: int| 0 <= j < c.len() && c[j] == ';';
        let a = r.name.len() as int;
        let b = a + 1 + r.grade.len() as int;
        if j < a {
            assert(c[j] == r.name[j]);
            assert(r.name.contains(';'));
        } else if j == a {
            assert(c[j] == ',');
        } else if j < b {
            assert(c[j] == r.grade[j - a - 1]);
            assert(r.grade.contains(';'));
        } else if j == b {
            assert(c[j] == ',');
        } else {
            assert(c[j] == spec_dec(r.hash as nat)[j - b - 1]);
            assert(spec_dec(r.hash as nat).contains(';'));
        }
    }
}

/// The chunk of a record with carryable fields parses back to the record.
proof fn lemma_chunk_record_roundtrip(r: RecordModel)
    requires
        wf_record_fields(r),
    ensures
        chunk_record(record_chunk(r)) == Some(r),
{
    crate::digits::lemma_dec_canonical(r.hash as nat);
    lemma_digits_have_no_delimiters(spec_dec(r.hash as nat));
    let dec = spec_dec(r.hash as nat);
    let fields = seq![r.name, r.grade, dec];
    assert(spec_join(fields, ',') == record_chunk(r)) by {
        assert(fields.drop_first() =~= seq![r.grade, dec]);
        assert(fields.drop_first().drop_first() =~= seq![dec]);
        assert(spec_join(seq![dec], ',') == dec);
        assert(spec_join(seq![r.grade, dec], ',') == r.grade + seq![','] + dec);
        assert(r.name + seq![','] + (r.grade + seq![','] + dec) =~= record_chunk(r));
    }
    assert(forall|k: int| 0 <= k < fields.len() ==> !(#[trigger] fields[k]).contains(','));
    crate::text::lemma_split_join(fields, ',');
    assert(spec_parse_u64(dec) == Some(r.hash));
    assert(chunk_record(record_chunk(r)) == Some(
        RecordModel { name: r.name, grade: r.grade, hash: r.hash },
    ));
    assert(RecordModel { name: r.name, grade: r.grade, hash: r.hash } =~= r);
}

proof fn lemma_parse_chunks_of_records(rs: Seq<RecordModel>)
    requires
        forall|i: int| 0 <= i < rs.len() ==> wf_record_fields(#[trigger] rs[i]),
    ensures
        parse_chunks(rs.map_values(|r: RecordModel| record_chunk(r))) == rs,
    decreases rs.len(),
{
    let chunks = rs.map_values(|r: RecordModel| record_chunk(r));
    if rs.len() == 0 {
        assert(chunks =~= Seq::<Seq<char>>::empty());
        assert(parse_chunks(chunks) =~= rs);
    } else {
        let a = rs.drop_last();
        assert(chunks.drop_last() =~= a.map_values(|r: RecordModel| record_chunk(r)));
        assert(chunks.last() == record_chunk(rs.last()));
        assert(forall|i: int| 0 <= i < a.len() ==> wf_record_fields(#[trigger] a[i])) by {
            assert(forall|i: int| 0 <= i < a.len() ==> a[i] == #[trigger] rs[i]);
        }
        lemma_parse_chunks_of_records(a);
        lemma_chunk_record_roundtrip(rs.last());
        assert(parse_chunks(chunks) =~= a + seq![rs.last()]);
        assert(a + seq![rs.last()] =~= rs);
    }
}

/// Parsing a serialized ledger restores it record for record, whenever the
/// names and grade texts are free of the `,` and `;` delimiters.
pub proof fn law_parse_of_serialize(rs: Seq<RecordModel>)
    requires
        forall|i: int| 0 <= i < rs.len() ==> wf_record_fields(#[trigger] rs[i]),
    ensures
        spec_parse_chain(spec_serialize(rs)) == rs,
{
    let chunks = rs.map_values(|r: RecordModel| record_chunk(r));
    if rs.len() == 0 {
        assert(chunks =~= Seq::<Seq<char>>::empty());
        let e = Seq::<char>::empty();
        assert(spec_serialize(rs) == e);
        crate::text::lemma_find_char_none(e, ';');
        assert(spec_split(e, ';') =~= seq![e]);
        crate::text::lemma_find_char_none(e, ',');
        assert(spec_split(e, ',') =~= seq![e]);
        assert(chunk_record(e) is None);
        assert(seq![e].drop_last() =~= Seq::<Seq<char>>::empty());
        assert(seq![e].last() == e);
        assert(parse_chunks(Seq::<Seq<char>>::empty()) == Seq::<RecordModel>::empty());
        assert(parse_chunks(seq![e]) =~= Seq::<RecordModel>::empty());
        assert(spec_parse_chain(spec_serialize(rs)) =~= rs);
    } else {
        assert(forall|k: int| 0 <= k < chunks.len() ==> !(#[trigger] chunks[k]).contains(';'))
            by {
            assert forall|k: int|
                0 <= k < chunks.len() implies !(#[trigger] chunks[k]).contains(';') by {
                assert(chunks[k] == record_chunk(rs[k]));
                lemma_chunk_has_no_semicolon(rs[k]);
            }
        }
        crate::text::lemma_split_join(chunks, ';');
        lemma_parse_chunks_of_records(rs);
    }
}

/// A well-formed chunk parses to a record whose chunk it is.
proof fn lemma_wf_chunk_roundtrip(c: Seq<char>)
    requires
        wf_chunk(c),
    ensures
        chunk_record(c) is Some,
        record_chunk(chunk_record(c)->Some_0) == c,
{
    let fields = spec_split(c, ',');
    let h = crate::digits::digits_value(fields[2]);
    crate::digits::lemma_canonical_dec(fields[2]);
    assert(spec_parse_u64(fields[2]) == Some(h as u64));
    let rec = chunk_record(c)->Some_0;
    assert(rec.name == fields[0] && rec.grade == fields[1] && rec.hash == h as u64);
    assert(spec_dec(rec.hash as nat) == fields[2]);
    crate::text::lemma_join_split(c, ',');
    assert(spec_join(fields, ',') == c);
    assert(fields.drop_first() =~= seq![fields[1], fields[2]]);
    assert(fields.drop_first().drop_first() =~= seq![fields[2]]);
    assert(spec_join(seq![fields[2]], ',') == fields[2]);
    assert(spec_join(seq![fields[1], fields[2]], ',') == fields[1] + seq![','] + fields[2]);
    assert(record_chunk(rec) =~= fields[0] + seq![','] + (fields[1] + seq![','] + fields[2]));
}

proof fn lemma_chunks_roundtrip(chunks: Seq<Seq<char>>)
    requires
        forall|k: int| 0 <= k < chunks.len() ==> wf_chunk(#[trigger] chunks[k]),
    ensures
        parse_chunks(chunks).map_values(|r: RecordModel| record_chunk(r)) == chunks,
    decreases chunks.len(),
{
    if chunks.len() == 0 {
        assert(parse_chunks(chunks).map_values(|r: RecordModel| record_chunk(r)) =~= chunks);
    } else {
        let a = chunks.drop_last();
        assert(forall|k: int| 0 <= k < a.len() ==> wf_chunk(#[trigger] a[k])) by {
            assert(forall|k: int| 0 <= k < a.len() ==> a[k] == #[trigger] chunks[k]);
        }
        lemma_chunks_roundtrip(a);
        lemma_wf_chunk_roundtrip(chunks.last());
        let rec = chunk_record(chunks.last())->Some_0;
        assert(parse_chunks(chunks) == parse_chunks(a) + seq![rec]);
        assert((parse_chunks(a) + seq![rec]).map_values(|r: RecordModel| record_chunk(r))
            =~= parse_chunks(a).map_values(|r: RecordModel| record_chunk(r)) + seq![
            record_chunk(rec),
        ]);
        assert(a + seq![chunks.last()] =~= chunks);
    }
}

/// Serializing a parsed ledger restores well-formed text character for
/// character.
pub proof fn law_serialize_of_parse(s: Seq<char>)
    requires
        wf_chain_text(s),
    ensures
        spec_serialize(spec_parse_chain(s)) == s,
{
    if s.len() == 0 {
        let e = Seq::<char>::empty();
        assert(s =~= e);
        crate::text::lemma_find_char_none(e, ';');
        assert(spec_split(e, ';') =~= seq![e]);
        crate::text::lemma_find_char_none(e, ',');
        assert(spec_split(e, ',') =~= seq![e]);
        assert(chunk_record(e) is None);
        assert(seq![e].drop_last() =~= Seq::<Seq<char>>::empty());
        assert(seq![e].last() == e);
        assert(parse_chunks(Seq::<Seq<char>>::empty()) == Seq::<RecordModel>::empty());
        assert(parse_chunks(seq![e]) =~= Seq::<RecordModel>::empty());
        assert(spec_parse_chain(s).map_values(|r: RecordModel| record_chunk(r)) =~= Seq::<
            Seq<char>,
        >::empty());
        assert(spec_serialize(spec_parse_chain(s)) == Seq::<char>::empty());
    } else {
        let chunks = spec_split(s, ';');
        lemma_chunks_roundtrip(chunks);
        crate::text::lemma_join_split(s, ';');
    }
}

/// Appending a record hashed against the current end of the chain keeps the
/// chain valid.
pub proof fn law_append_preserves_chain(rs: Seq<RecordModel>, name: Seq<char>, grade: Seq<char>)
    requires
        chain_valid(rs),
    ensures
        chain_valid(
            rs.push(
                RecordModel {
                    name: name,
                    grade: grade,
                    hash: spec_generate_hash(name, grade, spec_chain_prev(rs)),
                },
            ),
        ),
{
    let r = RecordModel {
        name: name,
        grade: grade,
        hash: spec_generate_hash(name, grade, spec_chain_prev(rs)),
    };
    let q = rs.push(r);
    assert forall|i: int|
        0 <= i < q.len() implies (#[trigger] q[i]).hash == spec_generate_hash(
        q[i].name,
        q[i].grade,
        if i == 0 {
            0u64
        } else {
            q[i - 1].hash
        },
    ) by {
        if i < rs.len() {
            assert(q[i] == rs[i]);
            if i > 0 {
                assert(q[i - 1] == rs[i - 1]);
            }
        } else {
            assert(q[i] == r);
            if i > 0 {
                assert(q[i - 1] == rs[i - 1]);
                assert(rs[i - 1] == rs.last());
            }
        }
    }
}

/// Tampering is detected: appending a record whose hash is not the chain
/// digest of its fields and its predecessor leaves the ledger invalid.
pub proof fn law_mismatched_append_invalidates(rs: Seq<RecordModel>, r: RecordModel)
    requires
        r.hash != spec_generate_hash(r.name, r.grade, spec_chain_prev(rs)),
    ensures
        !chain_valid(rs.push(r)),
{
    let q = rs.push(r);
    let i = rs.len() as int;
    assert(q[i] == r);
    if i > 0 {
        assert(q[i - 1] == rs[i - 1]);
        assert(rs[i - 1] == rs.last());
    }
    assert(q[i].hash != spec_generate_hash(
        q[i].name,
        q[i].grade,
        if i == 0 {
            0u64
        } else {
            q[i - 1].hash
        },
    ));
}

impl PartialEq for BlockchainRecord {
    fn eq(&self, other: &Self) -> (r: bool) {
        self.student_name == other.student_name && self.grade == other.grade && self.hash
            == other.hash
    }
}

impl vstd::std_specs::cmp::PartialEqSpecImpl for BlockchainRecord {
    open spec fn obeys_eq_spec() -> bool {
        true
    }

    open spec fn eq_spec(&self, other: &Self) -> bool {
        self@ == other@
    }
}

impl PartialEq for Blockchain {
    fn eq(&self, other: &Self) -> (r: bool) {
        let n = self.records.len();
        if n != other.records.len() {
            proof {
                assert(self@.len() == self.records@.len());
                assert(other@.len() == other.records@.len());
            }
            return false;
        }
        let mut i: usize = 0;
        while i < n
            invariant
                0 <= i <= n,
                n == self.records.len() == other.records.len(),
                forall|j: int| 0 <= j < i ==> self@[j] == other@[j],
            decreases n - i,
        {
            proof {
                assert(self@[i as int] == self.records@[i as int]@);
                assert(other@[i as int] == other.records@[i as int]@);
            }
            if !(self.records[i] == other.records[i]) {
                return false;
            }
            i = i + 1;
        }
        proof {
            assert(self@ =~= other@);
        }
        true
    }
}

impl vstd::std_specs::cmp::PartialEqSpecImpl for Blockchain {
    open spec fn obeys_eq_spec() -> bool {
        true
    }

    open spec fn eq_spec(&self, other: &Self) -> bool {
        self@ == other@
    }
}

} // verus!
