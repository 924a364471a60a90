//! The build index: which PDFs are up to date with their sources.
//!
//! `.folio/index.toml` maps each document ID to the hash of the sources its
//! PDF was last built from.  A PDF is fresh when the recorded hash equals the
//! current one, stale when it differs, and never built when no hash is
//! recorded.
use vstd::prelude::*;
use crate::date::{now_utc, Timestamp};
use crate::paths::{join_path, join_spec};
use crate::text::{chars_of, push_char};

verus! {

/// One recorded build.
#[derive(Clone, Debug)]
pub struct BuildEntry {
    pub built_at: Timestamp,
    pub source_hash: String,
}

/// The build index: one entry per document ID, in insertion order.
#[derive(Clone, Debug)]
pub struct BuildIndex {
    pub builds: Vec<(String, BuildEntry)>,
}

/// The hash recorded for `id` among the first `n` entries, the latest one
/// winning.
pub open spec fn recorded_hash(builds: Seq<(String, BuildEntry)>, id: Seq<char>, n: int) -> Option<Seq<char>>
    decreases n,
{
    if n <= 0 {
        None
    } else if builds[n - 1].0@ == id {
        Some(builds[n - 1].1.source_hash@)
    } else {
        recorded_hash(builds, id, n - 1)
    }
}

impl BuildIndex {
    /// No document ID occurs twice.
    pub open spec fn wf(self) -> bool {
        forall|i: int, j: int|
            0 <= i < j < self.builds@.len() ==> (#[trigger] self.builds@[i]).0@ != (#[trigger] self.builds@[j]).0@
    }

    /// The hash recorded for `id`, if any.
    pub open spec fn hash_of(self, id: Seq<char>) -> Option<Seq<char>> {
        recorded_hash(self.builds@, id, self.builds@.len() as int)
    }

    /// An empty index.
    pub fn new() -> (r: BuildIndex)
        ensures
            r.wf(),
            forall|id: Seq<char>| r.hash_of(id) is None,
    {
        BuildIndex { builds: Vec::new() }
    }

    /// Records that `id` was just built from sources hashing to `hash`.
    pub fn record(&mut self, id: &str, hash: &str)
        requires
            old(self).wf(),
        ensures
            final(self).wf(),
            final(self).hash_of(id@) == Some(hash@),
            forall|other: Seq<char>| other != id@ ==> final(self).hash_of(other) == old(self).hash_of(other),
    {
        let entry = BuildEntry { built_at: now_utc(), source_hash: String::from_str(hash) };
        let key = String::from_str(id);
        let mut i: usize = 0;
        while i < self.builds.len()
            invariant
                0 <= i <= self.builds.len(),
                self.builds@ == old(self).builds@,
                old(self).wf(),
                key@ == id@,
                entry.source_hash@ == hash@,
                forall|k: int| 0 <= k < i ==> (#[trigger] self.builds@[k]).0@ != id@,
            decreases self.builds.len() - i,
        {
            let same = self.builds[i].0.eq(&key);
            assert(same == (self.builds@[i as int].0@ == key@));
            if same {
                let ghost before = self.builds@;
                self.builds.set(i, (key, entry));
                proof {
                    lemma_recorded_hash_update(before, i as int, id@, hash@, self.builds@);
                }
                return;
            }
            i = i + 1;
        }
        let ghost before = self.builds@;
        self.builds.push((key, entry));
        proof {
            assert forall|other: Seq<char>| other != id@ implies recorded_hash(self.builds@, other, self.builds@.len() as int)
                == recorded_hash(before, other, before.len() as int) by {
                lemma_recorded_hash_prefix(self.builds@, before, other, before.len() as int);
            }
            lemma_recorded_hash_prefix(self.builds@, before, id@, before.len() as int);
        }
    }
}

/// Entries agreeing on a prefix record the same hashes there.
proof fn lemma_recorded_hash_prefix(a: Seq<(String, BuildEntry)>, b: Seq<(String, BuildEntry)>, id: Seq<char>, n: int)
    requires
        0 <= n <= a.len(),
        n <= b.len(),
        forall|k: int| 0 <= k < n ==> a[k] == b[k],
    ensures
        recorded_hash(a, id, n) == recorded_hash(b, id, n),
    decreases n,
{
    if n > 0 {
        lemma_recorded_hash_prefix(a, b, id, n - 1);
    }
}

/// With unique IDs, the hash recorded for an ID is the one of its entry.
proof fn lemma_recorded_hash_unique(builds: Seq<(String, BuildEntry)>, i: int, n: int)
    requires
        0 <= i < n <= builds.len(),
        forall|p: int, q: int| 0 <= p < q < builds.len() ==> (#[trigger] builds[p]).0@ != (#[trigger] builds[q]).0@,
    ensures
        recorded_hash(builds, builds[i].0@, n) == Some(builds[i].1.source_hash@),
    decreases n,
{
    if n - 1 != i {
        assert(builds[i].0@ != builds[n - 1].0@);
        lemma_recorded_hash_unique(builds, i, n - 1);
    }
}

/// An ID absent from the first `n` entries has nothing recorded there.
proof fn lemma_recorded_hash_absent(builds: Seq<(String, BuildEntry)>, id: Seq<char>, n: int)
    requires
        0 <= n <= builds.len(),
        forall|k: int| 0 <= k < n ==> (#[trigger] builds[k]).0@ != id,
    ensures
        recorded_hash(builds, id, n) is None,
    decreases n,
{
    if n > 0 {
        lemma_recorded_hash_absent(builds, id, n - 1);
    }
}

/// Overwriting the entry of `id` changes only what is recorded for `id`.
proof fn lemma_recorded_hash_update(
    before: Seq<(String, BuildEntry)>,
    i: int,
    id: Seq<char>,
    hash: Seq<char>,
    after: Seq<(String, BuildEntry)>,
)
    requires
        0 <= i < before.len(),
        after.len() == before.len(),
        before[i].0@ == id,
        after[i].0@ == id,
        after[i].1.source_hash@ == hash,
        forall|k: int| 0 <= k < before.len() && k != i ==> after[k] == before[k],
        forall|p: int, q: int| 0 <= p < q < before.len() ==> (#[trigger] before[p]).0@ != (#[trigger] before[q]).0@,
    ensures
        forall|p: int, q: int| 0 <= p < q < after.len() ==> (#[trigger] after[p]).0@ != (#[trigger] after[q]).0@,
        recorded_hash(after, id, after.len() as int) == Some(hash),
        forall|other: Seq<char>| other != id ==> recorded_hash(after, other, after.len() as int)
            == recorded_hash(before, other, before.len() as int),
{
    assert forall|p: int, q: int| 0 <= p < q < after.len() implies (#[trigger] after[p]).0@ != (#[trigger] after[q]).0@ by {
        if p != i && q != i {
            assert(before[p].0@ != before[q].0@);
        } else if p == i {
            assert(before[p].0@ != before[q].0@);
        } else {
            assert(before[p].0@ != before[q].0@);
        }
    }
    lemma_recorded_hash_unique(after, i, after.len() as int);
    assert forall|other: Seq<char>| other != id implies recorded_hash(after, other, after.len() as int)
        == recorded_hash(before, other, before.len() as int) by {
        lemma_recorded_hash_other(before, after, i, id, other, after.len() as int);
    }
}

proof fn lemma_recorded_hash_other(
    before: Seq<(String, BuildEntry)>,
    after: Seq<(String, BuildEntry)>,
    i: int,
    id: Seq<char>,
    other: Seq<char>,
    n: int,
)
    requires
        0 <= n <= before.len(),
        after.len() == before.len(),
        0 <= i < before.len(),
        before[i].0@ == id,
        after[i].0@ == id,
        other != id,
        forall|k: int| 0 <= k < before.len() && k != i ==> after[k] == before[k],
    ensures
        recorded_hash(after, other, n) == recorded_hash(before, other, n),
    decreases n,
{
    if n > 0 {
        lemma_recorded_hash_other(before, after, i, id, other, n - 1);
    }
}

impl Default for BuildIndex {
    /// An empty index.
    fn default() -> (r: BuildIndex)
        ensures
            r.wf(),
            forall|id: Seq<char>| r.hash_of(id) is None,
    {
        BuildIndex::new()
    }
}

/// Whether a document's PDF reflects its current sources.
#[derive(Clone, Copy, Debug, PartialEq, Eq, Structural)]
pub enum PdfState {
    Fresh,
    Stale,
    NeverBuilt,
}

/// The state of a PDF given the hash recorded for it and the current hash.
pub open spec fn pdf_state_of(recorded: Option<Seq<char>>, current: Seq<char>) -> PdfState {
    match recorded {
        None => PdfState::NeverBuilt,
        Some(h) => if h == current {
            PdfState::Fresh
        } else {
            PdfState::Stale
        },
    }
}

/// Compares the recorded hash of `id` with `current_hash`.
pub fn check_pdf_state(index: &BuildIndex, id: &str, current_hash: &str) -> (r: PdfState)
    requires
        index.wf(),
    ensures
        r == pdf_state_of(index.hash_of(id@), current_hash@),
{
    let key = String::from_str(id);
    let current = String::from_str(current_hash);
    let mut i: usize = 0;
    while i < index.builds.len()
        invariant
            0 <= i <= index.builds.len(),
            index.wf(),
            key@ == id@,
            current@ == current_hash@,
            forall|k: int| 0 <= k < i ==> (#[trigger] index.builds@[k]).0@ != id@,
        decreases index.builds.len() - i,
    {
        if index.builds[i].0 == key {
            proof {
                lemma_recorded_hash_unique(index.builds@, i as int, index.builds@.len() as int);
            }
            if index.builds[i].1.source_hash == current {
                return PdfState::Fresh;
            } else {
                return PdfState::Stale;
            }
        }
        i = i + 1;
    }
    proof {
        lemma_recorded_hash_absent(index.builds@, id@, index.builds@.len() as int);
    }
    PdfState::NeverBuilt
}

/// Recording a build makes its PDF fresh for the hash recorded, and stale
/// for any other hash; other documents keep their state.
pub proof fn law_recorded_build_is_fresh(before: BuildIndex, after: BuildIndex, id: Seq<char>, hash: Seq<char>)
    requires
        after.hash_of(id) == Some(hash),
        forall|other: Seq<char>| other != id ==> after.hash_of(other) == before.hash_of(other),
    ensures
        pdf_state_of(after.hash_of(id), hash) == PdfState::Fresh,
        forall|h: Seq<char>| h != hash ==> pdf_state_of(after.hash_of(id), h) == PdfState::Stale,
        forall|other: Seq<char>, h: Seq<char>| other != id ==> pdf_state_of(after.hash_of(other), h)
            == pdf_state_of(before.hash_of(other), h),
{
}

/// A document that was never recorded is never built, whatever its hash.
pub proof fn law_unrecorded_is_never_built(index: BuildIndex, id: Seq<char>, h: Seq<char>)
    requires
        index.hash_of(id) is None,
    ensures
        pdf_state_of(index.hash_of(id), h) == PdfState::NeverBuilt,
{
}

/// The path of the index file: `<root>/.folio/index.toml`.
pub fn index_path(root: &str) -> (r: String)
    ensures
        r@ == join_spec(join_spec(root@, ".folio"@), "index.toml"@),
{
    let dir = join_path(root, ".folio");
    join_path(dir.as_str(), "index.toml")
}

/// SHA-256 of a byte string, as `sha2` computes it.
pub uninterp spec fn sha256(data: Seq<u8>) -> Seq<u8>;

/// Hashes bytes with `sha2::Sha256::digest`.
///
/// Trusted: the result is the SHA-256 digest of `data` (named by
/// [`sha256`]), which is 32 bytes long.
#[verifier::external_body]
fn sha256_digest(data: &[u8]) -> (r: Vec<u8>)
    ensures
        r@ == sha256(data@),
        r@.len() == 32,
{
    <sha2::Sha256 as sha2::Digest>::digest(data).to_vec()
}

/// The lowercase hexadecimal digit of a nibble.
pub open spec fn hex_digit(n: int) -> char {
    if n < 10 {
        ((n + 48) as u32) as char
    } else {
        ((n + 87) as u32) as char
    }
}

/// Lowercase hexadecimal text of bytes, two digits per byte, high nibble
/// first.
pub open spec fn hex_lower(data: Seq<u8>) -> Seq<char>
    decreases data.len(),
{
    if data.len() == 0 {
        Seq::empty()
    } else {
        hex_lower(data.drop_last()) + seq![hex_digit((data.last() / 16) as int), hex_digit((data.last() % 16) as int)]
    }
}

/// Encodes bytes as lowercase hexadecimal with `hex::encode`.
///
/// Trusted: `hex::encode` writes each byte as two lowercase hex digits,
/// high nibble first.
#[verifier::external_body]
fn hex_encode(data: &[u8]) -> (r: String)
    ensures
        r@ == hex_lower(data@),
{
    hex::encode(data)
}

/// The bytes the source hash is taken over: the four texts, one after the
/// other, UTF-8 encoded.
pub open spec fn hash_input(document: Seq<char>, client: Seq<char>, template: Seq<char>, config: Seq<char>) -> Seq<u8> {
    vstd::utf8::encode_utf8(document) + vstd::utf8::encode_utf8(client) + vstd::utf8::encode_utf8(template)
        + vstd::utf8::encode_utf8(config)
}

/// Appends the UTF-8 bytes of `s`.
fn push_bytes(out: &mut Vec<u8>, s: &str)
    ensures
        final(out)@ == old(out)@ + vstd::utf8::encode_utf8(s@),
{
    let b = s.as_bytes();
    let mut i: usize = 0;
    while i < b.len()
        invariant
            0 <= i <= b@.len(),
            b@ == vstd::utf8::encode_utf8(s@),
            out@ == old(out)@ + b@.subrange(0, i as int),
        decreases b.len() - i,
    {
        out.push(b[i]);
        i = i + 1;
        assert(out@ =~= old(out)@ + b@.subrange(0, i as int));
    }
    assert(b@.subrange(0, b@.len() as int) =~= b@);
}

/// A hex character: `0-9` or `a-f`.
pub open spec fn is_lower_hex(c: char) -> bool {
    ('0' <= c && c <= '9') || ('a' <= c && c <= 'f')
}

proof fn lemma_hex_lower_len(data: Seq<u8>)
    ensures
        hex_lower(data).len() == 2 * data.len(),
        forall|i: int| 0 <= i < hex_lower(data).len() ==> is_lower_hex(#[trigger] hex_lower(data)[i]),
    decreases data.len(),
{
    if data.len() > 0 {
        lemma_hex_lower_len(data.drop_last());
        let b = data.last();
        assert(0 <= b / 16 < 16 && 0 <= b % 16 < 16);
        let tail = seq![hex_digit((b / 16) as int), hex_digit((b % 16) as int)];
        assert forall|i: int| 0 <= i < hex_lower(data).len() implies is_lower_hex(#[trigger] hex_lower(data)[i]) by {
            if i >= hex_lower(data.drop_last()).len() {
                let k = i - hex_lower(data.drop_last()).len();
                assert(hex_lower(data)[i] == tail[k]);
            } else {
                assert(hex_lower(data)[i] == hex_lower(data.drop_last())[i]);
            }
        }
    }
}

/// The source hash of a document: the first 4 bytes of the SHA-256 of its
/// TOML, its client's TOML, its template HTML and the configuration that
/// affects rendering, as 8 lowercase hex characters.
pub fn compute_source_hash(document_toml: &str, client_toml: &str, template_html: &str, config_toml: &str) -> (r: String)
    ensures
        r@ == hex_lower(sha256(hash_input(document_toml@, client_toml@, template_html@, config_toml@)).take(4)),
        r@.len() == 8,
        forall|i: int| 0 <= i < r@.len() ==> is_lower_hex(#[trigger] r@[i]),
{
    let mut data: Vec<u8> = Vec::new();
    push_bytes(&mut data, document_toml);
    push_bytes(&mut data, client_toml);
    push_bytes(&mut data, template_html);
    push_bytes(&mut data, config_toml);
    assert(data@ =~= hash_input(document_toml@, client_toml@, template_html@, config_toml@));
    let digest = sha256_digest(data.as_slice());
    let mut head: Vec<u8> = Vec::new();
    let mut i: usize = 0;
    while i < 4
        invariant
            0 <= i <= 4,
            digest@.len() == 32,
            head@ == digest@.take(i as int),
        decreases 4 - i,
    {
        head.push(digest[i]);
        i = i + 1;
        assert(head@ =~= digest@.take(i as int));
    }
    let r = hex_encode(head.as_slice());
    proof {
        lemma_hex_lower_len(head@);
    }
    r
}

/// The bytes the source hash is taken over are, in this order, the UTF-8
/// bytes of the document TOML, of the client TOML, of the template HTML and
/// of the configuration, and nothing else.
pub proof fn law_hash_input_layout(document: Seq<char>, client: Seq<char>, template: Seq<char>, config: Seq<char>)
    ensures
        ({
            let b = hash_input(document, client, template, config);
            let d = vstd::utf8::encode_utf8(document);
            let c = vstd::utf8::encode_utf8(client);
            let t = vstd::utf8::encode_utf8(template);
            let g = vstd::utf8::encode_utf8(config);
            let (ld, lc, lt) = (d.len() as int, c.len() as int, t.len() as int);
            &&& b.len() == ld + lc + lt + g.len()
            &&& b.subrange(0, ld) == d
            &&& b.subrange(ld, ld + lc) == c
            &&& b.subrange(ld + lc, ld + lc + lt) == t
            &&& b.subrange(ld + lc + lt, b.len() as int) == g
        }),
{
    let b = hash_input(document, client, template, config);
    let d = vstd::utf8::encode_utf8(document);
    let c = vstd::utf8::encode_utf8(client);
    let t = vstd::utf8::encode_utf8(template);
    let g = vstd::utf8::encode_utf8(config);
    let (ld, lc, lt) = (d.len() as int, c.len() as int, t.len() as int);
    assert(b.subrange(0, ld) =~= d);
    assert(b.subrange(ld, ld + lc) =~= c);
    assert(b.subrange(ld + lc, ld + lc + lt) =~= t);
    assert(b.subrange(ld + lc + lt, b.len() as int) =~= g);
}

/// Each of the four texts enters the hash: with the other three the same,
/// two different documents, clients, templates or configurations give
/// different bytes to hash, so an edit to any of them is seen (short of a
/// SHA-256 collision in the 8 hex digits kept).
pub proof fn law_hash_input_sees_every_text(
    d1: Seq<char>, c1: Seq<char>, t1: Seq<char>, g1: Seq<char>,
    d2: Seq<char>, c2: Seq<char>, t2: Seq<char>, g2: Seq<char>,
)
    ensures
        (c1 == c2 && t1 == t2 && g1 == g2 && d1 != d2) ==> hash_input(d1, c1, t1, g1) != hash_input(d2, c2, t2, g2),
        (d1 == d2 && t1 == t2 && g1 == g2 && c1 != c2) ==> hash_input(d1, c1, t1, g1) != hash_input(d2, c2, t2, g2),
        (d1 == d2 && c1 == c2 && g1 == g2 && t1 != t2) ==> hash_input(d1, c1, t1, g1) != hash_input(d2, c2, t2, g2),
        (d1 == d2 && c1 == c2 && t1 == t2 && g1 != g2) ==> hash_input(d1, c1, t1, g1) != hash_input(d2, c2, t2, g2),
{
    broadcast use vstd::utf8::encode_utf8_decode_utf8;
    let e = |s: Seq<char>| vstd::utf8::encode_utf8(s);
    if hash_input(d1, c1, t1, g1) == hash_input(d2, c2, t2, g2) {
        law_hash_input_layout(d1, c1, t1, g1);
        law_hash_input_layout(d2, c2, t2, g2);
        let b = hash_input(d1, c1, t1, g1);
        // Three of the four parts agree, so do their lengths and the fourth.
        if c1 == c2 && t1 == t2 && g1 == g2 {
            assert(e(d1).len() == e(d2).len());
            assert(e(d1) == b.subrange(0, e(d1).len() as int));
            assert(vstd::utf8::decode_utf8(e(d1)) == d1 && vstd::utf8::decode_utf8(e(d2)) == d2);
        }
        if d1 == d2 && t1 == t2 && g1 == g2 {
            assert(e(c1).len() == e(c2).len());
            assert(vstd::utf8::decode_utf8(e(c1)) == c1 && vstd::utf8::decode_utf8(e(c2)) == c2);
        }
        if d1 == d2 && c1 == c2 && g1 == g2 {
            assert(e(t1).len() == e(t2).len());
            assert(vstd::utf8::decode_utf8(e(t1)) == t1 && vstd::utf8::decode_utf8(e(t2)) == t2);
        }
        if d1 == d2 && c1 == c2 && t1 == t2 {
            assert(e(g1).len() == e(g2).len());
            assert(vstd::utf8::decode_utf8(e(g1)) == g1 && vstd::utf8::decode_utf8(e(g2)) == g2);
        }
    }
}

} // verus!
