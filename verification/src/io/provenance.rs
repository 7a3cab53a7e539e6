//! Provenance records: a canonical JSON payload of the computational state
//! and the hex-encoded SHA-256 of its bytes, so that anyone can recompute
//! and check the hash; and the comment block that embeds a record in an
//! exported file.
use vstd::prelude::*;

use crate::io::csv::{lines_spec, trim_spec};
use crate::text::{push_char, push_str, to_chars};

verus! {

/// A provenance record: the digest and the payload it was computed from.
#[derive(Debug)]
pub struct ProvenanceRecord {
    /// Lower-case hex SHA-256 of the payload bytes.
    pub sha256: String,
    /// Canonical JSON of the computational state.
    pub payload: String,
}

/// The PDG data source a session was computed with.
#[derive(Debug, Clone, PartialEq, Eq)]
pub struct SessionPdgProvenance {
    /// PDG edition.
    pub edition: String,
    /// Release timestamp of the edition.
    pub release_timestamp: Option<String>,
    /// Identifier of the source.
    pub source_id: String,
    /// Origin of the data.
    pub origin: Option<String>,
    /// Local path of the source file.
    pub source_path: Option<String>,
    /// Extraction policy used.
    pub extraction_policy: Option<String>,
    /// Outcome of the arbitration between sources.
    pub source_arbitration_outcome: Option<String>,
    /// SHA-256 of the local source file.
    pub local_file_fingerprint: Option<String>,
    /// Fingerprint of the data.
    pub fingerprint: String,
}

/// Version of the kernel recorded in provenance blocks.
pub open spec fn kernel_version_spec() -> Seq<char> {
    "0.1.0"@
}

/// Version of the kernel recorded in provenance blocks.
pub fn kernel_version() -> (v: &'static str)
    ensures
        v@ == kernel_version_spec(),
{
    "0.1.0"
}

// ---------------------------------------------------------------------------
// Hashing
// ---------------------------------------------------------------------------

/// SHA-256 digest of a byte sequence.
pub uninterp spec fn sha256_digest(bytes: Seq<u8>) -> Seq<u8>;

/// `Sha256::digest` from the `sha2` crate, as a byte vector.
///
/// Trusted: the result is the SHA-256 digest of the input, named
/// [`sha256_digest`], and has the 32 bytes of a SHA-256 output.
#[verifier::external_body]
fn sha256_bytes(bytes: &[u8]) -> (d: Vec<u8>)
    ensures
        d@ == sha256_digest(bytes@),
        d@.len() == 32,
{
    <sha2::Sha256 as sha2::Digest>::digest(bytes).to_vec()
}

/// Lower-case hexadecimal digit of a nibble.
pub open spec fn hex_digit(n: u8) -> char {
    if n < 10 { ((n as int) + 48) as char } else { ((n as int) + 87) as char }
}

/// Lower-case hexadecimal encoding: two digits per byte, high nibble first.
pub open spec fn hex_spec(bytes: Seq<u8>) -> Seq<char>
    decreases bytes.len(),
{
    if bytes.len() == 0 {
        Seq::empty()
    } else {
        hex_spec(bytes.drop_last()) + seq![hex_digit(bytes.last() / 16), hex_digit(bytes.last() % 16)]
    }
}

/// `hex::encode` from the `hex` crate.
///
/// Trusted: the result is the lower-case hexadecimal encoding of the bytes,
/// two digits per byte, high nibble first (the crate's `HEX_CHARS_LOWER`
/// table).
#[verifier::external_body]
fn hex_encode(bytes: &[u8]) -> (s: String)
    ensures
        s@ == hex_spec(bytes@),
{
    hex::encode(bytes)
}

proof fn lemma_hex_len(bytes: Seq<u8>)
    ensures
        hex_spec(bytes).len() == 2 * bytes.len(),
    decreases bytes.len(),
{
    if bytes.len() > 0 {
        lemma_hex_len(bytes.drop_last());
    }
}

/// A hash function over the bytes of a serialized state.
pub trait StateHasher {
    /// Name of the algorithm.
    fn algorithm(&self) -> &'static str;
    /// Hash of the bytes, as text.
    fn hash_bytes(&self, bytes: &[u8]) -> String;
}

/// SHA-256 with lower-case hex output.
#[derive(Debug, Clone, Copy, Default)]
pub struct Sha256StateHasher;

impl StateHasher for Sha256StateHasher {
    fn algorithm(&self) -> (s: &'static str)
        ensures
            s@ == "sha256"@,
    {
        "sha256"
    }

    fn hash_bytes(&self, bytes: &[u8]) -> (s: String)
        ensures
            s@ == hex_spec(sha256_digest(bytes@)),
            s@.len() == 64,
    {
        let d = sha256_bytes(bytes);
        proof { lemma_hex_len(d@); }
        hex_encode(d.as_slice())
    }
}

/// Hex SHA-256 of the UTF-8 bytes of a text.
pub open spec fn text_hash(text: Seq<char>) -> Seq<char> {
    hex_spec(sha256_digest(vstd::utf8::encode_utf8(text)))
}

/// A provenance record for a payload: its hex SHA-256 and the payload.
pub fn record_for_payload(payload: String) -> (r: ProvenanceRecord)
    ensures
        r.sha256@ == text_hash(payload@),
        r.sha256@.len() == 64,
        r.payload@ == payload@,
{
    let h = Sha256StateHasher.hash_bytes(payload.as_str().as_bytes());
    ProvenanceRecord { sha256: h, payload }
}

/// Whether the record's hash is the hex SHA-256 of its payload.
pub fn verify_provenance(record: &ProvenanceRecord) -> (ok: bool)
    ensures
        ok == (text_hash(record.payload@) == record.sha256@),
{
    let h = Sha256StateHasher.hash_bytes(record.payload.as_str().as_bytes());
    crate::text::str_eq(h.as_str(), record.sha256.as_str())
}

/// A record built for a payload verifies, and keeps verifying only while
/// its payload and hash are left as they were: changing the payload to one
/// with another hash makes verification fail.
pub proof fn lemma_record_roundtrip(payload: Seq<char>, r: ProvenanceRecord, tampered: Seq<char>)
    requires
        r.sha256@ == text_hash(payload),
        r.payload@ == payload,
    ensures
        text_hash(r.payload@) == r.sha256@,
        text_hash(tampered) != text_hash(payload) ==> text_hash(tampered) != r.sha256@,
{
}

// ---------------------------------------------------------------------------
// Provenance comment block
// ---------------------------------------------------------------------------

/// One line of the block: prefix, a space, the text, the suffix, a newline.
pub open spec fn block_line(prefix: Seq<char>, text: Seq<char>, suffix: Seq<char>) -> Seq<char> {
    prefix + seq![' '] + text + suffix + seq!['\n']
}

/// An optional text, or a default when absent.
pub open spec fn or_default(o: Option<String>, d: Seq<char>) -> Seq<char> {
    match o {
        Some(s) => s@,
        None => d,
    }
}

/// The block lines describing the PDG source, if any.
pub open spec fn pdg_lines(prefix: Seq<char>, suffix: Seq<char>, pdg: Option<SessionPdgProvenance>) -> Seq<char> {
    match pdg {
        Some(p) => block_line(prefix, "PDG EDITION: "@ + p.edition@, suffix)
            + block_line(prefix, "PDG SOURCE ID: "@ + p.source_id@, suffix)
            + block_line(prefix, "PDG EXTRACTION POLICY: "@ + or_default(p.extraction_policy, "unspecified"@), suffix)
            + block_line(prefix, "PDG LOCAL FINGERPRINT: "@ + or_default(p.local_file_fingerprint, "unavailable"@), suffix),
        None => Seq::empty(),
    }
}

/// The lines of a text as `str::lines` yields them: split at `\n`, a final
/// empty piece dropped, and a `\r` before a `\n` removed.
pub open spec fn text_lines(s: Seq<char>) -> Seq<Seq<char>> {
    let ls = lines_spec(s);
    Seq::new(ls.len(), |i: int|
        if (i < ls.len() - 1 || (s.len() > 0 && s.last() == '\n')) && ls[i].len() > 0 && ls[i].last() == '\r' {
            ls[i].drop_last()
        } else {
            ls[i]
        })
}

/// The payload lines of the block.
pub open spec fn payload_lines(prefix: Seq<char>, suffix: Seq<char>, lines: Seq<Seq<char>>) -> Seq<char>
    decreases lines.len(),
{
    if lines.len() == 0 {
        Seq::empty()
    } else {
        payload_lines(prefix, suffix, lines.drop_last()) + block_line(prefix, lines.last(), suffix)
    }
}

/// The complete comment block: hash, version, PDG source, and the pretty
/// payload between BEGIN and END markers, each line framed by the prefix and
/// suffix.
pub open spec fn block_spec(
    sha256: Seq<char>,
    prefix: Seq<char>,
    suffix: Seq<char>,
    pdg: Option<SessionPdgProvenance>,
    pretty: Seq<char>,
) -> Seq<char> {
    block_line(prefix, "SPIRE PROVENANCE HASH: "@ + sha256, suffix)
        + block_line(prefix, "SPIRE VERSION: "@ + kernel_version_spec(), suffix)
        + pdg_lines(prefix, suffix, pdg)
        + block_line(prefix, "BEGIN PROVENANCE PAYLOAD"@, suffix)
        + payload_lines(prefix, suffix, text_lines(pretty))
        + block_line(prefix, "END PROVENANCE PAYLOAD"@, suffix)
}

fn push_block_line(out: &mut String, prefix: &str, head: &str, text: &str, suffix: &str)
    ensures
        final(out)@ == old(out)@ + block_line(prefix@, head@ + text@, suffix@),
{
    push_str(out, prefix);
    push_char(out, ' ');
    push_str(out, head);
    push_str(out, text);
    push_str(out, suffix);
    push_char(out, '\n');
    assert(final(out)@ =~= old(out)@ + block_line(prefix@, head@ + text@, suffix@));
}

/// The lines of `pretty` as `str::lines` yields them.
fn split_text_lines(pretty: &str) -> (v: Vec<String>)
    ensures
        crate::lagrangian::string_views(v@) == text_lines(pretty@),
{
    let cs = to_chars(pretty);
    let mut v: Vec<String> = Vec::new();
    let mut cur = String::new();
    let mut i: usize = 0;
    let ghost s = pretty@;
    while i < cs.len()
        invariant
            cs@ == s,
            s == pretty@,
            i <= cs@.len(),
            crate::io::csv::split_on(s.take(i as int), '\n').drop_last().len() == v@.len(),
            forall|k: int| 0 <= k < v@.len() ==> #[trigger] v@[k]@ == ({
                let piece = crate::io::csv::split_on(s.take(i as int), '\n')[k];
                if piece.len() > 0 && piece.last() == '\r' { piece.drop_last() } else { piece }
            }),
            cur@ == crate::io::csv::split_on(s.take(i as int), '\n').last(),
        decreases cs@.len() - i,
    {
        proof { lemma_split_nonempty_here(s.take(i as int)); }
        assert(s.take(i + 1).drop_last() =~= s.take(i as int));
        if cs[i] == '\n' {
            let line = strip_cr(&cur);
            v.push(line);
            cur = String::new();
        } else {
            push_char(&mut cur, cs[i]);
        }
        i = i + 1;
    }
    proof { lemma_split_nonempty_here(s); }
    assert(s.take(cs@.len() as int) =~= s);
    if !crate::text::str_is_empty(cur.as_str()) {
        v.push(cur);
    }
    proof {
        let p = crate::io::csv::split_on(s, '\n');
        let ls = lines_spec(s);
        let tl = text_lines(s);
        lemma_split_last_empty(s);
        if p.last().len() > 0 {
            assert(ls == p);
            assert(!(s.len() > 0 && s.last() == '\n'));
            assert forall|k: int| 0 <= k < tl.len() implies #[trigger] crate::lagrangian::string_views(v@)[k] == tl[k] by {
                if k < p.len() - 1 {
                    assert(v@[k]@ == tl[k]);
                } else {
                    assert(v@[k]@ == p.last());
                }
            }
        } else {
            assert(ls == p.drop_last());
            assert forall|k: int| 0 <= k < tl.len() implies #[trigger] crate::lagrangian::string_views(v@)[k] == tl[k] by {
                assert(s.len() > 0 && s.last() == '\n');
                assert(v@[k]@ == tl[k]);
            }
        }
        assert(crate::lagrangian::string_views(v@) =~= tl);
    }
    v
}

proof fn lemma_split_last_empty(s: Seq<char>)
    ensures
        crate::io::csv::split_on(s, '\n').len() >= 1,
        crate::io::csv::split_on(s, '\n').last().len() == 0 && s.len() > 0 ==> s.last() == '\n',
        s.len() > 0 && s.last() == '\n' ==> crate::io::csv::split_on(s, '\n').last().len() == 0,
    decreases s.len(),
{
    if s.len() > 0 {
        lemma_split_last_empty(s.drop_last());
    }
}

proof fn lemma_split_nonempty_here(s: Seq<char>)
    ensures
        crate::io::csv::split_on(s, '\n').len() >= 1,
        s.len() > 0 && s.last() == '\n' ==> crate::io::csv::split_on(s, '\n').last().len() == 0,
    decreases s.len(),
{
    if s.len() > 0 {
        lemma_split_nonempty_here(s.drop_last());
    }
}

/// A line without one trailing carriage return.
fn strip_cr(s: &String) -> (r: String)
    ensures
        r@ == (if s@.len() > 0 && s@.last() == '\r' { s@.drop_last() } else { s@ }),
{
    let cs = to_chars(s.as_str());
    let n = cs.len();
    let end: usize = if n > 0 && cs[n - 1] == '\r' { n - 1 } else { n };
    let mut r = String::new();
    let mut i: usize = 0;
    while i < end
        invariant
            cs@ == s@,
            end <= cs@.len(),
            i <= end,
            r@ == cs@.take(i as int),
        decreases end - i,
    {
        push_char(&mut r, cs[i]);
        assert(cs@.take(i + 1) =~= cs@.take(i as int).push(cs@[i as int]));
        i = i + 1;
    }
    assert(cs@.take(end as int) =~= (if s@.len() > 0 && s@.last() == '\r' { s@.drop_last() } else { s@ }));
    r
}

/// Build the provenance comment block of a record from the PDG source stated
/// in its payload and the pretty-printed payload (see [`block_spec`]).
pub fn provenance_block(
    record: &ProvenanceRecord,
    prefix: &str,
    suffix: &str,
    pdg: Option<&SessionPdgProvenance>,
    pretty_payload: &str,
) -> (out: String)
    ensures
        out@ == block_spec(record.sha256@, prefix@, suffix@,
            match pdg { Some(p) => Some(*p), None => None }, pretty_payload@),
{
    let mut out = String::new();
    push_block_line(&mut out, prefix, "SPIRE PROVENANCE HASH: ", record.sha256.as_str(), suffix);
    push_block_line(&mut out, prefix, "SPIRE VERSION: ", kernel_version(), suffix);
    let ghost after_head = out@;
    match pdg {
        Some(p) => {
            push_block_line(&mut out, prefix, "PDG EDITION: ", p.edition.as_str(), suffix);
            push_block_line(&mut out, prefix, "PDG SOURCE ID: ", p.source_id.as_str(), suffix);
            let policy: &str = match &p.extraction_policy { Some(x) => x.as_str(), None => "unspecified" };
            push_block_line(&mut out, prefix, "PDG EXTRACTION POLICY: ", policy, suffix);
            let fp: &str = match &p.local_file_fingerprint { Some(x) => x.as_str(), None => "unavailable" };
            push_block_line(&mut out, prefix, "PDG LOCAL FINGERPRINT: ", fp, suffix);
        }
        None => {}
    }
    push_block_line(&mut out, prefix, "BEGIN PROVENANCE PAYLOAD", "", suffix);
    let lines = split_text_lines(pretty_payload);
    let ghost before_lines = out@;
    let mut i: usize = 0;
    while i < lines.len()
        invariant
            i <= lines@.len(),
            out@ == before_lines + payload_lines(prefix@, suffix@, crate::lagrangian::string_views(lines@).take(i as int)),
        decreases lines@.len() - i,
    {
        assert(crate::lagrangian::string_views(lines@).take(i + 1).drop_last()
            =~= crate::lagrangian::string_views(lines@).take(i as int));
        push_block_line(&mut out, prefix, "", lines[i].as_str(), suffix);
        proof { reveal_strlit(""); }
        assert(Seq::<char>::empty() + lines@[i as int]@ =~= lines@[i as int]@);
        i = i + 1;
    }
    assert(crate::lagrangian::string_views(lines@).take(lines@.len() as int) =~= crate::lagrangian::string_views(lines@));
    push_block_line(&mut out, prefix, "END PROVENANCE PAYLOAD", "", suffix);
    proof { reveal_strlit(""); }
    assert("BEGIN PROVENANCE PAYLOAD"@ + ""@ =~= "BEGIN PROVENANCE PAYLOAD"@);
    assert("END PROVENANCE PAYLOAD"@ + ""@ =~= "END PROVENANCE PAYLOAD"@);
    out
}

/// Pretty-printed form of a JSON text (`serde_json::to_string_pretty` of the
/// parsed value), or `None` when the text is not valid JSON.
pub uninterp spec fn pretty_json(text: Seq<char>) -> Option<Seq<char>>;

/// Parse a JSON text into a `serde_json::Value` and pretty-print it.
///
/// Trusted: the result is named [`pretty_json`] of the text: `None` exactly
/// when parsing fails (printing a parsed value does not fail).
#[verifier::external_body]
fn json_pretty(text: &str) -> (r: Option<String>)
    ensures
        match r {
            Some(p) => pretty_json(text@) == Some(p@),
            None => pretty_json(text@) is None,
        },
{
    match serde_json::from_str::<serde_json::Value>(text) {
        Ok(v) => serde_json::to_string_pretty(&v).ok(),
        Err(_) => None,
    }
}

/// Format a provenance record as a comment block (lines framed by `prefix`
/// and `suffix`): `None` when the payload is not valid JSON.
pub fn format_provenance_block(
    record: &ProvenanceRecord,
    prefix: &str,
    suffix: &str,
    pdg: Option<&SessionPdgProvenance>,
) -> (out: Option<String>)
    ensures
        match pretty_json(record.payload@) {
            Some(p) => out matches Some(b) && b@ == block_spec(record.sha256@, prefix@, suffix@,
                match pdg { Some(x) => Some(*x), None => None }, p),
            None => out is None,
        },
{
    match json_pretty(record.payload.as_str()) {
        Some(p) => Some(provenance_block(record, prefix, suffix, pdg, p.as_str())),
        None => None,
    }
}

/// Record the fingerprint of a local PDG source file: its path and
/// fingerprint are stored, and the overall fingerprint is taken from it when
/// it was blank (empty or whitespace only).
pub fn record_local_fingerprint(pdg: &mut SessionPdgProvenance, normalized_path: String, local_fingerprint: String)
    ensures
        final(pdg).source_path == Some(normalized_path),
        final(pdg).local_file_fingerprint == Some(local_fingerprint),
        trim_spec(old(pdg).fingerprint@).len() == 0 ==> final(pdg).fingerprint@ == local_fingerprint@,
        trim_spec(old(pdg).fingerprint@).len() > 0 ==> final(pdg).fingerprint == old(pdg).fingerprint,
        final(pdg).edition == old(pdg).edition,
        final(pdg).source_id == old(pdg).source_id,
        final(pdg).origin == old(pdg).origin,
        final(pdg).release_timestamp == old(pdg).release_timestamp,
        final(pdg).extraction_policy == old(pdg).extraction_policy,
        final(pdg).source_arbitration_outcome == old(pdg).source_arbitration_outcome,
{
    let blank = crate::io::csv::is_blank_text(pdg.fingerprint.as_str());
    pdg.source_path = Some(normalized_path);
    if blank {
        pdg.fingerprint = local_fingerprint.clone();
    }
    pdg.local_file_fingerprint = Some(local_fingerprint);
}

} // verus!
