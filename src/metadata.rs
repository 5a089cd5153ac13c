//! The bindgen metadata that a module carries in its custom sections: each
//! such section holds a run of records, a record being a four-byte
//! little-endian length followed by that many bytes of JSON.
use vstd::prelude::*;

use parity_wasm::elements::Module;
use serde_json::Error as JsonError;
use wasm_bindgen_shared::Program;

use crate::wasm::{
    custom_section, export_fields_of, import_modules_of, remove_section, section_count, sections_of,
};

verus! {

#[verifier::external_type_specification]
#[verifier::external_body]
pub struct ExProgram(Program);

#[verifier::external_type_specification]
#[verifier::external_body]
pub struct ExJsonError(JsonError);

/// The name of the custom sections that hold the metadata.
pub const METADATA_SECTION: &'static str = "__wasm_bindgen_unstable";

/// Why a module's metadata was refused.
pub enum MetadataError {
    /// A record's length runs past the end of its section, or a section
    /// ends inside a length.
    Truncated,
    /// A record is not JSON of the expected shape.
    Undecodable(JsonError),
    /// A record was written for another schema version.
    VersionMismatch { wasm_version: String, tool_version: String },
}

/// The kinds of `MetadataError`, for contracts.
#[derive(PartialEq, Eq)]
pub enum FailureKind {
    Truncated,
    Undecodable,
    VersionMismatch,
}

impl MetadataError {
    /// The version that a refused record was written for (empty for the
    /// other errors).
    pub open spec fn found_version(&self) -> Seq<char> {
        match self {
            MetadataError::VersionMismatch { wasm_version, .. } => wasm_version@,
            _ => seq![],
        }
    }

    pub open spec fn kind(&self) -> FailureKind {
        match self {
            MetadataError::Truncated => FailureKind::Truncated,
            MetadataError::Undecodable(_) => FailureKind::Undecodable,
            MetadataError::VersionMismatch { .. } => FailureKind::VersionMismatch,
        }
    }
}

/// What decoding `record` as JSON with the fields `schema_version` and
/// `version` gives: those two fields, or `None` when it fails.
pub uninterp spec fn schema_stamp_of(record: Seq<u8>) -> Option<(Seq<char>, Seq<char>)>;

/// Whether `record` decodes as JSON into a full metadata record.
pub uninterp spec fn program_decodes(record: Seq<u8>) -> bool;

/// Relies on `serde_json::from_slice` into `ProgramOnlySchema`.
#[verifier::external_body]
fn decode_stamp(record: &[u8]) -> (r: Result<(String, String), JsonError>)
    ensures
        match r {
            Ok((schema, version)) => schema_stamp_of(record@) == Some((schema@, version@)),
            Err(_) => schema_stamp_of(record@) is None,
        },
{
    serde_json::from_slice::<wasm_bindgen_shared::ProgramOnlySchema>(record).map(
        |p| (p.schema_version, p.version),
    )
}

/// Relies on `serde_json::from_slice` into `Program`.
#[verifier::external_body]
fn decode_program(record: &[u8]) -> (r: Result<Program, JsonError>)
    ensures
        r is Ok <==> program_decodes(record@),
{
    serde_json::from_slice::<Program>(record)
}

/// Relies on `wasm_bindgen_shared::SCHEMA_VERSION`, which is `"6"` in this
/// version of the crate.
#[verifier::external_body]
pub(crate) fn schema_version() -> (r: String)
    ensures
        r@ == "6"@,
{
    wasm_bindgen_shared::SCHEMA_VERSION.to_string()
}

/// Relies on `wasm_bindgen_shared::version`: this tool's version, for
/// messages only.
#[verifier::external_body]
fn tool_version() -> (r: String) {
    wasm_bindgen_shared::version()
}

/// The length that the four bytes at the start of `p` give, little-endian.
pub open spec fn le32(p: Seq<u8>) -> nat {
    p[0] as nat + 256 * (p[1] as nat) + 65536 * (p[2] as nat) + 16777216 * (p[3] as nat)
}

/// The first record of `p`, which must hold its length and its bytes.
pub open spec fn has_first_record(p: Seq<u8>) -> bool {
    p.len() >= 4 && le32(p) <= p.len() - 4
}

pub open spec fn first_record(p: Seq<u8>) -> Seq<u8> {
    p.subrange(4, 4 + le32(p) as int)
}

pub open spec fn after_first_record(p: Seq<u8>) -> Seq<u8> {
    p.subrange(4 + le32(p) as int, p.len() as int)
}

/// How reading the records of the payload `p` in order fails, the first
/// failure deciding; `None` when every record is read.
pub open spec fn payload_failure(p: Seq<u8>, expected: Seq<char>) -> Option<FailureKind>
    decreases p.len(),
{
    if p.len() == 0 {
        None
    } else if !has_first_record(p) {
        Some(FailureKind::Truncated)
    } else {
        let rec = first_record(p);
        match schema_stamp_of(rec) {
            None => Some(FailureKind::Undecodable),
            Some((schema, _)) => if schema != expected {
                Some(FailureKind::VersionMismatch)
            } else if !program_decodes(rec) {
                Some(FailureKind::Undecodable)
            } else {
                payload_failure(after_first_record(p), expected)
            },
        }
    }
}

/// The `version` field of the record whose schema version stops the reading
/// of `p` (empty where no such record stops it).
pub open spec fn payload_mismatch_version(p: Seq<u8>, expected: Seq<char>) -> Seq<char>
    decreases p.len(),
{
    if p.len() == 0 || !has_first_record(p) {
        seq![]
    } else {
        let rec = first_record(p);
        match schema_stamp_of(rec) {
            None => seq![],
            Some((schema, version)) => if schema != expected {
                version
            } else if !program_decodes(rec) {
                seq![]
            } else {
                payload_mismatch_version(after_first_record(p), expected)
            },
        }
    }
}

/// The records of the payload `p`, as far as their lengths can be read.
pub open spec fn payload_records(p: Seq<u8>) -> Seq<Seq<u8>>
    decreases p.len(),
{
    if p.len() == 0 || !has_first_record(p) {
        seq![]
    } else {
        seq![first_record(p)] + payload_records(after_first_record(p))
    }
}

pub open spec fn is_metadata(s: Option<(Seq<char>, Seq<u8>)>) -> bool {
    match s {
        Some((name, _)) => name == METADATA_SECTION@,
        None => false,
    }
}

pub open spec fn payload_of(s: Option<(Seq<char>, Seq<u8>)>) -> Seq<u8> {
    match s {
        Some((_, payload)) => payload,
        None => seq![],
    }
}

/// How reading the metadata sections among `secs` in order fails.
pub open spec fn metadata_failure(
    secs: Seq<Option<(Seq<char>, Seq<u8>)>>,
    expected: Seq<char>,
) -> Option<FailureKind>
    decreases secs.len(),
{
    if secs.len() == 0 {
        None
    } else if is_metadata(secs[0]) && payload_failure(payload_of(secs[0]), expected) is Some {
        payload_failure(payload_of(secs[0]), expected)
    } else {
        metadata_failure(secs.drop_first(), expected)
    }
}

/// The `version` field of the record whose schema version stops the reading
/// of the metadata sections among `secs`.
pub open spec fn metadata_mismatch_version(
    secs: Seq<Option<(Seq<char>, Seq<u8>)>>,
    expected: Seq<char>,
) -> Seq<char>
    decreases secs.len(),
{
    if secs.len() == 0 {
        seq![]
    } else if is_metadata(secs[0]) && payload_failure(payload_of(secs[0]), expected) is Some {
        payload_mismatch_version(payload_of(secs[0]), expected)
    } else {
        metadata_mismatch_version(secs.drop_first(), expected)
    }
}

/// The records of all metadata sections among `secs`, in order.
pub open spec fn metadata_records(secs: Seq<Option<(Seq<char>, Seq<u8>)>>) -> Seq<Seq<u8>>
    decreases secs.len(),
{
    if secs.len() == 0 {
        seq![]
    } else if is_metadata(secs[0]) {
        payload_records(payload_of(secs[0])) + metadata_records(secs.drop_first())
    } else {
        metadata_records(secs.drop_first())
    }
}

/// `secs` without its metadata sections.
pub open spec fn without_metadata(secs: Seq<Option<(Seq<char>, Seq<u8>)>>) -> Seq<
    Option<(Seq<char>, Seq<u8>)>,
>
    decreases secs.len(),
{
    if secs.len() == 0 {
        seq![]
    } else if is_metadata(secs[0]) {
        without_metadata(secs.drop_first())
    } else {
        seq![secs[0]] + without_metadata(secs.drop_first())
    }
}

fn copy_bytes(v: &Vec<u8>, from: usize, to: usize) -> (r: Vec<u8>)
    requires
        from <= to <= v@.len(),
    ensures
        r@ == v@.subrange(from as int, to as int),
{
    let mut r: Vec<u8> = Vec::new();
    let mut i: usize = from;
    while i < to
        invariant
            from <= i <= to <= v@.len(),
            r@ == v@.subrange(from as int, i as int),
        decreases to - i,
    {
        r.push(v[i]);
        i = i + 1;
        assert(r@ =~= v@.subrange(from as int, i as int));
    }
    r
}

/// Reads the records of one metadata section's payload into `out`, checking
/// each record's schema version against `expected` before decoding it.
pub fn decode_payload(payload: &Vec<u8>, expected: &String, out: &mut Vec<Program>) -> (r: Result<
    (),
    MetadataError,
>)
    ensures
        match r {
            Ok(()) => payload_failure(payload@, expected@) is None && final(out)@.len()
                == old(out)@.len() + payload_records(payload@).len(),
            Err(e) => payload_failure(payload@, expected@) == Some(e.kind()) && (e.kind()
                == FailureKind::VersionMismatch ==> e.found_version()
                == payload_mismatch_version(payload@, expected@)),
        },
        final(out)@.subrange(0, old(out)@.len() as int) == old(out)@,
{
    let n = payload.len();
    let mut pos: usize = 0;
    assert(payload@.subrange(0, n as int) =~= payload@);
    while pos < n
        invariant
            pos <= n == payload@.len(),
            payload_failure(payload@, expected@) == payload_failure(
                payload@.subrange(pos as int, n as int),
                expected@,
            ),
            out@.len() + payload_records(payload@.subrange(pos as int, n as int)).len()
                == old(out)@.len() + payload_records(payload@).len(),
            payload_mismatch_version(payload@, expected@) == payload_mismatch_version(
                payload@.subrange(pos as int, n as int),
                expected@,
            ),
            old(out)@.len() <= out@.len(),
            out@.subrange(0, old(out)@.len() as int) == old(out)@,
        decreases n - pos,
    {
        let ghost p = payload@.subrange(pos as int, n as int);
        if n - pos < 4 {
            return Err(MetadataError::Truncated);
        }
        let len: u64 = payload[pos] as u64 + 256 * (payload[pos + 1] as u64) + 65536 * (
        payload[pos + 2] as u64) + 16777216 * (payload[pos + 3] as u64);
        assert(len as nat == le32(p));
        let rest: usize = n - pos - 4;
        if len > rest as u64 {
            return Err(MetadataError::Truncated);
        }
        let end: usize = pos + 4 + len as usize;
        let record = copy_bytes(payload, pos + 4, end);
        assert(record@ =~= first_record(p));
        assert(payload@.subrange(end as int, n as int) =~= after_first_record(p));
        match decode_stamp(record.as_slice()) {
            Err(e) => {
                return Err(MetadataError::Undecodable(e));
            },
            Ok((schema, version)) => {
                if schema != *expected {
                    return Err(
                        MetadataError::VersionMismatch {
                            wasm_version: version,
                            tool_version: tool_version(),
                        },
                    );
                }
            },
        }
        match decode_program(record.as_slice()) {
            Err(e) => {
                return Err(MetadataError::Undecodable(e));
            },
            Ok(program) => {
                let ghost prev = out@;
                out.push(program);
                assert(out@.subrange(0, old(out)@.len() as int) =~= prev.subrange(
                    0,
                    old(out)@.len() as int,
                ));
            },
        }
        pos = end;
    }
    assert(payload@.subrange(n as int, n as int) =~= seq![]);
    Ok(())
}

/// Reads the records of every metadata section of `m`, checking the schema
/// version of each against `expected`, and on success takes those sections
/// out of `m`, the others keeping their order. On failure `m` is left as it
/// was.
pub fn extract_records(m: &mut Module, expected: &String) -> (r: Result<
    Vec<Program>,
    MetadataError,
>)
    ensures
        match r {
            Ok(programs) => metadata_failure(sections_of(*old(m)), expected@) is None
                && programs@.len() == metadata_records(sections_of(*old(m))).len()
                && sections_of(*final(m)) == without_metadata(sections_of(*old(m)))
                && import_modules_of(*final(m)) == import_modules_of(*old(m))
                && export_fields_of(*final(m)) == export_fields_of(*old(m)),
            Err(e) => metadata_failure(sections_of(*old(m)), expected@) == Some(e.kind())
                && (e.kind() == FailureKind::VersionMismatch ==> e.found_version()
                == metadata_mismatch_version(sections_of(*old(m)), expected@))
                && *final(m) == *old(m),
        },
{
    let ghost secs = sections_of(*m);
    let ghost orig = *m;
    let n = section_count(m);
    let reserved = String::from_str(METADATA_SECTION);
    let mut programs: Vec<Program> = Vec::new();
    let mut flags: Vec<bool> = Vec::new();
    let mut i: usize = 0;
    assert(secs.subrange(0, n as int) =~= secs);
    while i < n
        invariant
            i <= n == secs.len(),
            secs == sections_of(*m),
            reserved@ == METADATA_SECTION@,
            flags@.len() == i,
            forall|k: int| 0 <= k < i ==> flags@[k] == is_metadata(#[trigger] secs[k]),
            metadata_failure(secs, expected@) == metadata_failure(
                secs.subrange(i as int, n as int),
                expected@,
            ),
            metadata_mismatch_version(secs, expected@) == metadata_mismatch_version(
                secs.subrange(i as int, n as int),
                expected@,
            ),
            *m == orig,
            programs@.len() + metadata_records(secs.subrange(i as int, n as int)).len()
                == metadata_records(secs).len(),
        decreases n - i,
    {
        let ghost rest = secs.subrange(i as int, n as int);
        assert(rest.drop_first() =~= secs.subrange(i + 1, n as int));
        assert(rest[0] == secs[i as int]);
        let mut meta = false;
        match custom_section(m, i) {
            Some((name, payload)) => {
                if name == reserved {
                    meta = true;
                    let res = decode_payload(&payload, expected, &mut programs);
                    match res {
                        Err(e) => {
                            return Err(e);
                        },
                        Ok(()) => {},
                    }
                }
            },
            None => {},
        }
        flags.push(meta);
        i = i + 1;
    }
    assert(secs.subrange(n as int, n as int) =~= seq![]);
    let mut j: usize = n;
    assert(secs.subrange(0, n as int) + without_metadata(secs.subrange(n as int, n as int))
        =~= secs);
    while j > 0
        invariant
            j <= n == secs.len() == flags@.len(),
            forall|k: int| 0 <= k < n ==> flags@[k] == is_metadata(#[trigger] secs[k]),
            sections_of(*m) == secs.subrange(0, j as int) + without_metadata(
                secs.subrange(j as int, n as int),
            ),
            secs == sections_of(orig),
            import_modules_of(*m) == import_modules_of(orig),
            export_fields_of(*m) == export_fields_of(orig),
        decreases j,
    {
        let ghost tail = secs.subrange(j - 1, n as int);
        assert(tail.drop_first() =~= secs.subrange(j as int, n as int));
        assert(tail[0] == secs[j - 1]);
        let ghost wm = without_metadata(secs.subrange(j as int, n as int));
        if flags[j - 1] {
            assert(sections_of(*m)[j - 1] == secs[j - 1]);
            remove_section(m, j - 1);
            assert(sections_of(*m) =~= secs.subrange(0, j - 1) + without_metadata(tail));
        } else {
            assert(secs.subrange(0, j as int) + wm =~= secs.subrange(0, j - 1) + (seq![secs[j - 1]] + wm));
        }
        j = j - 1;
    }
    assert(secs.subrange(0, 0) + without_metadata(secs) =~= without_metadata(secs));
    Ok(programs)
}

/// Reads the metadata of `m` as `extract_records` does, against the schema
/// version that this tool understands.
pub fn extract_programs(m: &mut Module) -> (r: Result<Vec<Program>, MetadataError>)
    ensures
        match r {
            Ok(programs) => metadata_failure(sections_of(*old(m)), "6"@) is None
                && programs@.len() == metadata_records(sections_of(*old(m))).len()
                && sections_of(*final(m)) == without_metadata(sections_of(*old(m)))
                && import_modules_of(*final(m)) == import_modules_of(*old(m))
                && export_fields_of(*final(m)) == export_fields_of(*old(m)),
            Err(e) => metadata_failure(sections_of(*old(m)), "6"@) == Some(e.kind())
                && (e.kind() == FailureKind::VersionMismatch ==> e.found_version()
                == metadata_mismatch_version(sections_of(*old(m)), "6"@))
                && *final(m) == *old(m),
        },
{
    let expected = schema_version();
    extract_records(m, &expected)
}


/// Once the metadata sections are taken out, none is left.
pub proof fn lemma_stripped_has_no_metadata(secs: Seq<Option<(Seq<char>, Seq<u8>)>>)
    ensures
        forall|k: int|
            0 <= k < without_metadata(secs).len() ==> !is_metadata(
                #[trigger] without_metadata(secs)[k],
            ),
    decreases secs.len(),
{
    if secs.len() > 0 {
        lemma_stripped_has_no_metadata(secs.drop_first());
        let rest = without_metadata(secs.drop_first());
        if !is_metadata(secs[0]) {
            assert forall|k: int|
                0 <= k < without_metadata(secs).len() implies !is_metadata(
                #[trigger] without_metadata(secs)[k],
            ) by {
                if k > 0 {
                    assert(without_metadata(secs)[k] == rest[k - 1]);
                }
            }
        }
    }
}

proof fn lemma_payload_gate(p: Seq<u8>, expected: Seq<char>)
    requires
        payload_failure(p, expected) is None,
    ensures
        forall|k: int|
            0 <= k < payload_records(p).len() ==> (match schema_stamp_of(
                #[trigger] payload_records(p)[k],
            ) {
                Some((schema, _)) => schema == expected,
                None => false,
            }),
    decreases p.len(),
{
    if p.len() > 0 {
        let rest = after_first_record(p);
        lemma_payload_gate(rest, expected);
        assert forall|k: int| 0 <= k < payload_records(p).len() implies (match schema_stamp_of(
            #[trigger] payload_records(p)[k],
        ) {
            Some((schema, _)) => schema == expected,
            None => false,
        }) by {
            if k > 0 {
                assert(payload_records(p)[k] == payload_records(rest)[k - 1]);
            }
        }
    }
}

/// A module's metadata is accepted only if every one of its records carries
/// the expected schema version: a single record of another version makes
/// extraction fail, whatever else the records hold.
pub proof fn lemma_version_gate(secs: Seq<Option<(Seq<char>, Seq<u8>)>>, expected: Seq<char>)
    requires
        metadata_failure(secs, expected) is None,
    ensures
        forall|k: int|
            0 <= k < metadata_records(secs).len() ==> (match schema_stamp_of(
                #[trigger] metadata_records(secs)[k],
            ) {
                Some((schema, _)) => schema == expected,
                None => false,
            }),
    decreases secs.len(),
{
    if secs.len() > 0 {
        let tail = secs.drop_first();
        lemma_version_gate(tail, expected);
        if is_metadata(secs[0]) {
            let here = payload_records(payload_of(secs[0]));
            lemma_payload_gate(payload_of(secs[0]), expected);
            assert forall|k: int| 0 <= k < metadata_records(secs).len() implies (match schema_stamp_of(
                #[trigger] metadata_records(secs)[k],
            ) {
                Some((schema, _)) => schema == expected,
                None => false,
            }) by {
                if k < here.len() {
                    assert(metadata_records(secs)[k] == here[k]);
                } else {
                    assert(metadata_records(secs)[k] == metadata_records(tail)[k - here.len()]);
                }
            }
        }
    }
}

/// A metadata section whose first record claims more bytes than the section
/// holds makes extraction fail; with nothing wrong before it, the failure
/// is `Truncated`.
pub proof fn lemma_overlong_record_fails(
    secs: Seq<Option<(Seq<char>, Seq<u8>)>>,
    i: int,
    expected: Seq<char>,
)
    requires
        0 <= i < secs.len(),
        is_metadata(secs[i]),
        payload_of(secs[i]).len() >= 4,
        le32(payload_of(secs[i])) > payload_of(secs[i]).len() - 4,
    ensures
        metadata_failure(secs, expected) is Some,
        metadata_failure(secs.subrange(0, i), expected) is None ==> metadata_failure(
            secs,
            expected,
        ) == Some(FailureKind::Truncated),
    decreases i,
{
    if i > 0 {
        lemma_overlong_record_fails(secs.drop_first(), i - 1, expected);
        assert(secs.subrange(0, i).drop_first() =~= secs.drop_first().subrange(0, i - 1));
        assert(secs.subrange(0, i)[0] == secs[0]);
    }
}


/// The declared lengths of the records of `p` tile it exactly: each length
/// fits in what is left, and nothing is left after the last record.
pub open spec fn records_tile(p: Seq<u8>) -> bool
    decreases p.len(),
{
    p.len() == 0 || (has_first_record(p) && records_tile(after_first_record(p)))
}

proof fn lemma_accepted_payload_tiles(p: Seq<u8>, expected: Seq<char>)
    requires
        payload_failure(p, expected) is None,
    ensures
        records_tile(p),
    decreases p.len(),
{
    if p.len() > 0 {
        lemma_accepted_payload_tiles(after_first_record(p), expected);
    }
}

/// Metadata is accepted only if, in every metadata section, the declared
/// record lengths tile the payload exactly: a length that runs past the end
/// of its section, or a section that ends inside a length, always makes
/// extraction fail.
pub proof fn lemma_accepted_metadata_tiles(
    secs: Seq<Option<(Seq<char>, Seq<u8>)>>,
    expected: Seq<char>,
)
    requires
        metadata_failure(secs, expected) is None,
    ensures
        forall|k: int|
            0 <= k < secs.len() && is_metadata(#[trigger] secs[k]) ==> records_tile(
                payload_of(secs[k]),
            ),
    decreases secs.len(),
{
    if secs.len() > 0 {
        lemma_accepted_metadata_tiles(secs.drop_first(), expected);
        if is_metadata(secs[0]) {
            lemma_accepted_payload_tiles(payload_of(secs[0]), expected);
        }
        assert forall|k: int|
            0 <= k < secs.len() && is_metadata(#[trigger] secs[k]) implies records_tile(
            payload_of(secs[k]),
        ) by {
            if k > 0 {
                assert(secs[k] == secs.drop_first()[k - 1]);
            }
        }
    }
}


/// What is left of `p` after its first `k` records.
pub open spec fn skip_records(p: Seq<u8>, k: nat) -> Seq<u8>
    decreases k,
{
    if k == 0 || !has_first_record(p) {
        p
    } else {
        skip_records(after_first_record(p), (k - 1) as nat)
    }
}

proof fn lemma_tiles_after_skip(p: Seq<u8>, k: nat)
    requires
        records_tile(p),
    ensures
        records_tile(skip_records(p, k)),
    decreases k,
{
    if k > 0 && has_first_record(p) {
        lemma_tiles_after_skip(after_first_record(p), (k - 1) as nat);
    }
}

/// Wherever a record boundary falls in a payload, a length there that
/// claims more bytes than are left, or a remainder too short to hold a
/// length, makes the reading of the payload fail.
pub proof fn lemma_overlong_record_at_boundary(p: Seq<u8>, k: nat, expected: Seq<char>)
    requires
        skip_records(p, k).len() > 0,
        !has_first_record(skip_records(p, k)),
    ensures
        payload_failure(p, expected) is Some,
{
    if payload_failure(p, expected) is None {
        lemma_accepted_payload_tiles(p, expected);
        lemma_tiles_after_skip(p, k);
    }
}

} // verus!
