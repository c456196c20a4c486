//! Extraction of hash records from derivation metadata, and the reading of the
//! path evaluator's output lines.
use vstd::prelude::*;

use crate::harvest::{opt_view, DerivationHashes, HashRecord, RecordKey};
use crate::json::{
    json_entries, json_entries_of, json_member, json_member_of, member_scalar, pairs_view,
    scalar_of, JsonScalar, Scalar,
};

verus! {

/// Why derivation metadata could not be read.
#[derive(Clone, Copy, Debug, PartialEq, Eq, Structural)]
pub enum ExtractError {
    /// The text, or a derivation's `outputs`, is not a well-formed JSON object.
    NotAnObject,
    /// A derivation has no `outputs` member.
    MissingOutputs,
    /// `env.outputHash` is present but is not a string.
    EnvHash,
    /// `env.outputHashAlgo` is neither a string nor null.
    EnvHashAlgo,
    /// An output's `hash` is present but is not a string.
    OutputHash,
    /// An output has a `hash` string but no `hashAlgo` string.
    OutputHashAlgo,
}

/// The mathematical form of a derivation's hash data: the fixed-output record and
/// the (output name, record) pairs.
pub type DerivationView = (Option<RecordKey>, Seq<(Seq<char>, RecordKey)>);

pub open spec fn derivation_view(d: DerivationHashes) -> DerivationView {
    (
        match d.env {
            Some(h) => Some(h.key()),
            None => None,
        },
        d.outputs@.map_values(|p: (String, HashRecord)| (p.0@, p.1.key())),
    )
}

/// The fixed-output record declared by a build environment's hash and algorithm
/// members. A null algorithm counts as absent.
pub open spec fn env_record(hash: Scalar, algo: Scalar) -> Result<Option<RecordKey>, ExtractError> {
    match hash {
        Scalar::Null | Scalar::Other => Err(ExtractError::EnvHash),
        _ => match algo {
            Scalar::Other => Err(ExtractError::EnvHashAlgo),
            _ => Ok(
                match hash {
                    Scalar::Str(h) => Some(
                        (
                            h,
                            match algo {
                                Scalar::Str(a) => Some(a),
                                _ => None,
                            },
                        ),
                    ),
                    _ => None,
                },
            ),
        },
    }
}

/// The record declared by one output; `None` when it declares no hash.
pub open spec fn output_record(hash: Scalar, algo: Scalar) -> Result<Option<RecordKey>, ExtractError> {
    match hash {
        Scalar::Missing => Ok(None),
        Scalar::Str(h) => match algo {
            Scalar::Str(a) => Ok(Some((h, Some(a)))),
            _ => Err(ExtractError::OutputHashAlgo),
        },
        _ => Err(ExtractError::OutputHash),
    }
}

/// The records of the outputs (name, hash member, algorithm member) in order,
/// leaving out those without a hash; the first error otherwise.
pub open spec fn output_records(s: Seq<(Seq<char>, Scalar, Scalar)>) -> Result<
    Seq<(Seq<char>, RecordKey)>,
    ExtractError,
>
    decreases s.len(),
{
    if s.len() == 0 {
        Ok(Seq::empty())
    } else {
        match output_records(s.drop_last()) {
            Err(e) => Err(e),
            Ok(prev) => match output_record(s.last().1, s.last().2) {
                Err(e) => Err(e),
                Ok(None) => Ok(prev),
                Ok(Some(k)) => Ok(prev.push((s.last().0, k))),
            },
        }
    }
}

/// A derivation's hash data from the members read out of its metadata: the build
/// environment is read first, then the outputs in order.
pub open spec fn derivation_result(
    env_hash: Scalar,
    env_algo: Scalar,
    outputs: Seq<(Seq<char>, Scalar, Scalar)>,
) -> Result<DerivationView, ExtractError> {
    match env_record(env_hash, env_algo) {
        Err(e) => Err(e),
        Ok(env) => match output_records(outputs) {
            Err(e) => Err(e),
            Ok(outs) => Ok((env, outs)),
        },
    }
}

pub open spec fn rows_view(v: Seq<(String, JsonScalar, JsonScalar)>) -> Seq<(Seq<char>, Scalar, Scalar)> {
    v.map_values(|r: (String, JsonScalar, JsonScalar)| (r.0@, r.1@, r.2@))
}

pub open spec fn result_view(r: Result<DerivationHashes, ExtractError>) -> Result<DerivationView, ExtractError> {
    match r {
        Ok(d) => Ok(derivation_view(d)),
        Err(e) => Err(e),
    }
}

/// Builds a derivation's hash data from the members read out of its metadata:
/// the build environment's hash and algorithm, and each output's name, hash and
/// algorithm.
pub fn derivation_hashes_from_fields(
    env_hash: JsonScalar,
    env_algo: JsonScalar,
    outputs: &Vec<(String, JsonScalar, JsonScalar)>,
) -> (r: Result<DerivationHashes, ExtractError>)
    ensures
        result_view(r) == derivation_result(env_hash@, env_algo@, rows_view(outputs@)),
{
    let ghost env_view = (env_hash@, env_algo@);
    let algo = match env_algo {
        JsonScalar::Other => {
            return match env_hash {
                JsonScalar::Null | JsonScalar::Other => Err(ExtractError::EnvHash),
                _ => Err(ExtractError::EnvHashAlgo),
            };
        },
        JsonScalar::Str(a) => Some(a),
        _ => None,
    };
    let env = match env_hash {
        JsonScalar::Null | JsonScalar::Other => {
            return Err(ExtractError::EnvHash);
        },
        JsonScalar::Str(h) => Some(HashRecord { hash: h, algo }),
        JsonScalar::Missing => None,
    };
    let mut outs: Vec<(String, HashRecord)> = Vec::new();
    let mut i: usize = 0;
    proof {
        assert(rows_view(outputs@.take(0)) =~= Seq::empty());
        assert(outs@.map_values(|p: (String, HashRecord)| (p.0@, p.1.key())) =~= Seq::empty());
    }
    while i < outputs.len()
        invariant
            0 <= i <= outputs.len(),
            env_view == (env_hash@, env_algo@),
            env_record(env_view.0, env_view.1) is Ok,
            output_records(rows_view(outputs@.take(i as int))) == Ok::<
                Seq<(Seq<char>, RecordKey)>,
                ExtractError,
            >(outs@.map_values(|p: (String, HashRecord)| (p.0@, p.1.key()))),
        decreases outputs.len() - i,
    {
        proof {
            assert(rows_view(outputs@.take(i as int + 1)).drop_last() =~= rows_view(
                outputs@.take(i as int),
            ));
        }
        let row = &outputs[i];
        proof {
            assert(rows_view(outputs@.take(i as int + 1)).last() == (row.0@, row.1@, row.2@));
            assert(rows_view(outputs@).take(i as int + 1) =~= rows_view(outputs@.take(i as int + 1)));
            assert(rows_view(outputs@).take(outputs.len() as int) =~= rows_view(outputs@));
        }
        match &row.1 {
            JsonScalar::Missing => {},
            JsonScalar::Str(h) => match &row.2 {
                JsonScalar::Str(a) => {
                    let ghost before = outs@;
                    outs.push((row.0.clone(), HashRecord { hash: h.clone(), algo: Some(a.clone()) }));
                    proof {
                        assert(outs@.map_values(|p: (String, HashRecord)| (p.0@, p.1.key()))
                            =~= before.map_values(|p: (String, HashRecord)| (p.0@, p.1.key())).push(
                            (row.0@, (h@, Some(a@))),
                        ));
                    }
                },
                _ => {
                    proof {
                        assert(output_records(rows_view(outputs@.take(i as int + 1))) == Err::<
                            Seq<(Seq<char>, RecordKey)>,
                            ExtractError,
                        >(ExtractError::OutputHashAlgo));
                        lemma_output_error_persists(rows_view(outputs@), i as int + 1);
                    }
                    return Err(ExtractError::OutputHashAlgo);
                },
            },
            _ => {
                proof {
                    assert(output_records(rows_view(outputs@.take(i as int + 1))) == Err::<
                        Seq<(Seq<char>, RecordKey)>,
                        ExtractError,
                    >(ExtractError::OutputHash));
                    lemma_output_error_persists(rows_view(outputs@), i as int + 1);
                }
                return Err(ExtractError::OutputHash);
            },
        }
        i = i + 1;
    }
    proof {
        assert(outputs@.take(outputs.len() as int) =~= outputs@);
    }
    Ok(DerivationHashes { env, outputs: outs })
}

/// Once the outputs up to `i` give an error, so do all of them.
proof fn lemma_output_error_persists(s: Seq<(Seq<char>, Scalar, Scalar)>, i: int)
    requires
        0 <= i <= s.len(),
        output_records(s.take(i)) is Err,
    ensures
        output_records(s) == output_records(s.take(i)),
    decreases s.len() - i,
{
    if i < s.len() {
        assert(s.take(i + 1).drop_last() =~= s.take(i));
        lemma_output_error_persists(s, i + 1);
    } else {
        assert(s.take(i) =~= s);
    }
}

/// A member of the build environment `env` of the metadata `json`.
pub open spec fn env_member(json: Seq<char>, key: Seq<char>) -> Scalar {
    match json_member_of(json, "env"@) {
        Some(env) => scalar_of(json_member_of(env, key)),
        None => Scalar::Missing,
    }
}

/// The (name, hash, algorithm) members of each output object, in order.
pub open spec fn output_rows(entries: Seq<(Seq<char>, Seq<char>)>) -> Seq<(Seq<char>, Scalar, Scalar)> {
    entries.map_values(
        |e: (Seq<char>, Seq<char>)|
            (e.0, scalar_of(json_member_of(e.1, "hash"@)), scalar_of(json_member_of(e.1, "hashAlgo"@))),
    )
}

/// The hash data of one derivation, read from its JSON metadata.
pub open spec fn derivation_of_json(json: Seq<char>) -> Result<DerivationView, ExtractError> {
    match json_member_of(json, "outputs"@) {
        None => Err(ExtractError::MissingOutputs),
        Some(o) => match json_entries_of(o) {
            None => Err(ExtractError::NotAnObject),
            Some(es) => derivation_result(
                env_member(json, "outputHash"@),
                env_member(json, "outputHashAlgo"@),
                output_rows(es),
            ),
        },
    }
}

/// Reads the hash data of one derivation from its JSON metadata: the build
/// environment's `outputHash` and `outputHashAlgo`, and the `hash` and `hashAlgo`
/// of each member of `outputs`.
pub fn hashes_for_derivation(json: &str) -> (r: Result<DerivationHashes, ExtractError>)
    ensures
        result_view(r) == derivation_of_json(json@),
{
    let (env_hash, env_algo) = match json_member(json, "env") {
        Some(env) => (member_scalar(env.as_str(), "outputHash"), member_scalar(env.as_str(), "outputHashAlgo")),
        None => (JsonScalar::Missing, JsonScalar::Missing),
    };
    let outputs = match json_member(json, "outputs") {
        Some(o) => o,
        None => {
            return Err(ExtractError::MissingOutputs);
        },
    };
    let entries = match json_entries(outputs.as_str()) {
        Some(es) => es,
        None => {
            return Err(ExtractError::NotAnObject);
        },
    };
    let mut rows: Vec<(String, JsonScalar, JsonScalar)> = Vec::new();
    let mut i: usize = 0;
    proof {
        assert(rows_view(rows@) =~= output_rows(pairs_view(entries@).take(0)));
    }
    while i < entries.len()
        invariant
            0 <= i <= entries.len(),
            rows_view(rows@) == output_rows(pairs_view(entries@).take(i as int)),
        decreases entries.len() - i,
    {
        let e = &entries[i];
        let hash = member_scalar(e.1.as_str(), "hash");
        let algo = member_scalar(e.1.as_str(), "hashAlgo");
        let ghost before = rows@;
        rows.push((e.0.clone(), hash, algo));
        proof {
            assert(pairs_view(entries@).take(i as int + 1) =~= pairs_view(entries@).take(i as int).push(
                (e.0@, e.1@),
            ));
            assert(rows_view(rows@) =~= rows_view(before).push((e.0@, hash@, algo@)));
            assert(rows_view(rows@) =~= output_rows(pairs_view(entries@).take(i as int + 1)));
        }
        i = i + 1;
    }
    proof {
        assert(pairs_view(entries@).take(entries.len() as int) =~= pairs_view(entries@));
    }
    derivation_hashes_from_fields(env_hash, env_algo, &rows)
}

/// The derivations of a metadata query's output, in text order, or the first
/// error.
pub open spec fn batch_of_json(entries: Seq<(Seq<char>, Seq<char>)>) -> Result<
    Seq<(Seq<char>, DerivationView)>,
    ExtractError,
>
    decreases entries.len(),
{
    if entries.len() == 0 {
        Ok(Seq::empty())
    } else {
        match batch_of_json(entries.drop_last()) {
            Err(e) => Err(e),
            Ok(prev) => match derivation_of_json(entries.last().1) {
                Err(e) => Err(e),
                Ok(d) => Ok(prev.push((entries.last().0, d))),
            },
        }
    }
}

pub open spec fn batch_view(b: Seq<(String, DerivationHashes)>) -> Seq<(Seq<char>, DerivationView)> {
    b.map_values(|p: (String, DerivationHashes)| (p.0@, derivation_view(p.1)))
}

/// Reads the output of a metadata query: a JSON object whose members map each
/// derivation path to its metadata.
pub fn parse_derivations(text: &str) -> (r: Result<Vec<(String, DerivationHashes)>, ExtractError>)
    ensures
        match json_entries_of(text@) {
            None => r == Err::<Vec<(String, DerivationHashes)>, ExtractError>(ExtractError::NotAnObject),
            Some(es) => match r {
                Ok(b) => batch_of_json(es) == Ok::<_, ExtractError>(batch_view(b@)),
                Err(e) => batch_of_json(es) == Err::<Seq<(Seq<char>, DerivationView)>, _>(e),
            },
        },
{
    let entries = match json_entries(text) {
        Some(es) => es,
        None => {
            return Err(ExtractError::NotAnObject);
        },
    };
    let mut out: Vec<(String, DerivationHashes)> = Vec::new();
    let mut i: usize = 0;
    proof {
        assert(pairs_view(entries@).take(0) =~= Seq::empty());
        assert(batch_view(out@) =~= Seq::empty());
    }
    while i < entries.len()
        invariant
            0 <= i <= entries.len(),
            json_entries_of(text@) == Some(pairs_view(entries@)),
            batch_of_json(pairs_view(entries@).take(i as int)) == Ok::<_, ExtractError>(batch_view(out@)),
        decreases entries.len() - i,
    {
        let e = &entries[i];
        proof {
            assert(pairs_view(entries@).take(i as int + 1).drop_last() =~= pairs_view(entries@).take(
                i as int,
            ));
            assert(pairs_view(entries@).take(i as int + 1).last() == (e.0@, e.1@));
        }
        match hashes_for_derivation(e.1.as_str()) {
            Ok(d) => {
                let ghost before = out@;
                out.push((e.0.clone(), d));
                proof {
                    assert(batch_view(out@) =~= batch_view(before).push((e.0@, derivation_view(d))));
                }
            },
            Err(err) => {
                proof {
                    assert(batch_of_json(pairs_view(entries@).take(i as int + 1)) == Err::<
                        Seq<(Seq<char>, DerivationView)>,
                        ExtractError,
                    >(err));
                    lemma_batch_error_persists(pairs_view(entries@), i as int + 1);
                    assert(pairs_view(entries@).take(entries.len() as int) =~= pairs_view(entries@));
                }
                return Err(err);
            },
        }
        i = i + 1;
    }
    proof {
        assert(pairs_view(entries@).take(entries.len() as int) =~= pairs_view(entries@));
    }
    Ok(out)
}

proof fn lemma_batch_error_persists(s: Seq<(Seq<char>, Seq<char>)>, i: int)
    requires
        0 <= i <= s.len(),
        batch_of_json(s.take(i)) is Err,
    ensures
        batch_of_json(s) == batch_of_json(s.take(i)),
    decreases s.len() - i,
{
    if i < s.len() {
        assert(s.take(i + 1).drop_last() =~= s.take(i));
        lemma_batch_error_persists(s, i + 1);
    } else {
        assert(s.take(i) =~= s);
    }
}

} // verus!
