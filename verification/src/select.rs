//! Participant selection: maps the recording's display names to the
//! port of the first participant whose name starts with the identity
//! filter's bytes.

use crate::PipelineError;
use vstd::prelude::*;

verus! {

/// The rows of a name table, each fixed-size byte buffer as a sequence.
pub open spec fn byte_rows(names: Seq<Vec<u8>>) -> Seq<Seq<u8>> {
    names.map_values(|v: Vec<u8>| v@)
}

/// Whether a display name matches the identity filter: the filter's
/// bytes are a prefix of the name's bytes.
pub open spec fn name_matches(name: Seq<u8>, prefix: Seq<u8>) -> bool {
    prefix.is_prefix_of(name)
}

/// The smallest index at or after `from` whose name matches the filter,
/// or `None` when no name from there on matches. With `from == 0` this
/// is the selected port: ties go to the lowest port.
pub open spec fn first_match_from(names: Seq<Seq<u8>>, prefix: Seq<u8>, from: int) -> Option<int>
    decreases names.len() - from,
{
    if from < 0 || from >= names.len() {
        None
    } else if name_matches(names[from], prefix) {
        Some(from)
    } else {
        first_match_from(names, prefix, from + 1)
    }
}

/// The selected port for a name table: the first matching index.
pub open spec fn selected_port(names: Seq<Seq<u8>>, prefix: Seq<u8>) -> Option<int> {
    first_match_from(names, prefix, 0)
}

/// Where a first match exists it is a real port, its name matches, and
/// no earlier port from `from` on matches: first match wins; ties are
/// not an error.
pub proof fn lemma_first_match_from_range(names: Seq<Seq<u8>>, prefix: Seq<u8>, from: int)
    ensures
        first_match_from(names, prefix, from) matches Some(p) ==> from <= p < names.len()
            && name_matches(names[p], prefix) && (forall|j: int|
            from <= j < p ==> !name_matches(#[trigger] names[j], prefix)),
    decreases names.len() - from,
{
    if from >= 0 && from < names.len() && !name_matches(names[from], prefix) {
        lemma_first_match_from_range(names, prefix, from + 1);
    }
}

/// Whether `name` starts with the bytes of `prefix`.
fn starts_with_bytes(name: &Vec<u8>, prefix: &Vec<u8>) -> (r: bool)
    ensures
        r == name_matches(name@, prefix@),
{
    let plen: usize = prefix.len();
    if plen > name.len() {
        proof {
            assert(!prefix@.is_prefix_of(name@));
        }
        return false;
    }
    let mut i: usize = 0;
    while i < plen
        invariant
            i <= plen,
            plen == prefix@.len(),
            plen <= name@.len(),
            forall|j: int| 0 <= j < i ==> name@[j] == prefix@[j],
        decreases plen - i,
    {
        if name[i] != prefix[i] {
            proof {
                assert(name@.subrange(0, plen as int)[i as int] != prefix@[i as int]);
            }
            return false;
        }
        i = i + 1;
    }
    proof {
        assert(prefix@ =~= name@.subrange(0, plen as int));
    }
    true
}

/// Finds the participant selected by the identity filter: the lowest
/// port whose display name starts with the filter's bytes. Returns
/// `ParticipantNotFound` exactly when no name matches.
pub fn find_participant(names: &Vec<Vec<u8>>, prefix: &Vec<u8>) -> (r: Result<
    usize,
    PipelineError,
>)
    ensures
        match r {
            Ok(p) => selected_port(byte_rows(names@), prefix@) == Some(p as int),
            Err(e) => {
                &&& e == PipelineError::ParticipantNotFound
                &&& selected_port(byte_rows(names@), prefix@) is None
            },
        },
{
    let n: usize = names.len();
    let mut p: usize = 0;
    while p < n
        invariant
            p <= n,
            n == names@.len(),
            selected_port(byte_rows(names@), prefix@) == first_match_from(
                byte_rows(names@),
                prefix@,
                p as int,
            ),
        decreases n - p,
    {
        if starts_with_bytes(&names[p], prefix) {
            proof {
                assert(byte_rows(names@)[p as int] == names@[p as int]@);
            }
            return Ok(p);
        }
        proof {
            assert(byte_rows(names@)[p as int] == names@[p as int]@);
        }
        p = p + 1;
    }
    Err(PipelineError::ParticipantNotFound)
}

} // verus!
