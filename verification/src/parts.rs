//! The part list of a multipart upload completion.

use crate::error::{is_invalid_config, Error};
use crate::validate::{
    completed_part_etag_error, upload_part_number_error, validate_completed_part_etag,
    validate_upload_part_number,
};
use vstd::prelude::*;

verus! {

/// One uploaded part, as named in a completion request.
#[derive(Clone, Debug)]
pub struct CompletedPart {
    pub part_number: u32,
    pub etag: String,
}

/// Why a single part is refused, if it is: its number first, then its ETag.
pub open spec fn completed_part_error(part: CompletedPart) -> Option<Seq<char>> {
    match upload_part_number_error(part.part_number) {
        Some(m) => Some(m),
        None => completed_part_etag_error(part.etag@),
    }
}

/// `i` is the first refused part of `parts`.
pub open spec fn is_first_refused(parts: Seq<CompletedPart>, i: int) -> bool {
    &&& 0 <= i < parts.len()
    &&& completed_part_error(parts[i]) is Some
    &&& forall|k: int| 0 <= k < i ==> completed_part_error(#[trigger] parts[k]) is None
}

/// Two parts of `parts` carry the same number.
pub open spec fn has_repeated_part_number(parts: Seq<CompletedPart>) -> bool {
    exists|i: int, j: int|
        0 <= i < j < parts.len() && #[trigger] parts[i].part_number == #[trigger] parts[j].part_number
}

/// Part numbers strictly rise along `parts`.
pub open spec fn strictly_ascending(parts: Seq<CompletedPart>) -> bool {
    forall|i: int, j: int|
        0 <= i < j < parts.len() ==> #[trigger] parts[i].part_number < #[trigger] parts[j].part_number
}

/// `arranged` holds the parts of `parts`, each once, in ascending order of
/// part number. For parts of distinct numbers there is one such arrangement.
pub open spec fn is_sorted_arrangement(parts: Seq<CompletedPart>, arranged: Seq<CompletedPart>) -> bool {
    &&& arranged.len() == parts.len()
    &&& strictly_ascending(arranged)
    &&& forall|k: int| 0 <= k < parts.len() ==> arranged.contains(#[trigger] parts[k])
    &&& forall|j: int| 0 <= j < arranged.len() ==> parts.contains(#[trigger] arranged[j])
}

pub open spec fn no_parts_message() -> Seq<char> {
    "complete_multipart_upload requires at least one completed part"@
}

pub open spec fn repeated_parts_message() -> Seq<char> {
    "completed part numbers must be unique"@
}

/// Why a part list is refused, if it is: it must not be empty, every part
/// must be valid (the first invalid part is reported), and no two parts may
/// share a number.
pub open spec fn completed_parts_error(parts: Seq<CompletedPart>) -> Option<Seq<char>> {
    if parts.len() == 0 {
        Some(no_parts_message())
    } else if exists|i: int| is_first_refused(parts, i) {
        completed_part_error(parts[choose|i: int| is_first_refused(parts, i)])
    } else if has_repeated_part_number(parts) {
        Some(repeated_parts_message())
    } else {
        None
    }
}

/// Checks a completion request's parts and puts them in ascending order of
/// part number.
pub fn prepare_completed_parts(parts: Vec<CompletedPart>) -> (r: Result<Vec<CompletedPart>, Error>)
    ensures
        match completed_parts_error(parts@) {
            None => r matches Ok(arranged) && is_sorted_arrangement(parts@, arranged@),
            Some(m) => r matches Err(e) && is_invalid_config(e, m),
        },
{
    if parts.len() == 0 {
        return Err(
            Error::invalid_config("complete_multipart_upload requires at least one completed part"),
        );
    }
    let mut i: usize = 0;
    while i < parts.len()
        invariant
            i <= parts@.len(),
            parts@.len() > 0,
            forall|k: int| 0 <= k < i ==> completed_part_error(#[trigger] parts@[k]) is None,
        decreases parts@.len() - i,
    {
        let number_check = validate_upload_part_number(parts[i].part_number);
        if let Err(e) = number_check {
            proof {
                assert(is_first_refused(parts@, i as int));
                lemma_first_refused_unique(parts@, i as int);
            }
            return Err(e);
        }
        let etag_check = validate_completed_part_etag(parts[i].etag.as_str());
        if let Err(e) = etag_check {
            proof {
                assert(is_first_refused(parts@, i as int));
                lemma_first_refused_unique(parts@, i as int);
            }
            return Err(e);
        }
        i = i + 1;
    }
    assert(!exists|i: int| is_first_refused(parts@, i));
    arrange_by_part_number(parts)
}

proof fn lemma_first_refused_unique(parts: Seq<CompletedPart>, i: int)
    requires
        is_first_refused(parts, i),
    ensures
        (choose|j: int| is_first_refused(parts, j)) == i,
{
    let j = choose|j: int| is_first_refused(parts, j);
    assert(is_first_refused(parts, j));
    if j < i {
        assert(completed_part_error(parts[j]) is None);
    } else if i < j {
        assert(completed_part_error(parts[i]) is None);
    }
}

/// Sorts valid parts by number, refusing a list in which a number repeats.
fn arrange_by_part_number(parts: Vec<CompletedPart>) -> (r: Result<Vec<CompletedPart>, Error>)
    ensures
        has_repeated_part_number(parts@) ==> (r matches Err(e) && is_invalid_config(
            e,
            repeated_parts_message(),
        )),
        !has_repeated_part_number(parts@) ==> (r matches Ok(arranged) && is_sorted_arrangement(
            parts@,
            arranged@,
        )),
{
    let ghost orig = parts@;
    let mut rest = parts;
    let mut sorted: Vec<CompletedPart> = Vec::new();
    while rest.len() > 0
        invariant
            orig == parts@,
            rest@.len() <= orig.len(),
            rest@ == orig.take(rest@.len() as int),
            sorted@.len() + rest@.len() == orig.len(),
            strictly_ascending(sorted@),
            forall|k: int| rest@.len() <= k < orig.len() ==> sorted@.contains(#[trigger] orig[k]),
            forall|j: int|
                0 <= j < sorted@.len() ==> exists|k: int|
                    rest@.len() <= k < orig.len() && #[trigger] sorted@[j] == orig[k],
            forall|a: int, b: int|
                rest@.len() <= a < b < orig.len() ==> #[trigger] orig[a].part_number
                    != #[trigger] orig[b].part_number,
        decreases rest@.len(),
    {
        let ghost m = rest@.len() as int;
        let p = rest.pop().unwrap();
        assert(p == orig[m - 1]);
        assert(rest@ == orig.take(m - 1));
        let mut pos: usize = 0;
        while pos < sorted.len() && sorted[pos].part_number < p.part_number
            invariant
                pos <= sorted@.len(),
                forall|j: int| 0 <= j < pos ==> #[trigger] sorted@[j].part_number < p.part_number,
            decreases sorted@.len() - pos,
        {
            pos = pos + 1;
        }
        if pos < sorted.len() && sorted[pos].part_number == p.part_number {
            proof {
                let k = choose|k: int| m <= k < orig.len() && sorted@[pos as int] == orig[k];
                assert(orig[m - 1].part_number == orig[k].part_number);
                assert(has_repeated_part_number(orig));
            }
            return Err(Error::invalid_config("completed part numbers must be unique"));
        }
        proof {
            assert forall|j: int| pos <= j < sorted@.len() implies p.part_number
                < #[trigger] sorted@[j].part_number by {
                if j > pos {
                    assert(sorted@[pos as int].part_number < sorted@[j].part_number);
                }
            }
            assert forall|k: int| m <= k < orig.len() implies orig[m - 1].part_number
                != #[trigger] orig[k].part_number by {
                assert(sorted@.contains(orig[k]));
                let j = choose|j: int| 0 <= j < sorted@.len() && sorted@[j] == orig[k];
                if j < pos {
                    assert(sorted@[j].part_number < p.part_number);
                } else {
                    assert(p.part_number < sorted@[j].part_number);
                }
            }
        }
        let ghost before = sorted@;
        sorted.insert(pos, p);
        proof {
            let after = sorted@;
            assert(after == before.insert(pos as int, p));
            assert forall|a: int, b: int| 0 <= a < b < after.len() implies #[trigger] after[a].part_number
                < #[trigger] after[b].part_number by {
                if a < pos && b < pos {
                    assert(after[a] == before[a] && after[b] == before[b]);
                } else if a < pos && b == pos {
                    assert(after[a] == before[a]);
                } else if a < pos && b > pos {
                    assert(after[a] == before[a] && after[b] == before[b - 1]);
                } else if a == pos {
                    assert(after[b] == before[b - 1]);
                } else {
                    assert(after[a] == before[a - 1] && after[b] == before[b - 1]);
                }
            }
            assert forall|k: int| m - 1 <= k < orig.len() implies after.contains(#[trigger] orig[k]) by {
                if k == m - 1 {
                    assert(after[pos as int] == orig[k]);
                } else {
                    assert(before.contains(orig[k]));
                    let j = choose|j: int| 0 <= j < before.len() && before[j] == orig[k];
                    if j < pos {
                        assert(after[j] == orig[k]);
                    } else {
                        assert(after[j + 1] == orig[k]);
                    }
                }
            }
            assert forall|j: int| 0 <= j < after.len() implies exists|k: int|
                m - 1 <= k < orig.len() && #[trigger] after[j] == orig[k] by {
                if j < pos {
                    assert(after[j] == before[j]);
                    let k = choose|k: int| m <= k < orig.len() && before[j] == orig[k];
                    assert(after[j] == orig[k]);
                } else if j == pos {
                    assert(after[j] == orig[m - 1]);
                } else {
                    assert(after[j] == before[j - 1]);
                    let k = choose|k: int| m <= k < orig.len() && before[j - 1] == orig[k];
                    assert(after[j] == orig[k]);
                }
            }
        }
    }
    proof {
        assert forall|j: int| 0 <= j < sorted@.len() implies orig.contains(#[trigger] sorted@[j]) by {
            let k = choose|k: int| 0 <= k < orig.len() && sorted@[j] == orig[k];
        }
        assert(!has_repeated_part_number(orig)) by {
            if has_repeated_part_number(orig) {
                let (a, b) = choose|a: int, b: int|
                    0 <= a < b < orig.len() && #[trigger] orig[a].part_number
                        == #[trigger] orig[b].part_number;
                assert(orig[a].part_number != orig[b].part_number);
            }
        }
    }
    Ok(sorted)
}

} // verus!
