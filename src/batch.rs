use vstd::prelude::*;
use vstd::slice::slice_to_vec;
use crate::error::AkaibuError;
use crate::magic;
use crate::magic::archive_of;
use crate::resource::{ResourceMagic, resource_magic_of};

verus! {

/// How an input file is to be handled, decided from its first bytes.
#[derive(Debug, Clone, Copy, PartialEq, Eq, Structural)]
pub enum InputPlan {
    /// A container of the given family.
    Container(magic::Archive),
    /// A single resource of the given format, to be converted.
    Resource(ResourceMagic),
}

/// Decides from the first bytes of a file whether it is opened as a
/// container or, where conversion is asked for, decoded as a resource; with
/// neither, the answer is `UnrecognizedFormat` holding those bytes.
pub fn plan_input(header: &[u8], convert: bool) -> (r: Result<InputPlan, AkaibuError>)
    ensures
        archive_of(header@) != magic::Archive::NotRecognized ==> r == Ok::<InputPlan, AkaibuError>(
            InputPlan::Container(archive_of(header@)),
        ),
        archive_of(header@) == magic::Archive::NotRecognized && convert && resource_magic_of(
            header@,
        ) != ResourceMagic::Unrecognized ==> r == Ok::<InputPlan, AkaibuError>(
            InputPlan::Resource(resource_magic_of(header@)),
        ),
        archive_of(header@) == magic::Archive::NotRecognized && (!convert || resource_magic_of(
            header@,
        ) == ResourceMagic::Unrecognized) ==> r is Err && r->Err_0 is UnrecognizedFormat && r->Err_0->UnrecognizedFormat_0@ == header@,
{
    let family = magic::Archive::parse(header);
    if family != magic::Archive::NotRecognized {
        return Ok(InputPlan::Container(family));
    }
    if convert {
        let m = ResourceMagic::parse_magic(header);
        if m != ResourceMagic::Unrecognized {
            return Ok(InputPlan::Resource(m));
        }
    }
    Err(AkaibuError::UnrecognizedFormat(slice_to_vec(header)))
}

/// No outcome before `k` is a failure.
pub open spec fn ok_before<E>(outcomes: Seq<Result<(), E>>, k: int) -> bool {
    forall|j: int| 0 <= j < k ==> #[trigger] outcomes[j] is Ok
}

/// The overall result of a batch whose entries gave `outcomes`, in the order
/// of the archive's entry list: the number of entries where all succeeded,
/// else the lowest failed position with its error.
pub fn first_failure<E>(outcomes: Vec<Result<(), E>>) -> (r: Result<usize, (usize, E)>)
    ensures
        ok_before(outcomes@, outcomes@.len() as int) ==> r == Ok::<usize, (usize, E)>(
            outcomes@.len() as usize,
        ),
        !ok_before(outcomes@, outcomes@.len() as int) ==> r is Err && ({
            let (k, e) = r->Err_0;
            &&& k < outcomes@.len()
            &&& ok_before(outcomes@, k as int)
            &&& outcomes@[k as int] == Err::<(), E>(e)
        }),
{
    let mut rest = outcomes;
    let ghost all = rest@;
    let mut i: usize = 0;
    while i < rest.len()
        invariant
            rest@ == all,
            all == outcomes@,
            i <= all.len(),
            ok_before(all, i as int),
        decreases all.len() - i,
    {
        let failed_here = match &rest[i] {
            Ok(_) => false,
            Err(_) => true,
        };
        if failed_here {
            assert(all[i as int] is Err);
            let failed = rest.remove(i);
            assert(failed == all[i as int]);
            return match failed {
                Err(e) => Err((i, e)),
                Ok(()) => Ok(0),
            };
        }
        i = i + 1;
    }
    Ok(rest.len())
}

} // verus!
