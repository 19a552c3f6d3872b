use vstd::prelude::*;
use crate::object_file::SectionInfo;
use crate::SbpfLinkerError;

verus! {

/// The name that read-only data sections start with: `.rodata`.
pub open spec fn rodata_prefix() -> Seq<u8> {
    seq![46u8, 114u8, 111u8, 100u8, 97u8, 116u8, 97u8]
}

/// The name of the code section: `.text`.
pub open spec fn text_name() -> Seq<u8> {
    seq![46u8, 116u8, 101u8, 120u8, 116u8]
}

pub open spec fn is_rodata_section(s: SectionInfo) -> bool {
    match s.name {
        Some(n) => n@.len() >= rodata_prefix().len() && n@.subrange(0, rodata_prefix().len() as int)
            == rodata_prefix(),
        None => false,
    }
}

pub open spec fn is_text_section(s: SectionInfo) -> bool {
    match s.name {
        Some(n) => n@ == text_name(),
        None => false,
    }
}

fn rodata_prefix_bytes() -> (r: Vec<u8>)
    ensures
        r@ == rodata_prefix(),
{
    let r = vec![46u8, 114u8, 111u8, 100u8, 97u8, 116u8, 97u8];
    assert(r@ =~= rodata_prefix());
    r
}

pub(crate) fn text_name_bytes() -> (r: Vec<u8>)
    ensures
        r@ == text_name(),
{
    let r = vec![46u8, 116u8, 101u8, 120u8, 116u8];
    assert(r@ =~= text_name());
    r
}

/// Whether `name` starts with `prefix`.
pub fn starts_with(name: &Vec<u8>, prefix: &Vec<u8>) -> (r: bool)
    ensures
        r == (name@.len() >= prefix@.len() && name@.subrange(0, prefix@.len() as int) == prefix@),
{
    if name.len() < prefix.len() {
        return false;
    }
    let mut i: usize = 0;
    while i < prefix.len()
        invariant
            i <= prefix@.len() <= name@.len(),
            forall|k: int| 0 <= k < i ==> name@[k] == prefix@[k],
        decreases prefix@.len() - i,
    {
        if name[i] != prefix[i] {
            assert(name@.subrange(0, prefix@.len() as int)[i as int] != prefix@[i as int]);
            return false;
        }
        i = i + 1;
    }
    assert(name@.subrange(0, prefix@.len() as int) =~= prefix@);
    true
}

/// Whether `name` equals `other`.
pub fn bytes_equal(name: &Vec<u8>, other: &Vec<u8>) -> (r: bool)
    ensures
        r == (name@ == other@),
{
    if name.len() != other.len() {
        return false;
    }
    let r = starts_with(name, other);
    proof {
        if r {
            assert(name@ =~= name@.subrange(0, other@.len() as int));
        } else {
            assert(name@.subrange(0, other@.len() as int) =~= name@);
        }
    }
    r
}

/// Finds the read-only data section: the one section whose name starts
/// with `.rodata`, if there is one. Two or more of them are an error.
pub fn locate_rodata(sections: &Vec<SectionInfo>) -> (r: Result<Option<usize>, SbpfLinkerError>)
    ensures
        r is Err <==> exists|p: int, q: int|
            0 <= p < q < sections@.len() && is_rodata_section(sections@[p]) && is_rodata_section(
                sections@[q],
            ),
        r is Err ==> r == Err::<Option<usize>, SbpfLinkerError>(
            SbpfLinkerError::MultipleRodataSections,
        ),
        r == Ok::<Option<usize>, SbpfLinkerError>(None) <==> forall|q: int|
            0 <= q < sections@.len() ==> !is_rodata_section(#[trigger] sections@[q]),
        r matches Ok(Some(p)) ==> p < sections@.len() && is_rodata_section(sections@[p as int])
            && forall|q: int|
            0 <= q < sections@.len() && q != p ==> !is_rodata_section(#[trigger] sections@[q]),
{
    let prefix = rodata_prefix_bytes();
    let mut found: Option<usize> = None;
    let mut i: usize = 0;
    while i < sections.len()
        invariant
            i <= sections@.len(),
            prefix@ == rodata_prefix(),
            found is None ==> forall|q: int| 0 <= q < i ==> !is_rodata_section(#[trigger] sections@[q]),
            found matches Some(p) ==> p < i && is_rodata_section(sections@[p as int]) && forall|q: int|
                0 <= q < i && q != p ==> !is_rodata_section(#[trigger] sections@[q]),
        decreases sections@.len() - i,
    {
        let hit = match &sections[i].name {
            Some(n) => starts_with(n, &prefix),
            None => false,
        };
        if hit {
            if let Some(p) = found {
                assert(is_rodata_section(sections@[p as int]) && is_rodata_section(sections@[i as int]));
                return Err(SbpfLinkerError::MultipleRodataSections);
            }
            found = Some(i);
        }
        i = i + 1;
    }
    Ok(found)
}

} // verus!
