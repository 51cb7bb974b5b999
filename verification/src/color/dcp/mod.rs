//! Digital Camera Profiles: reading them, finding one for a camera, and choosing what to apply.

use self::bundled::{bundled_profile, find_in_bundle};
use self::discovery::{dcp_view, file_views, find_dcp_for_camera, first_match, normalized};
use self::family_aliases::{alias_table, aliases_for, names_of, stand_ins};
use self::parser::{Dcp, DcpView};
use vstd::prelude::*;

pub mod apply;
pub mod bundled;
pub mod discovery;
pub mod embedded;
pub mod family_aliases;
pub mod illuminant;
pub mod parser;

verus! {

/// The bundled profile of the first of these cameras that has one.
pub open spec fn first_bundled(cameras: Seq<Seq<char>>, index: Seq<u8>, blob: Seq<u8>) -> Option<
    DcpView,
>
    decreases cameras.len(),
{
    if cameras.len() == 0 {
        None
    } else {
        match first_bundled(cameras.drop_last(), index, blob) {
            Some(dcp) => Some(dcp),
            None => bundled_profile(cameras.last(), index, blob),
        }
    }
}

/// The profile for a camera among files that were found on disk.
pub open spec fn installed_profile(camera: Seq<char>, files: Seq<Seq<u8>>) -> Option<DcpView> {
    if normalized(camera).len() == 0 {
        None
    } else {
        first_match(files, normalized(camera))
    }
}

/// The profile for a camera: one of its own from the disk, else one of its own from the bundle,
/// else a bundled one of a camera that stands in for it.
pub open spec fn profile_for(
    camera: Seq<char>,
    files: Seq<Seq<u8>>,
    index: Seq<u8>,
    blob: Seq<u8>,
) -> Option<DcpView> {
    match installed_profile(camera, files) {
        Some(dcp) => Some(dcp),
        None => match bundled_profile(camera, index, blob) {
            Some(dcp) => Some(dcp),
            None => first_bundled(stand_ins(alias_table(), normalized(camera)), index, blob),
        },
    }
}

proof fn lemma_first_bundled(cameras: Seq<Seq<char>>, index: Seq<u8>, blob: Seq<u8>, i: int)
    requires
        0 <= i < cameras.len(),
        first_bundled(cameras.take(i), index, blob) is None,
        bundled_profile(cameras[i], index, blob) is Some,
    ensures
        first_bundled(cameras, index, blob) == bundled_profile(cameras[i], index, blob),
    decreases cameras.len(),
{
    let front = cameras.drop_last();
    if i == cameras.len() - 1 {
        assert(cameras.take(i) =~= front);
    } else {
        assert(front.take(i) =~= cameras.take(i));
        lemma_first_bundled(front, index, blob, i);
    }
}

/// Finds the profile for a camera. `files` are the profiles on disk, in the order to search, and
/// `index` and `blob` are the bundle's.
pub fn find_profile(camera_id: &str, files: &Vec<Vec<u8>>, index: &[u8], blob: &[u8]) -> (found:
    Option<Dcp>)
    ensures
        dcp_view(found) == profile_for(camera_id@, file_views(files@), index@, blob@),
{
    if let Some(dcp) = find_dcp_for_camera(camera_id, files) {
        return Some(dcp);
    }
    if let Some(dcp) = find_in_bundle(camera_id, index, blob) {
        return Some(dcp);
    }
    let aliases: Vec<&'static str> = aliases_for(camera_id);
    let ghost cameras = names_of(aliases@);
    assert(first_bundled(cameras.take(0), index@, blob@) is None);
    for i in 0..aliases.len()
        invariant
            cameras == names_of(aliases@),
            cameras == stand_ins(alias_table(), normalized(camera_id@)),
            installed_profile(camera_id@, file_views(files@)) is None,
            bundled_profile(camera_id@, index@, blob@) is None,
            first_bundled(cameras.take(i as int), index@, blob@) is None,
    {
        assert(cameras.take(i + 1).drop_last() =~= cameras.take(i as int));
        assert(cameras.take(i + 1).last() == aliases[i as int]@);
        if let Some(dcp) = find_in_bundle(aliases[i], index, blob) {
            proof {
                lemma_first_bundled(cameras, index@, blob@, i as int);
            }
            return Some(dcp);
        }
    }
    assert(cameras.take(aliases.len() as int) =~= cameras);
    None
}

/// Finds a profile that has a map to apply.
pub fn find_applicable(camera_id: &str, files: &Vec<Vec<u8>>, index: &[u8], blob: &[u8]) -> (found:
    Option<Dcp>)
    ensures
        dcp_view(found) == match profile_for(camera_id@, file_views(files@), index@, blob@) {
            Some(dcp) => if dcp.picked() is Some {
                Some(dcp)
            } else {
                None
            },
            None => None,
        },
{
    match find_profile(camera_id, files, index, blob) {
        Some(dcp) => if dcp.pick_hue_sat_map().is_some() {
            Some(dcp)
        } else {
            None
        },
        None => None,
    }
}

// ----- laws -----

/// A profile on disk goes before everything that ships, and a camera's own bundled profile goes
/// before any stand-in's.
pub proof fn own_profiles_go_first(
    camera: Seq<char>,
    files: Seq<Seq<u8>>,
    index: Seq<u8>,
    blob: Seq<u8>,
)
    ensures
        installed_profile(camera, files) is Some ==> profile_for(camera, files, index, blob)
            == installed_profile(camera, files),
        installed_profile(camera, files) is None && bundled_profile(camera, index, blob) is Some
            ==> profile_for(camera, files, index, blob) == bundled_profile(camera, index, blob),
{
}

/// A camera without a name has no profile.
pub proof fn a_nameless_camera_has_no_profile(
    camera: Seq<char>,
    files: Seq<Seq<u8>>,
    index: Seq<u8>,
    blob: Seq<u8>,
)
    requires
        normalized(camera).len() == 0,
    ensures
        installed_profile(camera, files) is None,
        bundled_profile(camera, index, blob) is None,
{
}

/// A camera's own profile from the disk is used where there is one, else its own from the bundle,
/// else that of the first stand-in that the bundle has one for. One without a map isn't applied.
pub proof fn profiles_are_tried_in_order(
    camera: &str,
    files: &Vec<Vec<u8>>,
    index: &[u8],
    blob: &[u8],
    own: Option<Dcp>,
    shipped: Option<Dcp>,
    aliases: Vec<&'static str>,
    found: Option<Dcp>,
    applicable: Option<Dcp>,
    i: int,
)
    requires
        call_ensures(find_dcp_for_camera, (camera, files), own),
        call_ensures(find_in_bundle, (camera, index, blob), shipped),
        call_ensures(aliases_for, (camera,), aliases),
        call_ensures(find_profile, (camera, files, index, blob), found),
        call_ensures(find_applicable, (camera, files, index, blob), applicable),
    ensures
        own is Some ==> found is Some && found->0@ == own->0@,
        own is None && shipped is Some ==> found is Some && found->0@ == shipped->0@,
        own is None && shipped is None && 0 <= i < aliases@.len() && bundled_profile(
            aliases@[i]@,
            index@,
            blob@,
        ) is Some && (forall|j: int|
            0 <= j < i ==> bundled_profile((#[trigger] aliases@[j])@, index@, blob@) is None)
            ==> found is Some && Some(found->0@) == bundled_profile(aliases@[i]@, index@, blob@),
        own is None && shipped is None && (forall|j: int|
            0 <= j < aliases@.len() ==> bundled_profile((#[trigger] aliases@[j])@, index@, blob@)
                is None) ==> found is None,
        found matches Some(dcp) ==> {
            let maps = dcp.hue_sat_map_1 is Some || dcp.hue_sat_map_2 is Some;
            (maps ==> applicable is Some && applicable->0@ == dcp@) && (!maps ==> applicable is None)
        },
        found is None ==> applicable is None,
{
    let cameras = names_of(aliases@);
    assert forall|j: int| 0 <= j < aliases@.len() implies #[trigger] cameras[j] == aliases@[j]@ by {}
    assert(own is None ==> installed_profile(camera@, file_views(files@)) is None);
    assert(shipped is None ==> bundled_profile(camera@, index@, blob@) is None);
    if 0 <= i < aliases@.len() && bundled_profile(aliases@[i]@, index@, blob@) is Some && (forall|
        j: int,
    |
        0 <= j < i ==> bundled_profile((#[trigger] aliases@[j])@, index@, blob@) is None) {
        let front = cameras.take(i);
        assert forall|j: int| 0 <= j < front.len() implies bundled_profile(
            #[trigger] front[j],
            index@,
            blob@,
        ) is None by {
            assert(front[j] == aliases@[j]@);
        }
        lemma_none_bundled(front, index@, blob@);
        lemma_first_bundled(cameras, index@, blob@, i);
    }
    if forall|j: int|
        0 <= j < aliases@.len() ==> bundled_profile((#[trigger] aliases@[j])@, index@, blob@)
            is None {
        assert forall|j: int| 0 <= j < cameras.len() implies bundled_profile(
            #[trigger] cameras[j],
            index@,
            blob@,
        ) is None by {
            assert(cameras[j] == aliases@[j]@);
        }
        lemma_none_bundled(cameras, index@, blob@);
    }
}

proof fn lemma_none_bundled(cameras: Seq<Seq<char>>, index: Seq<u8>, blob: Seq<u8>)
    requires
        forall|j: int|
            0 <= j < cameras.len() ==> bundled_profile(#[trigger] cameras[j], index, blob) is None,
    ensures
        first_bundled(cameras, index, blob) is None,
    decreases cameras.len(),
{
    if cameras.len() > 0 {
        let front = cameras.drop_last();
        assert forall|j: int| 0 <= j < front.len() implies bundled_profile(
            #[trigger] front[j],
            index,
            blob,
        ) is None by {
            assert(front[j] == cameras[j]);
        }
        lemma_none_bundled(front, index, blob);
        assert(bundled_profile(cameras[cameras.len() - 1], index, blob) is None);
    }
}

} // verus!
