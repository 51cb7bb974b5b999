//! Which lens corrections apply to a RAW file.
//!
//! Most RAW formats don't carry lens-correction data, so it comes out of LensFun's community
//! database, by the camera's and the lens's names. Three passes are possible, in this order:
//! vignetting (brightness), distortion (geometry), and chromatic aberration (per-channel
//! registration). Any of them may be missing for a lens.

use super::raster::{holds_image, is_image};
use lensfun::{Camera, Database, Lens};
use vstd::prelude::*;

verus! {

/// LensFun's database.
#[verifier::external_type_specification]
#[verifier::external_body]
pub struct ExDatabase(lensfun::Database);

/// A camera in LensFun's database.
#[verifier::external_type_specification]
#[verifier::external_body]
pub struct ExCamera(lensfun::Camera);

/// A lens in LensFun's database.
#[verifier::external_type_specification]
#[verifier::external_body]
pub struct ExLens(lensfun::Lens);

/// Why LensFun's database couldn't be loaded.
#[verifier::external_type_specification]
#[verifier::external_body]
pub struct ExError(lensfun::Error);

/// The maker, the model and the mount of each camera in a database.
pub uninterp spec fn cameras_in(db: Database) -> Seq<(Seq<char>, Seq<char>, Seq<char>)>;

/// The model and the mounts of each lens in a database.
pub uninterp spec fn lenses_in(db: Database) -> Seq<(Seq<char>, Seq<Seq<char>>)>;

/// A camera's maker, model and mount.
pub uninterp spec fn camera_entry(camera: Camera) -> (Seq<char>, Seq<char>, Seq<char>);

/// A lens's model and mounts.
pub uninterp spec fn lens_entry(lens: Lens) -> (Seq<char>, Seq<Seq<char>>);

/// Whether a camera says who made it, what it is and which lenses fit.
pub open spec fn is_camera(entry: (Seq<char>, Seq<char>, Seq<char>)) -> bool {
    entry.0.len() > 0 && entry.1.len() > 0 && entry.2.len() > 0
}

/// Whether a lens says what it is and which cameras it fits.
pub open spec fn is_lens(entry: (Seq<char>, Seq<Seq<char>>)) -> bool {
    &&& entry.0.len() > 0
    &&& entry.1.len() > 0
    &&& forall|i: int| 0 <= i < entry.1.len() ==> (#[trigger] entry.1[i]).len() > 0
}

/// Whether every camera and every lens of a database is complete.
pub open spec fn is_complete(db: Database) -> bool {
    &&& forall|i: int| 0 <= i < cameras_in(db).len() ==> is_camera(#[trigger] cameras_in(db)[i])
    &&& forall|i: int| 0 <= i < lenses_in(db).len() ==> is_lens(#[trigger] lenses_in(db)[i])
}

/// What `Database::find_cameras` finds for a maker and a model, best match first.
pub uninterp spec fn cameras_found(db: Database, maker: Seq<char>, model: Seq<char>) -> Seq<Camera>;

/// What `Database::find_lenses` finds for a camera and a lens's name, best match first.
pub uninterp spec fn lenses_found(db: Database, camera: Camera, model: Seq<char>) -> Seq<Lens>;

/// `Database::load_bundled`, which decompresses and parses the database that's compiled into the
/// crate. It refuses a camera without a maker, a model or a mount and a lens without a model or a
/// mount, and drops blank texts, so a database that it answers with is complete. That it answers
/// with one depends on the compiled-in data alone, which load. Which cameras and lenses there are
/// is left unsaid.
#[verifier::external_body]
fn load_bundled() -> (db: Result<Database, lensfun::Error>)
    ensures
        db is Ok,
        is_complete(db->Ok_0),
{
    lensfun::Database::load_bundled()
}

/// `Database::find_cameras`: a fuzzy match by maker and model. Its result is a function of the
/// database and the two texts, and holds cameras of the database only; how the match is scored is
/// left to the name.
#[verifier::external_body]
fn find_cameras<'a>(db: &'a Database, maker: &str, model: &str) -> (found: Vec<&'a Camera>)
    ensures
        found@.map_values(|camera: &Camera| *camera) == cameras_found(*db, maker@, model@),
        forall|i: int|
            0 <= i < found@.len() ==> cameras_in(*db).contains(
                camera_entry(*(#[trigger] found@[i])),
            ),
{
    db.find_cameras(Some(maker), model)
}

/// `Database::find_lenses`: a fuzzy match by name among the lenses that fit a camera. Its result
/// is a function of the database, the camera and the text, and holds lenses of the database only;
/// how the match is scored is left to the name.
#[verifier::external_body]
fn find_lenses<'a>(db: &'a Database, camera: &Camera, model: &str) -> (found: Vec<&'a Lens>)
    ensures
        found@.map_values(|lens: &Lens| *lens) == lenses_found(*db, *camera, model@),
        forall|i: int|
            0 <= i < found@.len() ==> lenses_in(*db).contains(lens_entry(*(#[trigger] found@[i]))),
{
    db.find_lenses(Some(camera), model)
}

/// The database that a load came to, `None` where it failed.
pub fn loaded_database(loaded: Result<Database, lensfun::Error>) -> (db: Option<Database>)
    ensures
        db == match loaded {
            Ok(db) => Some(db),
            Err(_) => None,
        },
{
    match loaded {
        Ok(db) => Some(db),
        Err(_) => None,
    }
}

/// The database that comes with LensFun. Every camera in it has a maker, a model and a mount, and
/// every lens a model and mounts. Load it once: it takes a few hundred milliseconds.
pub fn lensfun_db() -> (db: Option<Database>)
    ensures
        db is Some,
        is_complete(db->0),
{
    loaded_database(load_bundled())
}

/// What the database knows of a camera and a lens.
pub enum LensMatch<'a> {
    /// The camera isn't in it.
    UnknownCamera,
    /// The camera is, and the lens isn't.
    UnknownLens,
    /// Both are.
    Found { camera: &'a Camera, lens: &'a Lens },
}

/// Looks a camera and its lens up. The best match counts, for either.
pub fn match_lens<'a>(db: &'a Database, maker: &str, model: &str, lens_model: &str) -> (found:
    LensMatch<'a>)
    ensures
        match found {
            LensMatch::UnknownCamera => cameras_found(*db, maker@, model@).len() == 0,
            LensMatch::UnknownLens => {
                &&& cameras_found(*db, maker@, model@).len() > 0
                &&& lenses_found(*db, cameras_found(*db, maker@, model@)[0], lens_model@).len() == 0
            },
            LensMatch::Found { camera, lens } => {
                &&& cameras_found(*db, maker@, model@).len() > 0
                &&& *camera == cameras_found(*db, maker@, model@)[0]
                &&& lenses_found(*db, *camera, lens_model@).len() > 0
                &&& *lens == lenses_found(*db, *camera, lens_model@)[0]
                &&& cameras_in(*db).contains(camera_entry(*camera))
                &&& lenses_in(*db).contains(lens_entry(*lens))
            },
        },
{
    let cameras: Vec<&'a Camera> = find_cameras(db, maker, model);
    let ghost all = cameras@.map_values(|camera: &Camera| *camera);
    assert(all.len() == cameras@.len());
    if cameras.len() == 0 {
        return LensMatch::UnknownCamera;
    }
    let camera: &'a Camera = cameras[0];
    assert(all[0] == *camera);
    let lenses: Vec<&'a Lens> = find_lenses(db, camera, lens_model);
    let ghost fitting = lenses@.map_values(|lens: &Lens| *lens);
    assert(fitting.len() == lenses@.len());
    if lenses.len() == 0 {
        return LensMatch::UnknownLens;
    }
    assert(fitting[0] == *lenses[0]);
    LensMatch::Found { camera, lens: lenses[0] }
}

/// Why a file isn't corrected before the database is asked.
#[derive(Debug, Clone, Copy, PartialEq, Eq, Structural)]
pub enum Skip {
    /// The buffer doesn't hold an image of that size.
    BufferMismatch,
    /// The lens's name, the focal length or the aperture is missing.
    MissingMetadata,
}

/// Whether a file can be corrected at all: its buffer holds three channels of that size, its lens
/// has a name, and its focal length and its aperture are above zero.
pub fn precheck(
    len: usize,
    width: u32,
    height: u32,
    lens_model: &str,
    has_focal: bool,
    has_aperture: bool,
) -> (skip: Option<Skip>)
    ensures
        skip == if !is_image(len as int, width as int, height as int, 3) {
            Some(Skip::BufferMismatch)
        } else if lens_model@.len() == 0 || !has_focal || !has_aperture {
            Some(Skip::MissingMetadata)
        } else {
            None
        },
{
    if !holds_image(len, width, height, 3) {
        return Some(Skip::BufferMismatch);
    }
    if crate::text::chars_of(lens_model).len() == 0 || !has_focal || !has_aperture {
        return Some(Skip::MissingMetadata);
    }
    None
}

/// One correction.
#[derive(Debug, Clone, Copy, PartialEq, Eq, Structural)]
pub enum Pass {
    Vignetting,
    Distortion,
    ChromaticAberration,
}

/// The passes that a lens is calibrated for, in the order they run.
pub open spec fn passes(distortion: bool, tca: bool, vignetting: bool) -> Seq<Pass> {
    let first = if vignetting {
        seq![Pass::Vignetting]
    } else {
        Seq::empty()
    };
    let second = if distortion {
        first.push(Pass::Distortion)
    } else {
        first
    };
    if tca {
        second.push(Pass::ChromaticAberration)
    } else {
        second
    }
}

/// The passes to run, in order: brightness before geometry, and geometry before the fine
/// registration of the channels. None where the lens has no usable calibrations.
pub fn plan_passes(distortion: bool, tca: bool, vignetting: bool) -> (plan: Vec<Pass>)
    ensures
        plan@ == passes(distortion, tca, vignetting),
        plan@.len() == 0 <==> !distortion && !tca && !vignetting,
{
    let mut plan: Vec<Pass> = Vec::new();
    if vignetting {
        plan.push(Pass::Vignetting);
    }
    if distortion {
        plan.push(Pass::Distortion);
    }
    if tca {
        plan.push(Pass::ChromaticAberration);
    }
    assert(plan@ =~= passes(distortion, tca, vignetting));
    plan
}

// ----- laws -----

/// A load that came to a database hands out that one, and one that failed none.
pub proof fn a_failed_load_is_no_database(
    loaded: Result<Database, lensfun::Error>,
    db: Option<Database>,
)
    requires
        call_ensures(loaded_database, (loaded,), db),
    ensures
        db is Some <==> loaded is Ok,
        db is Some ==> db->0 == loaded->Ok_0,
{
}

/// A lens is found exactly where its camera is found and the best match for that camera has a
/// lens of that name; what's found is the best match of either.
pub proof fn the_best_matches_are_found(
    db: &Database,
    maker: &str,
    model: &str,
    lens_model: &str,
    found: LensMatch<'_>,
)
    requires
        call_ensures(match_lens, (db, maker, model, lens_model), found),
    ensures
        found is UnknownCamera <==> cameras_found(*db, maker@, model@).len() == 0,
        found is Found <==> cameras_found(*db, maker@, model@).len() > 0 && lenses_found(
            *db,
            cameras_found(*db, maker@, model@)[0],
            lens_model@,
        ).len() > 0,
        found matches LensMatch::Found { camera, lens } ==> *camera == cameras_found(
            *db,
            maker@,
            model@,
        )[0] && *lens == lenses_found(*db, *camera, lens_model@)[0],
{
}

/// A file can be corrected exactly where its buffer holds three numbers a pixel and it names its
/// lens, its focal length and its aperture; a wrong buffer is what's told first.
pub proof fn what_is_missing_is_told(
    len: usize,
    width: u32,
    height: u32,
    lens_model: &str,
    has_focal: bool,
    has_aperture: bool,
    skip: Option<Skip>,
)
    requires
        call_ensures(precheck, (len, width, height, lens_model, has_focal, has_aperture), skip),
    ensures
        skip == Some(Skip::BufferMismatch) <==> len != 3 * (width * height),
        skip is None <==> len == 3 * (width * height) && lens_model@.len() > 0 && has_focal
            && has_aperture,
{
}

/// Each pass is planned once, exactly where the lens is calibrated for it: vignetting before
/// distortion, and both before chromatic aberration.
pub proof fn passes_run_in_their_order(
    distortion: bool,
    tca: bool,
    vignetting: bool,
    plan: Vec<Pass>,
    i: int,
    j: int,
)
    requires
        call_ensures(plan_passes, (distortion, tca, vignetting), plan),
    ensures
        plan@.contains(Pass::Vignetting) <==> vignetting,
        plan@.contains(Pass::Distortion) <==> distortion,
        plan@.contains(Pass::ChromaticAberration) <==> tca,
        0 <= i < j < plan@.len() ==> plan@[i] != plan@[j],
        0 <= i < j < plan@.len() ==> plan@[j] != Pass::Vignetting,
        0 <= i < j < plan@.len() ==> plan@[i] != Pass::ChromaticAberration,
{
    if vignetting {
        assert(plan@[0] == Pass::Vignetting);
    }
    if distortion {
        assert(plan@[if vignetting {
            1int
        } else {
            0
        }] == Pass::Distortion);
    }
    if tca {
        assert(plan@[plan@.len() - 1] == Pass::ChromaticAberration);
    }
}

} // verus!
