//! Which profile is a camera's.
//!
//! A profile belongs to a camera when its `UniqueCameraModel`, or failing that its
//! `ProfileCalibrationSignature`, names the camera: case and the amount of white space don't
//! count. The application lists the directories and reads the files; which directories, which
//! files and which profile are decided here.

use super::parser::{parse, parsed, Dcp, DcpView, ParseError};
use crate::text::{
    ascii_lower, ascii_lowered, chars_of, is_white, lower, same_chars, string_of, white,
};
use vstd::prelude::*;

verus! {

/// The environment variable that names a directory to search first.
pub const DCP_DIR_ENV_VAR: &'static str = "PRVW_DCP_DIR";

/// A camera name in lower case, with every run of white space inside it or at its end as one
/// space and none at its front.
pub open spec fn collapsed(s: Seq<char>) -> Seq<char>
    decreases s.len(),
{
    if s.len() == 0 {
        s
    } else {
        let before = collapsed(s.drop_last());
        if !is_white(s.last()) {
            before.push(ascii_lower(s.last()))
        } else if before.len() > 0 && before.last() != ' ' {
            before.push(' ')
        } else {
            before
        }
    }
}

/// The form in which camera names are compared: lower case, one space between words, none around
/// them.
pub open spec fn normalized(s: Seq<char>) -> Seq<char> {
    let c = collapsed(s);
    if c.len() > 0 && c.last() == ' ' {
        c.drop_last()
    } else {
        c
    }
}

/// Whether an optional name is the wanted one.
pub open spec fn names(name: Option<Seq<char>>, target: Seq<char>) -> bool {
    name matches Some(name) && normalized(name) == target
}

/// Whether a profile is for the camera whose normalized name is `target`.
pub open spec fn matches_camera(dcp: DcpView, target: Seq<char>) -> bool {
    ||| names(dcp.unique_camera_model, target)
    ||| names(dcp.profile_calibration_signature, target)
}

/// The profile in a file, where it is for the camera.
pub open spec fn match_in(bytes: Seq<u8>, target: Seq<char>) -> Option<DcpView> {
    match parsed(bytes) {
        Ok(dcp) => if matches_camera(dcp, target) {
            Some(dcp)
        } else {
            None
        },
        Err(_) => None,
    }
}

/// The profile in the first of the files that holds one for the camera.
pub open spec fn first_match(files: Seq<Seq<u8>>, target: Seq<char>) -> Option<DcpView>
    decreases files.len(),
{
    if files.len() == 0 {
        None
    } else {
        match first_match(files.drop_last(), target) {
            Some(dcp) => Some(dcp),
            None => match_in(files.last(), target),
        }
    }
}

/// The bytes of each file.
pub open spec fn file_views(files: Seq<Vec<u8>>) -> Seq<Seq<u8>> {
    files.map_values(|f: Vec<u8>| f@)
}

/// The profile of an optional profile.
pub open spec fn dcp_view(dcp: Option<Dcp>) -> Option<DcpView> {
    match dcp {
        Some(dcp) => Some(dcp@),
        None => None,
    }
}

/// Normalizes a camera name.
pub fn normalize(s: &str) -> (out: String)
    ensures
        out@ == normalized(s@),
{
    string_of(normalized_chars(s))
}

/// The characters of a normalized camera name.
fn normalized_chars(s: &str) -> (out: Vec<char>)
    ensures
        out@ == normalized(s@),
{
    let chars: Vec<char> = chars_of(s);
    let mut out: Vec<char> = Vec::new();
    let mut i: usize = 0;
    while i < chars.len()
        invariant
            i <= chars.len(),
            out@ == collapsed(chars@.take(i as int)),
        decreases chars.len() - i,
    {
        assert(chars@.take(i + 1).drop_last() =~= chars@.take(i as int));
        if !white(chars[i]) {
            out.push(lower(chars[i]));
        } else if out.len() > 0 && out[out.len() - 1] != ' ' {
            out.push(' ');
        }
        i = i + 1;
    }
    assert(chars@.take(i as int) =~= chars@);
    if out.len() > 0 && out[out.len() - 1] == ' ' {
        let _ = out.pop();
    }
    out
}

/// Whether a profile is for the camera whose normalized name is `target`.
pub fn dcp_matches(dcp: &Dcp, target: &str) -> (yes: bool)
    ensures
        yes == matches_camera(dcp@, target@),
{
    let target: Vec<char> = chars_of(target);
    if let Some(model) = &dcp.unique_camera_model {
        if same_chars(&normalized_chars(model.as_str()), &target) {
            return true;
        }
    }
    if let Some(signature) = &dcp.profile_calibration_signature {
        if same_chars(&normalized_chars(signature.as_str()), &target) {
            return true;
        }
    }
    false
}

/// The profile in a file, where it is for the camera whose normalized name is `target`.
pub fn load_and_match(bytes: &[u8], target: &str) -> (found: Result<Option<Dcp>, ParseError>)
    ensures
        match found {
            Ok(found) => parsed(bytes@) is Ok && dcp_view(found) == match_in(bytes@, target@),
            Err(e) => parsed(bytes@) == Err::<DcpView, ParseError>(e),
        },
{
    match parse(bytes) {
        Ok(dcp) => {
            if dcp_matches(&dcp, target) {
                Ok(Some(dcp))
            } else {
                Ok(None)
            }
        },
        Err(e) => Err(e),
    }
}

/// The profile for a camera among files, which are looked at in order. A blank camera name
/// matches nothing, and a file that doesn't parse is passed over.
pub fn find_dcp_for_camera(camera_id: &str, files: &Vec<Vec<u8>>) -> (found: Option<Dcp>)
    ensures
        dcp_view(found) == (if normalized(camera_id@).len() == 0 {
            None
        } else {
            first_match(file_views(files@), normalized(camera_id@))
        }),
{
    let target: String = normalize(camera_id);
    if chars_of(target.as_str()).len() == 0 {
        return None;
    }
    let ghost views = file_views(files@);
    let mut i: usize = 0;
    while i < files.len()
        invariant
            i <= files.len(),
            views == file_views(files@),
            target@ == normalized(camera_id@),
            target@.len() > 0,
            first_match(views.take(i as int), target@) is None,
        decreases files.len() - i,
    {
        assert(views.take(i + 1).drop_last() =~= views.take(i as int));
        assert(views.take(i + 1).last() == files[i as int]@);
        if let Ok(Some(dcp)) = load_and_match(files[i].as_slice(), target.as_str()) {
            proof {
                lemma_first_match(views, i as int, target@);
            }
            return Some(dcp);
        }
        i = i + 1;
    }
    assert(views.take(i as int) =~= views);
    None
}

/// A directory to search, as a path and the names of the directories below it that lead there.
#[derive(Debug, Clone, PartialEq, Eq)]
pub struct SearchDir {
    pub base: String,
    pub below: Vec<&'static str>,
}

/// A search directory as mathematics.
pub open spec fn dir_view(dir: SearchDir) -> (Seq<char>, Seq<Seq<char>>) {
    (dir.base@, dir.below@.map_values(|s: &'static str| s@))
}

/// Where Adobe Camera Raw keeps profiles below the home directory.
pub open spec fn adobe_path() -> Seq<Seq<char>> {
    seq![
        "Library"@,
        "Application Support"@,
        "Adobe"@,
        "CameraRaw"@,
        "CameraProfiles"@,
    ]
}

/// The directories to search, in order: the one the user names, then Camera Raw's own and its
/// `Adobe Standard` folder.
pub open spec fn dirs_to_search(env_dir: Option<Seq<char>>, home: Option<Seq<char>>) -> Seq<
    (Seq<char>, Seq<Seq<char>>),
> {
    (if env_dir is Some && env_dir->0.len() > 0 {
        seq![(env_dir->0, Seq::<Seq<char>>::empty())]
    } else {
        Seq::empty()
    }) + (if home is Some {
        seq![(home->0, adobe_path()), (home->0, adobe_path().push("Adobe Standard"@))]
    } else {
        Seq::empty()
    })
}

/// The directories to search, given the environment variable's value and the home directory.
pub fn search_dirs(env_dir: Option<String>, home: Option<String>) -> (dirs: Vec<SearchDir>)
    ensures
        dirs@.map_values(|d: SearchDir| dir_view(d)) == dirs_to_search(
            crate::color::dcp::parser::text_view(env_dir),
            crate::color::dcp::parser::text_view(home),
        ),
{
    let mut dirs: Vec<SearchDir> = Vec::new();
    if let Some(dir) = env_dir {
        if chars_of(dir.as_str()).len() > 0 {
            dirs.push(SearchDir { base: dir, below: Vec::new() });
            assert(dir_view(dirs[0]).1 =~= Seq::empty());
        }
    }
    let ghost first = dirs@;
    if let Some(home) = home {
        let mut adobe: Vec<&'static str> = Vec::new();
        adobe.push("Library");
        adobe.push("Application Support");
        adobe.push("Adobe");
        adobe.push("CameraRaw");
        adobe.push("CameraProfiles");
        let mut standard: Vec<&'static str> = Vec::new();
        standard.push("Library");
        standard.push("Application Support");
        standard.push("Adobe");
        standard.push("CameraRaw");
        standard.push("CameraProfiles");
        standard.push("Adobe Standard");
        let a = SearchDir { base: home.clone(), below: adobe };
        let b = SearchDir { base: home, below: standard };
        assert(dir_view(a).1 =~= adobe_path());
        assert(dir_view(b).1 =~= adobe_path().push("Adobe Standard"@));
        dirs.push(a);
        dirs.push(b);
    }
    assert(dirs@.map_values(|d: SearchDir| dir_view(d)) =~= dirs_to_search(
        crate::color::dcp::parser::text_view(env_dir),
        crate::color::dcp::parser::text_view(home),
    ));
    dirs
}

/// Whether a file's extension says that it's a profile.
pub fn is_dcp_extension(extension: &str) -> (yes: bool)
    ensures
        yes == (ascii_lowered(extension@) == "dcp"@),
{
    proof {
        reveal_strlit("dcp");
        assert(ascii_lowered("dcp"@) =~= "dcp"@);
    }
    crate::text::eq_ignoring_ascii_case(extension, "dcp")
}

// ----- laws -----

/// A match stays the first one, whatever files follow it.
proof fn lemma_first_match(files: Seq<Seq<u8>>, i: int, target: Seq<char>)
    requires
        0 <= i < files.len(),
        first_match(files.take(i), target) is None,
        match_in(files[i], target) is Some,
    ensures
        first_match(files, target) == match_in(files[i], target),
    decreases files.len(),
{
    if i == files.len() - 1 {
        assert(files.drop_last() =~= files.take(i));
    } else {
        assert(files.drop_last().take(i) =~= files.take(i));
        lemma_first_match(files.drop_last(), i, target);
    }
}

/// Lower case, no white space but single spaces, and none at the front.
spec fn tidy(s: Seq<char>) -> bool {
    &&& s.len() > 0 ==> s[0] != ' '
    &&& forall|i: int|
        0 <= i < s.len() ==> #[trigger] s[i] == ' ' || (!is_white(s[i]) && ascii_lower(s[i])
            == s[i])
    &&& forall|i: int, j: int|
        0 <= i < s.len() && j == i + 1 && j < s.len() ==> #[trigger] s[i] != ' ' || #[trigger] s[j]
            != ' '
}

proof fn lemma_collapsed_is_tidy(s: Seq<char>)
    ensures
        tidy(collapsed(s)),
    decreases s.len(),
{
    if s.len() > 0 {
        lemma_collapsed_is_tidy(s.drop_last());
    }
}

proof fn lemma_tidy_stays(s: Seq<char>)
    requires
        tidy(s),
    ensures
        collapsed(s) == s,
    decreases s.len(),
{
    if s.len() > 0 {
        let front = s.drop_last();
        assert forall|i: int| 0 <= i < front.len() implies #[trigger] front[i] == ' ' || (
        !is_white(front[i]) && ascii_lower(front[i]) == front[i]) by {
            assert(front[i] == s[i]);
        }
        assert forall|i: int, j: int|
            0 <= i < front.len() && j == i + 1 && j < front.len() implies #[trigger] front[i] != ' '
            || #[trigger] front[j] != ' ' by {
            assert(front[i] == s[i] && front[j] == s[j]);
        }
        lemma_tidy_stays(front);
        assert(s[s.len() - 1] == s.last());
        if s.last() == ' ' {
            assert(s[s.len() - 2] == front.last());
        }
        assert(collapsed(s) =~= s);
    }
}

/// Normalizing a name twice is normalizing it once.
pub proof fn normalizing_is_idempotent(s: Seq<char>)
    ensures
        normalized(normalized(s)) == normalized(s),
{
    lemma_collapsed_is_tidy(s);
    let c = collapsed(s);
    let n = normalized(s);
    assert(tidy(n)) by {
        assert forall|i: int| 0 <= i < n.len() implies #[trigger] n[i] == ' ' || (!is_white(n[i])
            && ascii_lower(n[i]) == n[i]) by {
            assert(n[i] == c[i]);
        }
        assert forall|i: int, j: int|
            0 <= i < n.len() && j == i + 1 && j < n.len() implies #[trigger] n[i] != ' '
            || #[trigger] n[j] != ' ' by {
            assert(n[i] == c[i] && n[j] == c[j]);
        }
    }
    lemma_tidy_stays(n);
    if n.len() > 0 && n.last() == ' ' {
        assert(c.last() == ' ');
        assert(c[c.len() - 2] == ' ' && c[c.len() - 1] == ' ');
    }
}

/// A normalized name has no white space around it and none inside but single spaces.
pub proof fn normalized_names_are_tidy(s: Seq<char>)
    ensures
        normalized(s).len() > 0 ==> !is_white(normalized(s)[0]) && !is_white(normalized(s).last()),
        forall|i: int|
            0 <= i < normalized(s).len() && is_white(#[trigger] normalized(s)[i])
                ==> normalized(s)[i] == ' ' && !is_white(normalized(s)[i + 1]),
{
    lemma_collapsed_is_tidy(s);
    let c = collapsed(s);
    let n = normalized(s);
    if n.len() > 0 {
        assert(n[0] == c[0]);
        assert(n.last() == c[n.len() - 1]);
        if n.last() == ' ' {
            assert(c[c.len() - 2] == ' ' && c[c.len() - 1] == ' ');
        }
    }
    assert forall|i: int| 0 <= i < n.len() && is_white(#[trigger] n[i]) implies n[i] == ' '
        && !is_white(n[i + 1]) by {
        assert(n[i] == c[i]);
        assert(i + 1 < n.len());
        assert(n[i + 1] == c[i + 1]);
    }
}

/// A text without its white space.
pub open spec fn unspaced(s: Seq<char>) -> Seq<char>
    decreases s.len(),
{
    if s.len() == 0 {
        s
    } else if is_white(s.last()) {
        unspaced(s.drop_last())
    } else {
        unspaced(s.drop_last()).push(s.last())
    }
}

proof fn lemma_collapsed_keeps_letters(s: Seq<char>)
    ensures
        unspaced(collapsed(s)) == ascii_lowered(unspaced(s)),
    decreases s.len(),
{
    if s.len() == 0 {
        assert(ascii_lowered(unspaced(s)) =~= s);
    } else {
        let front = s.drop_last();
        let before = collapsed(front);
        lemma_collapsed_keeps_letters(front);
        if !is_white(s.last()) {
            let l = ascii_lower(s.last());
            assert(before.push(l).drop_last() =~= before);
            assert(!is_white(l));
            assert(ascii_lowered(unspaced(front).push(s.last())) =~= ascii_lowered(
                unspaced(front),
            ).push(l));
        } else if before.len() > 0 && before.last() != ' ' {
            assert(before.push(' ').drop_last() =~= before);
        }
    }
}

/// Normalizing leaves no ASCII capital, and keeps every other character but white space: those of
/// a name, in order and in lower case, are those of its normalized form.
pub proof fn normalizing_keeps_the_letters(s: Seq<char>)
    ensures
        forall|i: int|
            0 <= i < normalized(s).len() ==> !('A' <= #[trigger] normalized(s)[i] <= 'Z'),
        unspaced(normalized(s)) == ascii_lowered(unspaced(s)),
{
    lemma_collapsed_is_tidy(s);
    lemma_collapsed_keeps_letters(s);
    let c = collapsed(s);
    assert forall|i: int| 0 <= i < normalized(s).len() implies !('A' <= #[trigger] normalized(s)[i]
        <= 'Z') by {
        assert(normalized(s)[i] == c[i]);
        assert(c[i] == ' ' || ascii_lower(c[i]) == c[i]);
    }
}

proof fn lemma_collapsed_ignores_case(s: Seq<char>)
    ensures
        collapsed(ascii_lowered(s)) == collapsed(s),
    decreases s.len(),
{
    if s.len() > 0 {
        lemma_collapsed_ignores_case(s.drop_last());
        assert(ascii_lowered(s).drop_last() =~= ascii_lowered(s.drop_last()));
    } else {
        assert(ascii_lowered(s) =~= s);
    }
}

/// The case of ASCII letters doesn't count.
pub proof fn normalizing_ignores_case(a: Seq<char>, b: Seq<char>)
    requires
        ascii_lowered(a) == ascii_lowered(b),
    ensures
        normalized(a) == normalized(b),
{
    lemma_collapsed_ignores_case(a);
    lemma_collapsed_ignores_case(b);
}

proof fn lemma_collapsed_goes_on(a: Seq<char>, b: Seq<char>, tail: Seq<char>)
    requires
        collapsed(a) == collapsed(b),
    ensures
        collapsed(a + tail) == collapsed(b + tail),
    decreases tail.len(),
{
    if tail.len() == 0 {
        assert(a + tail =~= a);
        assert(b + tail =~= b);
    } else {
        lemma_collapsed_goes_on(a, b, tail.drop_last());
        assert((a + tail).drop_last() =~= a + tail.drop_last());
        assert((b + tail).drop_last() =~= b + tail.drop_last());
    }
}

/// How much white space there is between two words, and which, doesn't count.
pub proof fn normalizing_ignores_the_amount_of_white_space(
    front: Seq<char>,
    space: Seq<char>,
    tail: Seq<char>,
)
    requires
        space.len() > 0,
        forall|i: int| 0 <= i < space.len() ==> is_white(#[trigger] space[i]),
    ensures
        normalized(front + space + tail) == normalized(front.push(' ') + tail),
{
    lemma_white_run(front, space);
    lemma_collapsed_goes_on(front + space, front.push(' '), tail);
}

proof fn lemma_white_run(front: Seq<char>, space: Seq<char>)
    requires
        space.len() > 0,
        forall|i: int| 0 <= i < space.len() ==> is_white(#[trigger] space[i]),
    ensures
        collapsed(front + space) == collapsed(front.push(' ')),
    decreases space.len(),
{
    assert((front + space).drop_last() =~= front + space.drop_last());
    assert((front + space).last() == space[space.len() - 1]);
    assert(front.push(' ').drop_last() =~= front);
    if space.len() == 1 {
        assert(front + space.drop_last() =~= front);
    } else {
        let shorter = space.drop_last();
        assert forall|i: int| 0 <= i < shorter.len() implies is_white(#[trigger] shorter[i]) by {
            assert(shorter[i] == space[i]);
        }
        lemma_white_run(front, shorter);
    }
}

/// White space around a name doesn't count.
pub proof fn normalizing_ignores_white_space_around(s: Seq<char>, w: char)
    requires
        is_white(w),
    ensures
        normalized(s.push(w)) == normalized(s),
        normalized(seq![w] + s) == normalized(s),
{
    lemma_collapsed_is_tidy(s);
    assert(s.push(w).drop_last() =~= s);
    let c = collapsed(s);
    if c.len() > 0 && c.last() != ' ' {
        assert(c.push(' ').drop_last() =~= c);
    }
    assert(seq![w].drop_last() =~= Seq::<char>::empty());
    assert(collapsed(seq![w]) =~= collapsed(Seq::<char>::empty()));
    lemma_collapsed_goes_on(seq![w], Seq::empty(), s);
    assert(Seq::<char>::empty() + s =~= s);
}

/// A search answers with the profile of the first file that is one for the camera: one whose
/// model or, failing that, whose calibration signature normalizes to the camera's name. Files that
/// don't parse are passed over.
pub proof fn the_first_file_for_the_camera_is_found(
    camera: &str,
    files: &Vec<Vec<u8>>,
    found: Option<Dcp>,
    i: int,
)
    requires
        call_ensures(find_dcp_for_camera, (camera, files), found),
        0 <= i < files@.len(),
    ensures
        normalized(camera@).len() == 0 ==> found is None,
        normalized(camera@).len() > 0 && is_for(files@[i]@, normalized(camera@)) && (forall|j: int|
            0 <= j < i ==> !is_for(#[trigger] files@[j]@, normalized(camera@))) ==> found is Some
            && found->0@ == parsed(files@[i]@)->Ok_0,
        (forall|j: int|
            0 <= j < files@.len() ==> !is_for(#[trigger] files@[j]@, normalized(camera@)))
            ==> found is None,
{
    let target = normalized(camera@);
    let views = file_views(files@);
    assert forall|j: int| 0 <= j < files@.len() implies #[trigger] views[j] == files@[j]@ by {}
    if target.len() > 0 {
        if is_for(files@[i]@, target) && (forall|j: int|
            0 <= j < i ==> !is_for(#[trigger] files@[j]@, target)) {
            let front = views.take(i);
            assert forall|j: int| 0 <= j < front.len() implies !is_for(#[trigger] front[j], target) by {
                assert(front[j] == files@[j]@);
            }
            lemma_none_is_for(front, target);
            lemma_is_for(views[i], target);
            lemma_first_match(views, i, target);
        }
        if forall|j: int| 0 <= j < files@.len() ==> !is_for(#[trigger] files@[j]@, target) {
            assert forall|j: int| 0 <= j < views.len() implies !is_for(#[trigger] views[j], target) by {
                assert(views[j] == files@[j]@);
            }
            lemma_none_is_for(views, target);
        }
    }
}

/// Whether a file is a profile for the camera with this normalized name.
pub open spec fn is_for(bytes: Seq<u8>, target: Seq<char>) -> bool {
    parsed(bytes) matches Ok(dcp) && ((dcp.unique_camera_model matches Some(model) && normalized(
        model,
    ) == target) || (dcp.profile_calibration_signature matches Some(signature) && normalized(
        signature,
    ) == target))
}

proof fn lemma_is_for(bytes: Seq<u8>, target: Seq<char>)
    ensures
        is_for(bytes, target) <==> match_in(bytes, target) is Some,
        is_for(bytes, target) ==> match_in(bytes, target) == Some(parsed(bytes)->Ok_0),
{
}

proof fn lemma_none_is_for(files: Seq<Seq<u8>>, target: Seq<char>)
    requires
        forall|j: int| 0 <= j < files.len() ==> !is_for(#[trigger] files[j], target),
    ensures
        first_match(files, target) is None,
    decreases files.len(),
{
    if files.len() > 0 {
        assert forall|j: int| 0 <= j < files.drop_last().len() implies !is_for(
            #[trigger] files.drop_last()[j],
            target,
        ) by {
            assert(files.drop_last()[j] == files[j]);
        }
        lemma_none_is_for(files.drop_last(), target);
        assert(!is_for(files[files.len() - 1], target));
        lemma_is_for(files.last(), target);
    }
}

/// The directories to search: the one that the variable names, where it names one, and then the
/// two below the home directory, in that order.
pub proof fn the_named_directory_goes_first(
    env_dir: Option<String>,
    home: Option<String>,
    dirs: Vec<SearchDir>,
)
    requires
        call_ensures(search_dirs, (env_dir, home), dirs),
    ensures
        ({
            let named = env_dir is Some && env_dir->0@.len() > 0;
            let first = if named {
                1int
            } else {
                0
            };
            &&& dirs@.len() == first + if home is Some {
                2int
            } else {
                0
            }
            &&& named ==> dirs@[0].base@ == env_dir->0@ && dirs@[0].below@.len() == 0
            &&& home is Some ==> {
                let (a, b) = (dirs@[first], dirs@[first + 1]);
                &&& a.base@ == home->0@ && b.base@ == home->0@
                &&& a.below@.len() == 5 && b.below@.len() == 6
                &&& a.below@[0]@ == "Library"@ && b.below@[0]@ == "Library"@
                &&& a.below@[1]@ == "Application Support"@ && b.below@[1]@ == "Application Support"@
                &&& a.below@[2]@ == "Adobe"@ && b.below@[2]@ == "Adobe"@
                &&& a.below@[3]@ == "CameraRaw"@ && b.below@[3]@ == "CameraRaw"@
                &&& a.below@[4]@ == "CameraProfiles"@ && b.below@[4]@ == "CameraProfiles"@
                &&& b.below@[5]@ == "Adobe Standard"@
            }
        }),
{
    let views = dirs@.map_values(|d: SearchDir| dir_view(d));
    assert(views.len() == dirs@.len());
    assert forall|i: int| 0 <= i < dirs@.len() implies #[trigger] views[i] == dir_view(dirs@[i]) by {}
    assert forall|i: int, k: int|
        0 <= i < dirs@.len() && 0 <= k < dirs@[i].below@.len() implies #[trigger] dirs@[i].below@[k]@
        == views[i].1[k] by {
        assert(views[i] == dir_view(dirs@[i]));
    }
    assert forall|i: int| 0 <= i < dirs@.len() implies (#[trigger] dirs@[i]).base@ == views[i].0
        && dirs@[i].below@.len() == views[i].1.len() by {
        assert(views[i] == dir_view(dirs@[i]));
    }
}

/// A profile is for a camera exactly where its model's name or its calibration signature is the
/// camera's, once both are normalized.
pub proof fn profiles_match_by_model_or_signature(
    dcp: &Dcp,
    target: &str,
    yes: bool,
    model: Option<String>,
    signature: Option<String>,
)
    requires
        call_ensures(dcp_matches, (dcp, target), yes),
        dcp.unique_camera_model is Some <==> model is Some,
        dcp.unique_camera_model is Some ==> exists|text: &str|
            text@ == dcp.unique_camera_model->0@ && #[trigger] call_ensures(
                normalize,
                (text,),
                model->0,
            ),
        dcp.profile_calibration_signature is Some <==> signature is Some,
        dcp.profile_calibration_signature is Some ==> exists|text: &str|
            text@ == dcp.profile_calibration_signature->0@ && #[trigger] call_ensures(
                normalize,
                (text,),
                signature->0,
            ),
    ensures
        yes <==> model is Some && model->0@ == target@ || signature is Some && signature->0@
            == target@,
{
    if model is Some {
        let text = choose|text: &str|
            text@ == dcp.unique_camera_model->0@ && #[trigger] call_ensures(
                normalize,
                (text,),
                model->0,
            );
        assert(model->0@ == normalized(text@));
    }
    if signature is Some {
        let text = choose|text: &str|
            text@ == dcp.profile_calibration_signature->0@ && #[trigger] call_ensures(
                normalize,
                (text,),
                signature->0,
            );
        assert(signature->0@ == normalized(text@));
    }
}

/// A file that doesn't parse tells why; of one that does, the profile is found exactly where it's
/// for the camera.
pub proof fn files_are_parsed_and_matched(
    bytes: &[u8],
    target: &str,
    found: Result<Option<Dcp>, ParseError>,
    whole: Result<Dcp, ParseError>,
    yes: bool,
)
    requires
        call_ensures(load_and_match, (bytes, target), found),
        call_ensures(parse, (bytes,), whole),
        whole is Ok ==> call_ensures(dcp_matches, (&whole->Ok_0, target), yes),
    ensures
        found is Ok <==> whole is Ok,
        whole is Err ==> found->Err_0 == whole->Err_0,
        whole is Ok ==> (found->Ok_0 is Some <==> yes),
        whole is Ok && yes ==> found->Ok_0->0@ == whole->Ok_0@,
{
}

/// A profile's file ends in `dcp`, in capitals or not.
pub proof fn profiles_end_in_dcp(extension: &str, yes: bool)
    requires
        call_ensures(is_dcp_extension, (extension,), yes),
    ensures
        yes <==> extension@.len() == 3 && (extension@[0] == 'd' || extension@[0] == 'D') && (
        extension@[1] == 'c' || extension@[1] == 'C') && (extension@[2] == 'p' || extension@[2]
            == 'P'),
{
    reveal_strlit("dcp");
    let low = ascii_lowered(extension@);
    assert(low.len() == extension@.len());
    if extension@.len() == 3 {
        assert(low[0] == crate::text::ascii_lower(extension@[0]));
        assert(low[1] == crate::text::ascii_lower(extension@[1]));
        assert(low[2] == crate::text::ascii_lower(extension@[2]));
        if low[0] == 'd' && low[1] == 'c' && low[2] == 'p' {
            assert(low =~= "dcp"@);
        }
    }
}

} // verus!
