//! Cameras close enough to share a profile.
//!
//! Where no profile names a camera, one for a camera with the same sensor will do. The list is
//! small on purpose: a profile for the wrong camera does more harm than none.

use super::discovery::{
    normalize, normalized, normalizing_ignores_case, normalizing_ignores_the_amount_of_white_space,
    normalizing_ignores_white_space_around,
};
use crate::text::{ascii_lowered, chars_of, is_white, same_chars};
use vstd::prelude::*;

verus! {

/// A camera and the cameras whose profiles stand in for its own, closest first.
#[derive(Debug, Clone, PartialEq, Eq)]
pub struct FamilyAlias {
    pub camera: &'static str,
    pub aliases: Vec<&'static str>,
}

/// The names in a list of names.
pub open spec fn names_of(list: Seq<&'static str>) -> Seq<Seq<char>> {
    list.map_values(|s: &'static str| s@)
}

/// An entry as mathematics.
pub open spec fn alias_view(entry: FamilyAlias) -> (Seq<char>, Seq<Seq<char>>) {
    (entry.camera@, names_of(entry.aliases@))
}

/// The whole list.
pub open spec fn alias_table() -> Seq<(Seq<char>, Seq<Seq<char>>)> {
    seq![
        ("Sony ILCE-5000"@, seq!["Sony ILCE-6000"@, "Sony NEX-5N"@]),
        ("Sony ILCE-5100"@, seq!["Sony ILCE-6000"@]),
        ("Sony ILCE-6100"@, seq!["Sony ILCE-6400"@, "Sony ILCE-6500"@]),
        ("Sony ILCE-7R"@, seq!["Sony ILCE-7RM3"@]),
        ("Sony DSC-RX100M7"@, seq!["Sony DSC-RX100M6"@]),
        ("Fujifilm X-T2"@, seq!["FUJIFILM X-T3"@]),
        ("Fujifilm X-T20"@, seq!["FUJIFILM X-T2"@, "FUJIFILM X-T3"@]),
        ("Fujifilm X-T30"@, seq!["FUJIFILM X-T3"@]),
        ("Fujifilm X-T10"@, seq!["FUJIFILM X-T1"@]),
        ("Nikon D500"@, seq!["NIKON D7500"@]),
        ("Nikon D5200"@, seq!["NIKON D5300"@, "NIKON D5600"@]),
        ("Nikon D3200"@, seq!["NIKON D3300"@]),
        ("Canon EOS 6D"@, seq!["Canon EOS 6D Mark II"@]),
        ("Canon EOS M50"@, seq!["Canon EOS M6 Mark II"@]),
        ("Canon EOS M50m2"@, seq!["Canon EOS M6 Mark II"@]),
        ("Canon EOS RP"@, seq!["Canon EOS R"@]),
        ("Olympus E-M10 Mark III"@, seq!["OLYMPUS E-M10"@]),
        ("Olympus E-M1 Mark III"@, seq!["OLYMPUS E-M1MarkII"@]),
        ("Panasonic DMC-GX7MK2"@, seq!["Panasonic DMC-GX7"@]),
        ("Panasonic DC-G85"@, seq!["Panasonic DC-G9"@]),
    ]
}

/// The stand-ins that a list gives for the camera with this normalized name: those of the first
/// entry for it.
pub open spec fn stand_ins(
    table: Seq<(Seq<char>, Seq<Seq<char>>)>,
    target: Seq<char>,
) -> Seq<Seq<char>>
    decreases table.len(),
{
    if table.len() == 0 {
        Seq::empty()
    } else if normalized(table[0].0) == target {
        table[0].1
    } else {
        stand_ins(table.skip(1), target)
    }
}

/// One entry.
fn entry(camera: &'static str, aliases: Vec<&'static str>) -> (entry: FamilyAlias)
    ensures
        alias_view(entry) == (camera@, names_of(aliases@)),
{
    FamilyAlias { camera, aliases }
}

/// A list of one name.
fn one(a: &'static str) -> (list: Vec<&'static str>)
    ensures
        names_of(list@) == seq![a@],
{
    let mut list: Vec<&'static str> = Vec::new();
    list.push(a);
    assert(names_of(list@) =~= seq![a@]);
    list
}

/// A list of two names.
fn two(a: &'static str, b: &'static str) -> (list: Vec<&'static str>)
    ensures
        names_of(list@) == seq![a@, b@],
{
    let mut list: Vec<&'static str> = Vec::new();
    list.push(a);
    list.push(b);
    assert(names_of(list@) =~= seq![a@, b@]);
    list
}

/// The whole list.
pub fn family_aliases() -> (table: Vec<FamilyAlias>)
    ensures
        table@.map_values(|e: FamilyAlias| alias_view(e)) == alias_table(),
{
    let mut table: Vec<FamilyAlias> = Vec::new();
    // --- Sony E-mount APS-C, shared 20 MP BSI sensors ---
    // α5000 and α6000 share the same 20.1 MP Sony Exmor BSI sensor.
    table.push(entry("Sony ILCE-5000", two("Sony ILCE-6000", "Sony NEX-5N")));
    // α5100 shares the α6000's sensor; α6000 is the closest profile.
    table.push(entry("Sony ILCE-5100", one("Sony ILCE-6000")));
    // α6100 uses the same 24 MP sensor as the α6400 and α6500.
    table.push(entry("Sony ILCE-6100", two("Sony ILCE-6400", "Sony ILCE-6500")));
    // α7R I and α7R II share Sony's full-frame high-resolution lineage;
    // profile characteristics are similar enough for a viewer fallback.
    table.push(entry("Sony ILCE-7R", one("Sony ILCE-7RM3")));
    // --- Sony RX compact ---
    // RX100 VII sensor is close to RX100M6; same compact 1" family.
    table.push(entry("Sony DSC-RX100M7", one("Sony DSC-RX100M6")));
    // --- Fujifilm X-Trans III / IV family ---
    // X-T2 and X-T3 share the same 26 MP X-Trans IV sensor lineage.
    table.push(entry("Fujifilm X-T2", one("FUJIFILM X-T3")));
    // X-T20 uses the same sensor as the X-T2; X-T3 is the next closest.
    table.push(entry("Fujifilm X-T20", two("FUJIFILM X-T2", "FUJIFILM X-T3")));
    // X-T30 shares the X-Trans IV sensor with the X-T3.
    table.push(entry("Fujifilm X-T30", one("FUJIFILM X-T3")));
    // X-T10 uses the X-Trans II sensor of the X-T1.
    table.push(entry("Fujifilm X-T10", one("FUJIFILM X-T1")));
    // --- Nikon APS-C ---
    // D500 and D7500 share the same 20.9 MP BSI CMOS sensor.
    table.push(entry("Nikon D500", one("NIKON D7500")));
    // D5200 uses the same 24.1 MP sensor as D5300 / D5600.
    table.push(entry("Nikon D5200", two("NIKON D5300", "NIKON D5600")));
    // D3200 uses the same 24.2 MP Sony sensor as D3300.
    table.push(entry("Nikon D3200", one("NIKON D3300")));
    // --- Canon EOS APS-C ---
    // 6D and 6D Mark II share Canon's full-frame lineage; same color science.
    table.push(entry("Canon EOS 6D", one("Canon EOS 6D Mark II")));
    // EOS M50 and M6 Mark II share the 24.1 MP Dual Pixel CMOS.
    table.push(entry("Canon EOS M50", one("Canon EOS M6 Mark II")));
    // EOS M50 Mark II is essentially the same camera with minor firmware updates.
    table.push(entry("Canon EOS M50m2", one("Canon EOS M6 Mark II")));
    // --- Canon EOS R ---
    // EOS RP uses the same 26.2 MP sensor as the EOS R; very close color.
    table.push(entry("Canon EOS RP", one("Canon EOS R")));
    // --- Olympus / OM System M43 ---
    // E-M10 Mark III shares the sensor with the E-M10 (same 16 MP Panasonic chip).
    table.push(entry("Olympus E-M10 Mark III", one("OLYMPUS E-M10")));
    // E-M1 Mark III is a refinement of the E-M1 Mark II sensor.
    table.push(entry("Olympus E-M1 Mark III", one("OLYMPUS E-M1MarkII")));
    // --- Panasonic M43 ---
    // GX7 Mark II reuses the GX7's sensor family.
    table.push(entry("Panasonic DMC-GX7MK2", one("Panasonic DMC-GX7")));
    // G85 sensor is very close to the G9's 20 MP Sony chip.
    table.push(entry("Panasonic DC-G85", one("Panasonic DC-G9")));
    assert(table@.map_values(|e: FamilyAlias| alias_view(e)) =~= alias_table());
    table
}

/// The cameras whose profiles may stand in for `camera_id`'s, closest first. Case and the amount
/// of white space in the name don't count.
pub fn aliases_for(camera_id: &str) -> (aliases: Vec<&'static str>)
    ensures
        names_of(aliases@) == stand_ins(alias_table(), normalized(camera_id@)),
{
    let target: Vec<char> = chars_of(normalize(camera_id).as_str());
    let table: Vec<FamilyAlias> = family_aliases();
    let ghost views = table@.map_values(|e: FamilyAlias| alias_view(e));
    let mut i: usize = 0;
    assert(views.skip(0) =~= views);
    while i < table.len()
        invariant
            i <= table.len(),
            target@ == normalized(camera_id@),
            views == table@.map_values(|e: FamilyAlias| alias_view(e)),
            views == alias_table(),
            stand_ins(views, target@) == stand_ins(views.skip(i as int), target@),
        decreases table.len() - i,
    {
        assert(views.skip(i as int)[0] == alias_view(table[i as int]));
        if same_chars(&chars_of(normalize(table[i].camera).as_str()), &target) {
            return copied(&table[i].aliases);
        }
        assert(views.skip(i as int).skip(1) =~= views.skip(i + 1));
        i = i + 1;
    }
    let none: Vec<&'static str> = Vec::new();
    assert(names_of(none@) =~= Seq::empty());
    none
}

/// A copy of a list of names.
fn copied(list: &Vec<&'static str>) -> (copy: Vec<&'static str>)
    ensures
        copy@ == list@,
{
    let mut copy: Vec<&'static str> = Vec::new();
    for i in 0..list.len()
        invariant
            copy@ == list@.take(i as int),
    {
        copy.push(list[i]);
    }
    assert(list@.take(list@.len() as int) =~= list@);
    copy
}

/// Every camera in the list has at least one stand-in.
pub proof fn every_entry_has_a_stand_in()
    ensures
        forall|i: int| 0 <= i < alias_table().len() ==> #[trigger] alias_table()[i].1.len() > 0,
{
    let table = alias_table();
    assert forall|i: int| 0 <= i < table.len() implies #[trigger] table[i].1.len() > 0 by {
        assert(table.len() == 20);
    }
}

/// Neither the case of a camera's name nor white space around it changes its stand-ins.
pub proof fn stand_ins_ignore_case_and_white_space(a: Seq<char>, b: Seq<char>, w: char)
    requires
        ascii_lowered(a) == ascii_lowered(b),
        is_white(w),
    ensures
        ({
            let stand_ins_of = |name: Seq<char>| stand_ins(alias_table(), normalized(name));
            &&& stand_ins_of(a) == stand_ins_of(b)
            &&& stand_ins_of(a.push(w)) == stand_ins_of(a)
            &&& stand_ins_of(seq![w] + a) == stand_ins_of(a)
        }),
{
    normalizing_ignores_case(a, b);
    normalizing_ignores_white_space_around(a, w);
}

/// A stretch of white space inside a camera's name counts as one space.
pub proof fn stand_ins_ignore_the_amount_of_white_space(
    front: Seq<char>,
    space: Seq<char>,
    tail: Seq<char>,
)
    requires
        space.len() > 0,
        forall|i: int| 0 <= i < space.len() ==> is_white(#[trigger] space[i]),
    ensures
        stand_ins(alias_table(), normalized(front + space + tail)) == stand_ins(
            alias_table(),
            normalized(front.push(' ') + tail),
        ),
{
    normalizing_ignores_the_amount_of_white_space(front, space, tail);
}

/// The stand-ins of a camera are those of the first entry for it, and a camera without an entry
/// has none.
pub proof fn the_first_entry_gives_the_stand_ins(camera: &str, aliases: Vec<&'static str>, i: int)
    requires
        call_ensures(aliases_for, (camera,), aliases),
    ensures
        0 <= i < alias_table().len() && normalized(alias_table()[i].0) == normalized(camera@) && (
        forall|j: int| 0 <= j < i ==> normalized(#[trigger] alias_table()[j].0) != normalized(
            camera@,
        )) ==> {
            &&& aliases@.len() == alias_table()[i].1.len()
            &&& forall|k: int|
                0 <= k < aliases@.len() ==> #[trigger] aliases@[k]@ == alias_table()[i].1[k]
        },
        (forall|j: int|
            0 <= j < alias_table().len() ==> normalized(#[trigger] alias_table()[j].0)
                != normalized(camera@)) ==> aliases@.len() == 0,
{
    let target = normalized(camera@);
    let found = names_of(aliases@);
    if 0 <= i < alias_table().len() && normalized(alias_table()[i].0) == target && (forall|j: int|
        0 <= j < i ==> normalized(#[trigger] alias_table()[j].0) != target) {
        lemma_first_entry(alias_table(), target, i);
        assert(found == alias_table()[i].1);
        assert forall|k: int| 0 <= k < aliases@.len() implies #[trigger] aliases@[k]@
            == alias_table()[i].1[k] by {
            assert(found[k] == aliases@[k]@);
        }
    }
    if forall|j: int|
        0 <= j < alias_table().len() ==> normalized(#[trigger] alias_table()[j].0) != target {
        lemma_no_entry(alias_table(), target);
    }
}

proof fn lemma_first_entry(table: Seq<(Seq<char>, Seq<Seq<char>>)>, target: Seq<char>, i: int)
    requires
        0 <= i < table.len(),
        normalized(table[i].0) == target,
        forall|j: int| 0 <= j < i ==> normalized(#[trigger] table[j].0) != target,
    ensures
        stand_ins(table, target) == table[i].1,
    decreases table.len(),
{
    if i > 0 {
        let rest = table.skip(1);
        assert forall|j: int| 0 <= j < i - 1 implies normalized(#[trigger] rest[j].0) != target by {
            assert(rest[j] == table[j + 1]);
        }
        lemma_first_entry(rest, target, i - 1);
    }
}

proof fn lemma_no_entry(table: Seq<(Seq<char>, Seq<Seq<char>>)>, target: Seq<char>)
    requires
        forall|j: int| 0 <= j < table.len() ==> normalized(#[trigger] table[j].0) != target,
    ensures
        stand_ins(table, target).len() == 0,
    decreases table.len(),
{
    if table.len() > 0 {
        let rest = table.skip(1);
        assert forall|j: int| 0 <= j < rest.len() implies normalized(#[trigger] rest[j].0)
            != target by {
            assert(rest[j] == table[j + 1]);
        }
        lemma_no_entry(rest, target);
    }
}

} // verus!
