//! Windows paths as text.
//!
//! The rules are Windows' own on every host: both slashes separate, and case doesn't count.

use crate::text::{
    ascii_lower, ascii_lowered, chars_of, lower, same_chars, string_of, sub_chars,
};
use vstd::prelude::*;

verus! {

/// Whether a character separates the components of a path.
pub open spec fn is_separator(c: char) -> bool {
    c == '\\' || c == '/'
}

/// What `str::to_lowercase` makes of a text.
pub uninterp spec fn lowercase(s: Seq<char>) -> Seq<char>;

/// A path with backslashes for separators.
pub open spec fn with_backslashes(path: Seq<char>) -> Seq<char> {
    path.map_values(
        |c: char|
            if c == '/' {
                '\\'
            } else {
                c
            },
    )
}

/// A path as a person reads it: in the form that the shell takes, where it has one.
pub open spec fn displayed(path: Seq<char>) -> Seq<char> {
    match shell_form(path) {
        Some(shell) => shell,
        None => path,
    }
}

/// The form in which paths are compared.
pub open spec fn path_key(path: Seq<char>) -> Seq<char> {
    lowercase(with_backslashes(displayed(path)))
}

/// Whether a text is ASCII.
pub open spec fn is_ascii_text(s: Seq<char>) -> bool {
    forall|i: int| 0 <= i < s.len() ==> (#[trigger] s[i] as u32) < 128
}

/// `str::to_lowercase`, which lower-cases ASCII letters and leaves the rest of ASCII alone. What
/// it makes of other characters is left to the name.
#[verifier::external_body]
fn to_lowercase(s: &str) -> (out: String)
    ensures
        out@ == lowercase(s@),
        is_ascii_text(s@) ==> out@ == ascii_lowered(s@),
{
    s.to_lowercase()
}

/// A path as a person reads it: in the form that the shell takes, where it has one.
pub fn display(path: &str) -> (text: String)
    ensures
        text@ == displayed(path@),
{
    match shell_path(path) {
        Some(shell) => shell,
        None => path.to_owned(),
    }
}

/// The form in which paths are compared.
pub fn key(path: &str) -> (key: String)
    ensures
        key@ == path_key(path@),
        is_ascii_text(displayed(path@)) ==> key@ == ascii_lowered(
            with_backslashes(displayed(path@)),
        ),
{
    let text: String = display(path);
    let chars: Vec<char> = chars_of(text.as_str());
    let mut out: Vec<char> = Vec::new();
    for i in 0..chars.len()
        invariant
            out@ == with_backslashes(chars@).take(i as int),
    {
        if chars[i] == '/' {
            out.push('\\');
        } else {
            out.push(chars[i]);
        }
    }
    assert(out@ =~= with_backslashes(displayed(path@)));
    proof {
        if is_ascii_text(displayed(path@)) {
            assert(is_ascii_text(with_backslashes(displayed(path@))));
        }
    }
    let slashed: String = string_of(out);
    to_lowercase(slashed.as_str())
}

/// Whether two paths name the same place, under Windows rules.
pub fn same_path(a: &str, b: &str) -> (same: bool)
    ensures
        same == (path_key(a@) == path_key(b@)),
{
    let a: String = key(a);
    let b: String = key(b);
    same_chars(&chars_of(a.as_str()), &chars_of(b.as_str()))
}

/// How many characters are left when separators are cut from the end.
pub open spec fn len_without_separators(s: Seq<char>) -> nat
    decreases s.len(),
{
    if s.len() > 0 && is_separator(s.last()) {
        len_without_separators(s.drop_last())
    } else {
        s.len()
    }
}

/// Where the last component starts.
pub open spec fn last_component_start(s: Seq<char>) -> nat
    decreases s.len(),
{
    if s.len() == 0 || is_separator(s.last()) {
        s.len()
    } else {
        last_component_start(s.drop_last())
    }
}

/// The last component of a path.
pub open spec fn last_component(path: Seq<char>) -> Seq<char> {
    let body = path.take(len_without_separators(path) as int);
    body.skip(last_component_start(body) as int)
}

/// Whether a component names a file or a folder rather than a drive or a place relative to
/// another.
pub open spec fn is_name(component: Seq<char>) -> bool {
    &&& component.len() > 0
    &&& !(component.len() == 2 && component[1] == ':')
    &&& component != seq!['.']
    &&& component != seq!['.', '.']
}

/// The name at the end of a path, where there is one.
pub open spec fn name_of(path: Seq<char>) -> Option<Seq<char>> {
    if is_name(last_component(path)) {
        Some(last_component(path))
    } else {
        None
    }
}

proof fn lemma_component_bounds(s: Seq<char>)
    ensures
        len_without_separators(s) <= s.len(),
        last_component_start(s) <= s.len(),
    decreases s.len(),
{
    if s.len() > 0 {
        lemma_component_bounds(s.drop_last());
    }
}

/// The name at the end of a path, where there is one.
pub fn file_name(path: &str) -> (name: Option<String>)
    ensures
        match name {
            Some(name) => name_of(path@) == Some(name@),
            None => name_of(path@) is None,
        },
{
    let chars: Vec<char> = chars_of(path);
    let mut end: usize = chars.len();
    assert(chars@.take(end as int) =~= chars@);
    while end > 0 && (chars[end - 1] == '\\' || chars[end - 1] == '/')
        invariant
            end <= chars.len(),
            len_without_separators(chars@) == len_without_separators(chars@.take(end as int)),
        decreases end,
    {
        assert(chars@.take(end as int).drop_last() =~= chars@.take(end - 1));
        end = end - 1;
    }
    let ghost body = chars@.take(end as int);
    assert(len_without_separators(chars@) == end);
    let mut start: usize = end;
    assert(body.take(start as int) =~= body);
    while start > 0 && chars[start - 1] != '\\' && chars[start - 1] != '/'
        invariant
            start <= end <= chars.len(),
            body == chars@.take(end as int),
            last_component_start(body) == last_component_start(body.take(start as int)),
        decreases start,
    {
        assert(body.take(start as int).drop_last() =~= body.take(start - 1));
        start = start - 1;
    }
    assert(last_component_start(body) == start);
    let name: Vec<char> = sub_chars(&chars, start, end);
    assert(name@ =~= body.skip(start as int));
    let drive: bool = name.len() == 2 && name[1] == ':';
    let here: bool = name.len() == 1 && name[0] == '.';
    let up: bool = name.len() == 2 && name[0] == '.' && name[1] == '.';
    assert(here ==> name@ =~= seq!['.']);
    assert(up ==> name@ =~= seq!['.', '.']);
    if name.len() == 0 || drive || here || up {
        None
    } else {
        Some(string_of(name))
    }
}

// ----- paths for the shell -----

/// Whether a text starts with another.
pub open spec fn starts_with(s: Seq<char>, prefix: Seq<char>) -> bool {
    s.len() >= prefix.len() && s.take(prefix.len() as int) == prefix
}

/// `\\?\`, which makes Windows take a path literally.
pub open spec fn verbatim_prefix() -> Seq<char> {
    seq!['\\', '\\', '?', '\\']
}

/// The part of a name before its first dot, in lower case.
pub open spec fn stem(name: Seq<char>) -> Seq<char> {
    ascii_lowered(
        match name.index_of_first('.') {
            Some(i) => name.take(i),
            None => name,
        },
    )
}

/// Whether a name without its extension belongs to a device.
pub open spec fn is_device(stem: Seq<char>) -> bool {
    ||| stem == seq!['c', 'o', 'n']
    ||| stem == seq!['p', 'r', 'n']
    ||| stem == seq!['a', 'u', 'x']
    ||| stem == seq!['n', 'u', 'l']
    ||| stem.len() == 4 && '1' <= stem[3] <= '9' && (stem.take(3) == seq!['c', 'o', 'm']
        || stem.take(3) == seq!['l', 'p', 't'])
}

/// Whether Windows takes a component as it's written outside a verbatim path.
pub open spec fn is_plain(component: Seq<char>) -> bool {
    &&& component.len() > 0
    &&& component.last() != '.'
    &&& component.last() != ' '
    &&& !is_device(stem(component))
}

/// Whether every component of a path below a drive is plain. A separator at the very end is
/// allowed.
pub open spec fn all_plain(rest: Seq<char>) -> bool
    decreases rest.len(),
{
    if rest.len() == 0 {
        true
    } else {
        match rest.index_of_first('\\') {
            None => is_plain(rest),
            Some(i) => if 0 <= i < rest.len() {
                is_plain(rest.take(i)) && all_plain(rest.skip(i + 1))
            } else {
                false
            },
        }
    }
}

/// Whether a text starts with a drive's root, as in `C:\`.
pub open spec fn has_drive_root(s: Seq<char>) -> bool {
    s.len() >= 3 && 'a' <= ascii_lower(s[0]) <= 'z' && s[1] == ':' && s[2] == '\\'
}

/// A path in the form that the shell takes: without the verbatim prefix, where what follows it
/// means the same without.
pub open spec fn shell_form(path: Seq<char>) -> Option<Seq<char>> {
    if !starts_with(path, verbatim_prefix()) {
        Some(path)
    } else {
        let rest = path.skip(4);
        if has_drive_root(rest) && all_plain(rest.skip(3)) {
            Some(rest)
        } else {
            None
        }
    }
}

/// Whether characters spell a literal.
fn spell(chars: &Vec<char>, literal: &str) -> (yes: bool)
    ensures
        yes == (chars@ == literal@),
{
    same_chars(chars, &chars_of(literal))
}

/// Whether a name without its extension belongs to a device.
fn device(stem: &Vec<char>) -> (yes: bool)
    ensures
        yes == is_device(stem@),
{
    proof {
        reveal_strlit("con");
        reveal_strlit("prn");
        reveal_strlit("aux");
        reveal_strlit("nul");
        reveal_strlit("com");
        reveal_strlit("lpt");
        assert("con"@ =~= seq!['c', 'o', 'n']);
        assert("prn"@ =~= seq!['p', 'r', 'n']);
        assert("aux"@ =~= seq!['a', 'u', 'x']);
        assert("nul"@ =~= seq!['n', 'u', 'l']);
        assert("com"@ =~= seq!['c', 'o', 'm']);
        assert("lpt"@ =~= seq!['l', 'p', 't']);
    }
    if spell(stem, "con") || spell(stem, "prn") || spell(stem, "aux") || spell(stem, "nul") {
        return true;
    }
    if stem.len() != 4 || stem[3] < '1' || '9' < stem[3] {
        return false;
    }
    let front: Vec<char> = sub_chars(stem, 0, 3);
    assert(front@ =~= stem@.take(3));
    spell(&front, "com") || spell(&front, "lpt")
}

/// Whether Windows takes a component as it's written outside a verbatim path.
fn plain(component: &Vec<char>) -> (yes: bool)
    ensures
        yes == is_plain(component@),
{
    let len: usize = component.len();
    if len == 0 || component[len - 1] == '.' || component[len - 1] == ' ' {
        return false;
    }
    let mut lowered: Vec<char> = Vec::new();
    let mut i: usize = 0;
    let ghost cut = match component@.index_of_first('.') {
        Some(i) => component@.take(i),
        None => component@,
    };
    while i < len && component[i] != '.'
        invariant
            i <= len,
            len == component.len(),
            lowered@ == ascii_lowered(component@.take(i as int)),
            forall|j: int| 0 <= j < i ==> component[j] != '.',
        decreases len - i,
    {
        lowered.push(lower(component[i]));
        i = i + 1;
        assert(lowered@ =~= ascii_lowered(component@.take(i as int)));
    }
    proof {
        component@.index_of_first_ensures('.');
        if i < len {
            assert(component@.contains('.'));
            let first = component@.index_of_first('.')->0;
            assert(first == i);
        } else {
            assert(!component@.contains('.'));
            assert(component@.take(i as int) =~= component@);
        }
        assert(lowered@ == stem(component@));
    }
    !device(&lowered)
}

/// Whether every component from `from` on is plain.
fn plain_from(chars: &Vec<char>, from: usize) -> (yes: bool)
    requires
        from <= chars.len(),
    ensures
        yes == all_plain(chars@.skip(from as int)),
    decreases chars.len() - from,
{
    let ghost rest = chars@.skip(from as int);
    if from == chars.len() {
        return true;
    }
    let mut to: usize = from;
    while to < chars.len() && chars[to] != '\\'
        invariant
            from <= to <= chars.len(),
            rest == chars@.skip(from as int),
            forall|j: int| 0 <= j < to - from ==> rest[j] != '\\',
        decreases chars.len() - to,
    {
        assert(rest[to - from] == chars[to as int]);
        to = to + 1;
    }
    let component: Vec<char> = sub_chars(chars, from, to);
    assert(component@ =~= rest.take(to - from));
    proof {
        rest.index_of_first_ensures('\\');
        if to < chars.len() {
            assert(rest[to - from] == '\\');
            assert(rest.contains('\\'));
            assert(rest.index_of_first('\\') == Some(to - from));
            assert(rest.skip(to - from + 1) =~= chars@.skip(to + 1));
        } else {
            assert(!rest.contains('\\'));
            assert(rest.take(to - from) =~= rest);
        }
    }
    if !plain(&component) {
        return false;
    }
    if to == chars.len() {
        return true;
    }
    plain_from(chars, to + 1)
}

/// A path in the form that the shell takes, `None` where it has none.
pub fn shell_path(path: &str) -> (shell: Option<String>)
    ensures
        match shell {
            Some(shell) => shell_form(path@) == Some(shell@),
            None => shell_form(path@) is None,
        },
{
    let chars: Vec<char> = chars_of(path);
    let len: usize = chars.len();
    let verbatim: bool = verbatim(&chars);
    if !verbatim {
        return Some(string_of(chars));
    }
    let rest: Vec<char> = sub_chars(&chars, 4, len);
    assert(rest@ =~= chars@.skip(4));
    if rest.len() >= 3 && 'a' <= lower(rest[0]) && lower(rest[0]) <= 'z' && rest[1] == ':'
        && rest[2] == '\\' && plain_from(&rest, 3) {
        Some(string_of(rest))
    } else {
        None
    }
}

// ----- components -----

/// A path taken apart, so that what's spelled differently and means the same comes out the same.
#[verifier::ext_equal]
pub struct PathParts {
    /// The drive, the share or the device, with backslashes; a drive in lower case.
    pub prefix: Seq<char>,
    /// Whether it starts at the root of that.
    pub rooted: bool,
    /// The components below.
    pub names: Seq<Seq<char>>,
}

/// Whether a character separates components: in a verbatim path a slash doesn't.
pub open spec fn separates(c: char, verbatim: bool) -> bool {
    c == '\\' || (c == '/' && !verbatim)
}

/// Where the component that starts at a character ends.
pub open spec fn component_end(path: Seq<char>, from: int, verbatim: bool) -> int
    decreases path.len() - from,
{
    if from >= path.len() || from < 0 || separates(path[from], verbatim) {
        from
    } else {
        component_end(path, from + 1, verbatim)
    }
}

/// Whether a drive's letter and its colon stand at a character.
pub open spec fn has_drive_at(path: Seq<char>, at: int) -> bool {
    at + 2 <= path.len() && 'a' <= ascii_lower(path[at]) <= 'z' && path[at + 1] == ':'
}

/// Whether a path starts with `\\?\` and a whole component that's a drive.
pub open spec fn is_verbatim_drive(path: Seq<char>) -> bool {
    starts_with(path, verbatim_prefix()) && has_drive_at(path, 4) && (path.len() == 6
        || is_separator(path[6]))
}

/// Whether a path starts with two separators.
pub open spec fn is_network(path: Seq<char>) -> bool {
    path.len() >= 2 && is_separator(path[0]) && is_separator(path[1])
}

/// Whether a path starts with `\\?\UNC\`.
pub open spec fn is_verbatim_share(path: Seq<char>) -> bool {
    starts_with(path, verbatim_prefix()) && path.len() >= 8 && path[4] == 'U' && path[5] == 'N'
        && path[6] == 'C' && path[7] == '\\'
}

/// Where the share ends that follows the server at a character. A server without a share ends by
/// itself.
pub open spec fn share_end(path: Seq<char>, from: int, verbatim: bool) -> int {
    let server = component_end(path, from, verbatim);
    let share = component_end(path, server + 1, verbatim);
    if server < path.len() && share > server + 1 {
        share
    } else {
        server
    }
}

/// Where a path's prefix ends: that of a verbatim path, a device, a share or a drive.
pub open spec fn prefix_end(path: Seq<char>) -> int {
    if is_verbatim_share(path) {
        share_end(path, 8, true)
    } else if is_verbatim_drive(path) {
        6
    } else if starts_with(path, verbatim_prefix()) {
        component_end(path, 4, true)
    } else if is_network(path) && path.len() >= 4 && path[2] == '.' && is_separator(path[3]) {
        component_end(path, 4, false)
    } else if is_network(path) {
        let server = component_end(path, 2, false);
        let share = share_end(path, 2, false);
        if server > 2 && share > server {
            share
        } else {
            0
        }
    } else if has_drive_at(path, 0) {
        2
    } else {
        0
    }
}

/// The components from a character on. Empty ones don't count, and neither does `.` outside a
/// verbatim path, but for one at `lead`.
pub open spec fn names_from(path: Seq<char>, at: int, lead: int, verbatim: bool) -> Seq<Seq<char>>
    decreases path.len() + 1 - at,
{
    if at < 0 || at >= path.len() {
        Seq::empty()
    } else {
        let end = component_end(path, at, verbatim);
        if end < at || end > path.len() {
            Seq::empty()
        } else {
            let name = path.subrange(at, end);
            let rest = names_from(path, end + 1, lead, verbatim);
            if name.len() == 0 || (name == seq!['.'] && !verbatim && at != lead) {
                rest
            } else {
                seq![name] + rest
            }
        }
    }
}

/// A path's components.
pub open spec fn parts(path: Seq<char>) -> PathParts {
    let verbatim = starts_with(path, verbatim_prefix());
    let end = prefix_end(path);
    let front = path.take(end);
    let separated = end < path.len() && is_separator(path[end]);
    let rooted = separated || (is_network(path) && !verbatim && end > 0);
    PathParts {
        prefix: if is_verbatim_drive(path) {
            ascii_lowered(front)
        } else if verbatim {
            front
        } else if end == 2 {
            ascii_lowered(front)
        } else {
            with_backslashes(front)
        },
        rooted,
        names: names_from(
            path,
            if separated {
                end + 1
            } else {
                end
            },
            if rooted {
                -1
            } else {
                end
            },
            verbatim,
        ),
    }
}

/// Whether two paths have the same components. How they're separated doesn't count, nor a
/// separator at the end, nor the case of a drive; that of every other component does.
pub open spec fn same_components(a: Seq<char>, b: Seq<char>) -> bool {
    parts(a) == parts(b)
}

/// Where the component that starts at a character ends.
fn end_of(path: &Vec<char>, from: usize, verbatim: bool) -> (end: usize)
    requires
        from <= path.len(),
    ensures
        end == component_end(path@, from as int, verbatim),
        from <= end <= path.len(),
{
    let mut at: usize = from;
    while at < path.len() && path[at] != '\\' && (verbatim || path[at] != '/')
        invariant
            from <= at <= path.len(),
            component_end(path@, at as int, verbatim) == component_end(
                path@,
                from as int,
                verbatim,
            ),
        decreases path.len() - at,
    {
        at = at + 1;
    }
    at
}

/// Whether a character is a separator.
fn separator(c: char) -> (yes: bool)
    ensures
        yes == is_separator(c),
{
    c == '\\' || c == '/'
}

/// Whether a drive's letter and its colon stand at a character.
fn drive_at(path: &Vec<char>, at: usize) -> (yes: bool)
    requires
        at <= path.len(),
    ensures
        yes == has_drive_at(path@, at as int),
{
    path.len() - at >= 2 && 'a' <= lower(path[at]) && lower(path[at]) <= 'z' && path[at + 1] == ':'
}

/// Whether a path starts with `\\?\`.
fn verbatim(path: &Vec<char>) -> (yes: bool)
    ensures
        yes == starts_with(path@, verbatim_prefix()),
        yes ==> path.len() >= 4,
{
    let yes: bool = path.len() >= 4 && path[0] == '\\' && path[1] == '\\' && path[2] == '?' && path[3]
        == '\\';
    proof {
        if yes {
            assert(path@.take(4) =~= verbatim_prefix());
        } else if path.len() >= 4 {
            let front = path@.take(4);
            assert(front[0] == path[0] && front[1] == path[1] && front[2] == path[2] && front[3]
                == path[3]);
        }
    }
    yes
}

/// Where the share ends that follows the server at a character.
fn end_of_share(path: &Vec<char>, from: usize, verbatim: bool) -> (end: usize)
    requires
        from <= path.len(),
    ensures
        end == share_end(path@, from as int, verbatim),
        from <= end <= path.len(),
{
    let server: usize = end_of(path, from, verbatim);
    if server < path.len() {
        let share: usize = end_of(path, server + 1, verbatim);
        if share > server + 1 {
            return share;
        }
    }
    server
}

/// Where a path's prefix ends.
fn end_of_prefix(path: &Vec<char>) -> (end: usize)
    ensures
        end == prefix_end(path@),
        end <= path.len(),
{
    let len: usize = path.len();
    if verbatim(path) {
        if len >= 8 && path[4] == 'U' && path[5] == 'N' && path[6] == 'C' && path[7] == '\\' {
            return end_of_share(path, 8, true);
        }
        if drive_at(path, 4) && (len == 6 || separator(path[6])) {
            return 6;
        }
        return end_of(path, 4, true);
    }
    if len >= 2 && separator(path[0]) && separator(path[1]) {
        if len >= 4 && path[2] == '.' && separator(path[3]) {
            return end_of(path, 4, false);
        }
        let server: usize = end_of(path, 2, false);
        let share: usize = end_of_share(path, 2, false);
        return if server > 2 && share > server {
            share
        } else {
            0
        };
    }
    if drive_at(path, 0) {
        2
    } else {
        0
    }
}

/// A path's components, as they're compared.
struct Components {
    prefix: Vec<char>,
    rooted: bool,
    names: Vec<Vec<char>>,
}

/// The components from a character on.
fn read_names(path: &Vec<char>, from: usize, lead: Option<usize>, verbatim: bool) -> (names: Vec<
    Vec<char>,
>)
    requires
        from <= path.len(),
    ensures
        names@.map_values(|name: Vec<char>| name@) == names_from(
            path@,
            from as int,
            match lead {
                Some(lead) => lead as int,
                None => -1,
            },
            verbatim,
        ),
{
    let ghost at_lead: int = match lead {
        Some(lead) => lead as int,
        None => -1,
    };
    let ghost whole = names_from(path@, from as int, at_lead, verbatim);
    let mut names: Vec<Vec<char>> = Vec::new();
    let mut at: usize = from;
    assert(names@.map_values(|name: Vec<char>| name@) =~= Seq::empty());
    assert(Seq::<Seq<char>>::empty() + whole =~= whole);
    while at < path.len()
        invariant
            at <= path.len(),
            at_lead == match lead {
                Some(lead) => lead as int,
                None => -1,
            },
            whole == names@.map_values(|name: Vec<char>| name@) + names_from(
                path@,
                at as int,
                at_lead,
                verbatim,
            ),
        decreases path.len() - at,
    {
        let ghost before = names@.map_values(|name: Vec<char>| name@);
        let end: usize = end_of(path, at, verbatim);
        let name: Vec<char> = sub_chars(path, at, end);
        let here: bool = name.len() == 1 && name[0] == '.';
        assert(here == (name@ == seq!['.'])) by {
            if here {
                assert(name@ =~= seq!['.']);
            }
        }
        let leading: bool = match lead {
            Some(lead) => lead == at,
            None => false,
        };
        let ghost rest = names_from(path@, end + 1, at_lead, verbatim);
        if name.len() > 0 && !(here && !verbatim && !leading) {
            let ghost text = name@;
            names.push(name);
            assert(names@.map_values(|name: Vec<char>| name@) =~= before.push(text));
            assert(before + (seq![text] + rest) =~= before.push(text) + rest);
        }
        if end == path.len() {
            assert(rest =~= Seq::empty());
            assert(names_from(path@, path.len() as int, at_lead, verbatim) =~= Seq::empty());
            at = end;
        } else {
            at = end + 1;
        }
    }
    assert(names_from(path@, at as int, at_lead, verbatim) =~= Seq::empty());
    assert(names@.map_values(|name: Vec<char>| name@) =~= whole);
    names
}

/// Takes a path apart.
fn take_apart(path: &str) -> (components: Components)
    ensures
        components.prefix@ == parts(path@).prefix,
        components.rooted == parts(path@).rooted,
        components.names@.map_values(|name: Vec<char>| name@) == parts(path@).names,
{
    let chars: Vec<char> = chars_of(path);
    let len: usize = chars.len();
    let verbatim: bool = verbatim(&chars);
    let end: usize = end_of_prefix(&chars);
    let drive: bool = if verbatim {
        drive_at(&chars, 4) && (len == 6 || separator(chars[6]))
    } else {
        end == 2
    };
    let mut prefix: Vec<char> = Vec::new();
    let ghost wanted = parts(path@).prefix;
    for i in 0..end
        invariant
            end <= chars.len(),
            wanted == parts(chars@).prefix,
            end == prefix_end(chars@),
            wanted.len() == end,
            verbatim == starts_with(chars@, verbatim_prefix()),
            drive == (is_verbatim_drive(chars@) || (!verbatim && end == 2)),
            prefix@ == wanted.take(i as int),
    {
        let c: char = chars[i];
        if drive {
            prefix.push(lower(c));
        } else if !verbatim && c == '/' {
            prefix.push('\\');
        } else {
            prefix.push(c);
        }
        assert(prefix@ =~= wanted.take(i + 1));
    }
    assert(prefix@ =~= wanted);
    let separated: bool = end < len && separator(chars[end]);
    let network: bool = len >= 2 && separator(chars[0]) && separator(chars[1]);
    let rooted: bool = separated || (network && !verbatim && end > 0);
    let from: usize = if separated {
        end + 1
    } else {
        end
    };
    let lead: Option<usize> = if rooted {
        None
    } else {
        Some(end)
    };
    Components { prefix, rooted, names: read_names(&chars, from, lead, verbatim) }
}

/// Whether two lists hold the same texts.
fn same_names(a: &Vec<Vec<char>>, b: &Vec<Vec<char>>) -> (same: bool)
    ensures
        same == (a@.map_values(|name: Vec<char>| name@) == b@.map_values(|name: Vec<char>| name@)),
{
    let ghost left = a@.map_values(|name: Vec<char>| name@);
    let ghost right = b@.map_values(|name: Vec<char>| name@);
    if a.len() != b.len() {
        assert(left.len() != right.len());
        return false;
    }
    for i in 0..a.len()
        invariant
            a.len() == b.len(),
            left == a@.map_values(|name: Vec<char>| name@),
            right == b@.map_values(|name: Vec<char>| name@),
            forall|j: int| 0 <= j < i ==> left[j] == right[j],
    {
        if !same_chars(&a[i], &b[i]) {
            assert(left[i as int] != right[i as int]);
            return false;
        }
    }
    assert(left =~= right);
    true
}

/// Whether two paths have the same components.
pub fn components_match(a: &str, b: &str) -> (same: bool)
    ensures
        same == same_components(a@, b@),
{
    let left: Components = take_apart(a);
    let right: Components = take_apart(b);
    same_chars(&left.prefix, &right.prefix) && left.rooted == right.rooted && same_names(
        &left.names,
        &right.names,
    )
}

// ----- laws -----

/// The name at the end of a path holds no separator.
pub proof fn names_hold_no_separator(path: Seq<char>)
    ensures
        name_of(path) matches Some(name) ==> forall|i: int|
            0 <= i < name.len() ==> !is_separator(#[trigger] name[i]),
{
    lemma_component_bounds(path);
    let body = path.take(len_without_separators(path) as int);
    lemma_component_bounds(body);
    lemma_component_holds_no_separator(body);
}

proof fn lemma_component_holds_no_separator(s: Seq<char>)
    ensures
        forall|i: int| last_component_start(s) <= i < s.len() ==> !is_separator(#[trigger] s[i]),
    decreases s.len(),
{
    if s.len() > 0 && !is_separator(s.last()) {
        lemma_component_holds_no_separator(s.drop_last());
        assert forall|i: int| last_component_start(s) <= i < s.len() implies !is_separator(
            #[trigger] s[i],
        ) by {
            if i < s.len() - 1 {
                assert(s.drop_last()[i] == s[i]);
            }
        }
    }
}

/// The verbatim spelling of a path names the place that the plain one names, wherever it has a
/// plain one.
pub proof fn verbatim_paths_name_the_same_place(path: Seq<char>)
    requires
        has_drive_root(path),
        all_plain(path.skip(3)),
    ensures
        path_key(verbatim_prefix() + path) == path_key(path),
{
    let verbatim = verbatim_prefix() + path;
    assert(verbatim.take(4) =~= verbatim_prefix());
    assert(verbatim.skip(4) =~= path);
    assert(shell_form(verbatim) == Some(path));
    if starts_with(path, verbatim_prefix()) {
        assert(path.take(4)[1] == path[1]);
        assert(verbatim_prefix()[1] == '\\');
    }
}

/// A path that isn't verbatim is handed to the shell as it is.
pub proof fn ordinary_paths_stay(path: Seq<char>)
    requires
        !starts_with(path, verbatim_prefix()),
    ensures
        shell_form(path) == Some(path),
{
}

proof fn lemma_slashes_end_components(path: Seq<char>, from: int)
    requires
        0 <= from,
    ensures
        component_end(with_backslashes(path), from, false) == component_end(path, from, false),
        from <= component_end(path, from, false),
        from <= path.len() ==> component_end(path, from, false) <= path.len(),
        forall|i: int|
            from <= i < component_end(path, from, false) && i < path.len() ==> !is_separator(
                #[trigger] path[i],
            ),
    decreases path.len() - from,
{
    if from < path.len() && !separates(path[from], false) {
        lemma_slashes_end_components(path, from + 1);
    }
}

proof fn lemma_slashes_keep_names(path: Seq<char>, at: int, lead: int)
    ensures
        names_from(with_backslashes(path), at, lead, false) == names_from(path, at, lead, false),
    decreases path.len() + 1 - at,
{
    let slashed = with_backslashes(path);
    if 0 <= at < path.len() {
        lemma_slashes_end_components(path, at);
        let end = component_end(path, at, false);
        if end <= path.len() {
            lemma_slashes_keep_names(path, end + 1, lead);
            assert(slashed.subrange(at, end) =~= path.subrange(at, end));
        }
    }
}

/// Which way the separators of a path lean doesn't count.
pub proof fn slashes_do_not_count(path: Seq<char>)
    requires
        !starts_with(path, verbatim_prefix()),
        !starts_with(with_backslashes(path), verbatim_prefix()),
    ensures
        same_components(with_backslashes(path), path),
{
    let slashed = with_backslashes(path);
    lemma_slashes_end_components(path, 2);
    lemma_slashes_end_components(path, 4);
    lemma_slashes_end_components(path, component_end(path, 2, false) + 1);
    let end = prefix_end(path);
    assert(prefix_end(slashed) == end);
    lemma_slashes_keep_names(path, end, end);
    lemma_slashes_keep_names(path, end, -1);
    lemma_slashes_keep_names(path, end + 1, end);
    lemma_slashes_keep_names(path, end + 1, -1);
    assert(parts(slashed).prefix =~= parts(path).prefix) by {
        if end == 2 {
            assert(has_drive_at(path, 0));
            assert(slashed.take(2) =~= path.take(2));
        } else if 0 <= end <= path.len() {
            assert(with_backslashes(slashed.take(end)) =~= with_backslashes(path.take(end)));
        }
    }
    assert(parts(slashed).rooted == parts(path).rooted);
    assert(parts(slashed).names == parts(path).names);
}

proof fn lemma_separators_are_cut(s: Seq<char>, end: int)
    requires
        0 <= end <= s.len(),
        end == 0 || !is_separator(s[end - 1]),
        forall|i: int| end <= i < s.len() ==> is_separator(#[trigger] s[i]),
    ensures
        len_without_separators(s) == end,
    decreases s.len(),
{
    if s.len() > end {
        assert(is_separator(s[s.len() - 1]));
        lemma_separators_are_cut(s.drop_last(), end);
    }
}

proof fn lemma_component_starts(s: Seq<char>, start: int)
    requires
        0 <= start <= s.len(),
        start == 0 || is_separator(s[start - 1]),
        forall|i: int| start <= i < s.len() ==> !is_separator(#[trigger] s[i]),
    ensures
        last_component_start(s) == start,
    decreases s.len(),
{
    if s.len() > start {
        assert(!is_separator(s[s.len() - 1]));
        lemma_component_starts(s.drop_last(), start);
    }
}

/// The name of a path is what stands between its last separators, where those at the very end
/// don't count. A drive, `.` and `..` are no names, and neither is nothing.
pub proof fn names_stand_between_the_last_separators(
    path: &str,
    name: Option<String>,
    start: int,
    end: int,
)
    requires
        call_ensures(file_name, (path,), name),
        0 <= start <= end <= path@.len(),
        start == 0 || path@[start - 1] == '\\' || path@[start - 1] == '/',
        forall|i: int|
            start <= i < end ==> #[trigger] path@[i] != '\\' && path@[i] != '/',
        forall|i: int|
            end <= i < path@.len() ==> #[trigger] path@[i] == '\\' || path@[i] == '/',
        start < end || end == 0,
    ensures
        name is None <==> ({
            ||| start == end
            ||| end - start == 1 && path@[start] == '.'
            ||| end - start == 2 && path@[start] == '.' && path@[start + 1] == '.'
            ||| end - start == 2 && path@[start + 1] == ':'
        }),
        name matches Some(name) ==> name@ == path@.subrange(start, end),
{
    lemma_separators_are_cut(path@, end);
    let body = path@.take(end);
    lemma_component_starts(body, start);
    let component = path@.subrange(start, end);
    assert(body.skip(start) =~= component);
    if end - start == 1 && path@[start] == '.' {
        assert(component =~= seq!['.']);
    }
    if end - start == 2 && path@[start] == '.' && path@[start + 1] == '.' {
        assert(component =~= seq!['.', '.']);
    }
    if component == seq!['.'] {
        assert(component[0] == '.');
    }
    if component == seq!['.', '.'] {
        assert(component[0] == '.' && component[1] == '.');
    }
    if end - start == 2 {
        assert(component[1] == path@[start + 1]);
    }
}

/// Whether a path starts with two backslashes, a question mark and another backslash.
pub open spec fn is_literal(path: Seq<char>) -> bool {
    path.len() >= 4 && path[0] == '\\' && path[1] == '\\' && path[2] == '?' && path[3] == '\\'
}

proof fn lemma_literal(path: Seq<char>)
    ensures
        starts_with(path, verbatim_prefix()) == is_literal(path),
{
    if path.len() >= 4 {
        let front = path.take(4);
        assert(front[0] == path[0] && front[1] == path[1] && front[2] == path[2] && front[3]
            == path[3]);
        if is_literal(path) {
            assert(front =~= verbatim_prefix());
        }
    }
}

/// Whether two characters of a path count as the same: both are separators, or one is the capital
/// of the other.
pub open spec fn alike(a: char, b: char) -> bool {
    ||| a == b
    ||| a == '/' && b == '\\'
    ||| a == '\\' && b == '/'
    ||| 'A' <= a <= 'Z' && b as int == a as int + 32
    ||| 'A' <= b <= 'Z' && a as int == b as int + 32
}

/// The key of an ordinary ASCII path is the path in lower case, its slashes turned back.
pub proof fn keys_are_lower_case_with_backslashes(path: &str, key: String, i: int)
    requires
        call_ensures(self::key, (path,), key),
        is_ascii_text(path@),
        !is_literal(path@),
        0 <= i < path@.len(),
    ensures
        key@.len() == path@.len(),
        path@[i] == '/' ==> key@[i] == '\\',
        'A' <= path@[i] <= 'Z' ==> key@[i] as int == path@[i] as int + 32,
        path@[i] != '/' && !('A' <= path@[i] <= 'Z') ==> key@[i] == path@[i],
{
    lemma_literal(path@);
    assert(displayed(path@) == path@);
    let slashed = with_backslashes(path@);
    assert(key@ == ascii_lowered(slashed));
    assert(key@.len() == path@.len());
    assert(key@[i] == ascii_lower(slashed[i]));
}

/// Two ordinary ASCII paths name the same place exactly where they agree character by character,
/// but for case and the way that separators lean.
pub proof fn case_and_slant_do_not_count(
    a: &str,
    b: &str,
    a_key: String,
    b_key: String,
    same: bool,
)
    requires
        call_ensures(same_path, (a, b), same),
        call_ensures(key, (a,), a_key),
        call_ensures(key, (b,), b_key),
        is_ascii_text(a@),
        is_ascii_text(b@),
        !is_literal(a@),
        !is_literal(b@),
    ensures
        same <==> a@.len() == b@.len() && forall|i: int|
            0 <= i < a@.len() ==> alike(#[trigger] a@[i], b@[i]),
{
    lemma_literal(a@);
    lemma_literal(b@);
    let left = with_backslashes(a@);
    let right = with_backslashes(b@);
    assert(a_key@ == ascii_lowered(left) && b_key@ == ascii_lowered(right));
    assert(same == (a_key@ == b_key@));
    assert(a_key@.len() == a@.len() && b_key@.len() == b@.len());
    if a@.len() == b@.len() {
        assert forall|i: int| 0 <= i < a@.len() implies (a_key@[i] == b_key@[i]) == alike(
            #[trigger] a@[i],
            b@[i],
        ) by {
            assert(a_key@[i] == ascii_lower(left[i]));
            assert(b_key@[i] == ascii_lower(right[i]));
        }
        if forall|i: int| 0 <= i < a@.len() ==> alike(#[trigger] a@[i], b@[i]) {
            assert(a_key@ =~= b_key@);
        }
        if same {
            assert forall|i: int| 0 <= i < a@.len() implies alike(#[trigger] a@[i], b@[i]) by {
                assert(a_key@[i] == b_key@[i]);
            }
        }
    }
}

/// A path names the place that it names itself.
pub proof fn a_path_names_its_own_place(a: &str, b: &str, there: bool, back: bool)
    requires
        call_ensures(same_path, (a, b), there),
        call_ensures(same_path, (b, a), back),
    ensures
        a@ == b@ ==> there,
        there == back,
{
}

// ----- what the shell takes -----

/// Whether a text holds a whole component between two of its characters. What follows a
/// separator at the very end is none.
pub open spec fn is_component(rest: Seq<char>, from: int, to: int) -> bool {
    &&& 0 <= from <= to <= rest.len()
    &&& from < rest.len()
    &&& from == 0 || rest[from - 1] == '\\'
    &&& to == rest.len() || rest[to] == '\\'
    &&& forall|i: int| from <= i < to ==> #[trigger] rest[i] != '\\'
}

/// Whether a component means the same to Windows with and without a literal prefix: it isn't
/// empty, doesn't end in a dot or a space, and isn't the name of a device, with or without an
/// extension.
pub open spec fn is_ordinary(component: Seq<char>) -> bool {
    &&& component.len() > 0
    &&& component.last() != '.'
    &&& component.last() != ' '
    &&& forall|dot: int|
        0 <= dot <= component.len() && (dot == component.len() || component[dot] == '.') && (forall|
            i: int,
        |
            0 <= i < dot ==> #[trigger] component[i] != '.') ==> !names_a_device(
            #[trigger] component.take(dot),
        )
}

/// Whether a word names a device, in capitals or not: `con`, `prn`, `aux`, `nul`, or `com` or
/// `lpt` and a digit but zero.
pub open spec fn names_a_device(word: Seq<char>) -> bool {
    let low = ascii_lowered(word);
    ||| low.len() == 3 && low[0] == 'c' && low[1] == 'o' && low[2] == 'n'
    ||| low.len() == 3 && low[0] == 'p' && low[1] == 'r' && low[2] == 'n'
    ||| low.len() == 3 && low[0] == 'a' && low[1] == 'u' && low[2] == 'x'
    ||| low.len() == 3 && low[0] == 'n' && low[1] == 'u' && low[2] == 'l'
    ||| low.len() == 4 && low[0] == 'c' && low[1] == 'o' && low[2] == 'm' && '1' <= low[3] <= '9'
    ||| low.len() == 4 && low[0] == 'l' && low[1] == 'p' && low[2] == 't' && '1' <= low[3] <= '9'
}

proof fn lemma_device(word: Seq<char>)
    ensures
        is_device(ascii_lowered(word)) == names_a_device(word),
{
    let low = ascii_lowered(word);
    if low.len() == 3 {
        if names_a_device(word) {
            assert(low =~= seq!['c', 'o', 'n'] || low =~= seq!['p', 'r', 'n'] || low =~= seq![
                'a',
                'u',
                'x',
            ] || low =~= seq!['n', 'u', 'l']);
        }
    } else if low.len() == 4 {
        let front = low.take(3);
        assert(front[0] == low[0] && front[1] == low[1] && front[2] == low[2]);
        if names_a_device(word) {
            assert(front =~= seq!['c', 'o', 'm'] || front =~= seq!['l', 'p', 't']);
        }
    }
}

proof fn lemma_ordinary(component: Seq<char>)
    ensures
        is_plain(component) == is_ordinary(component),
{
    component.index_of_first_ensures('.');
    let end = match component.index_of_first('.') {
        Some(i) => i,
        None => component.len() as int,
    };
    assert(0 <= end <= component.len());
    assert(end == component.len() || component[end] == '.');
    assert(forall|i: int| 0 <= i < end ==> #[trigger] component[i] != '.');
    let word = component.take(end);
    if end == component.len() {
        assert(word =~= component);
    }
    lemma_device(word);
    assert(stem(component) == ascii_lowered(word));
    assert forall|dot: int|
        0 <= dot <= component.len() && (dot == component.len() || component[dot] == '.') && (forall|
            i: int,
        |
            0 <= i < dot ==> #[trigger] component[i] != '.') implies #[trigger] component.take(dot)
        == word by {
        if dot < end {
            assert(component[dot] != '.');
        }
        if dot > end {
            assert(component[end] != '.');
        }
    }
}

proof fn lemma_all_plain(rest: Seq<char>)
    ensures
        all_plain(rest) == (forall|from: int, to: int| #[trigger]
            is_component(rest, from, to) ==> is_ordinary(rest.subrange(from, to))),
    decreases rest.len(),
{
    let every = forall|from: int, to: int| #[trigger]
        is_component(rest, from, to) ==> is_ordinary(rest.subrange(from, to));
    if rest.len() > 0 {
        rest.index_of_first_ensures('\\');
        match rest.index_of_first('\\') {
            None => {
                assert(is_component(rest, 0, rest.len() as int));
                assert(rest.subrange(0, rest.len() as int) =~= rest);
                lemma_ordinary(rest);
                assert forall|from: int, to: int| #[trigger] is_component(rest, from, to) implies
                    rest.subrange(from, to) == rest by {
                    if from > 0 {
                        assert(rest.contains('\\'));
                    }
                    if to < rest.len() {
                        assert(rest.contains('\\'));
                    }
                }
            },
            Some(i) => {
                let tail = rest.skip(i + 1);
                lemma_all_plain(tail);
                lemma_ordinary(rest.take(i));
                assert(rest.subrange(0, i) =~= rest.take(i));
                assert(is_component(rest, 0, i));
                if every {
                    assert forall|from: int, to: int| #[trigger]
                        is_component(tail, from, to) implies is_ordinary(
                        tail.subrange(from, to),
                    ) by {
                        if from > 0 {
                            assert(rest[from + i] == tail[from - 1]);
                        }
                        if to < tail.len() {
                            assert(rest[to + i + 1] == tail[to]);
                        }
                        assert forall|j: int|
                            from + i + 1 <= j < to + i + 1 implies #[trigger] rest[j] != '\\' by {
                            assert(tail[j - i - 1] == rest[j]);
                        }
                        assert(is_component(rest, from + i + 1, to + i + 1));
                        assert(rest.subrange(from + i + 1, to + i + 1) =~= tail.subrange(from, to));
                    }
                }
                if all_plain(rest) {
                    assert forall|from: int, to: int| #[trigger]
                        is_component(rest, from, to) implies is_ordinary(
                        rest.subrange(from, to),
                    ) by {
                        if from == 0 {
                            if to < i {
                                assert(rest[to] != '\\');
                            }
                            if to > i {
                                assert(rest[i] == '\\');
                            }
                            assert(to == i);
                        } else {
                            if from - 1 < i {
                                assert(rest[from - 1] != '\\');
                            }
                            let f = from - i - 1;
                            let t = to - i - 1;
                            if f > 0 {
                                assert(tail[f - 1] == rest[from - 1]);
                            }
                            if t < tail.len() {
                                assert(tail[t] == rest[to]);
                            }
                            assert forall|j: int| f <= j < t implies #[trigger] tail[j] != '\\' by {
                                assert(tail[j] == rest[j + i + 1]);
                            }
                            assert(is_component(tail, f, t));
                            assert(tail.subrange(f, t) =~= rest.subrange(from, to));
                        }
                    }
                }
            },
        }
    }
}

/// The shell takes a path as it stands, but for one with the literal prefix: that's taken without
/// it where it starts at a drive's root and every component below means the same either way, and
/// else not at all. A path is shown in the form that the shell takes, or as it stands.
pub proof fn literal_prefixes_go_where_they_may(
    path: &str,
    shell: Option<String>,
    shown: String,
)
    requires
        call_ensures(shell_path, (path,), shell),
        call_ensures(display, (path,), shown),
    ensures
        !is_literal(path@) ==> shell is Some && shell->0@ == path@,
        is_literal(path@) ==> (shell is Some <==> ({
            let rest = path@.skip(4);
            &&& rest.len() >= 3
            &&& 'a' <= rest[0] <= 'z' || 'A' <= rest[0] <= 'Z'
            &&& rest[1] == ':'
            &&& rest[2] == '\\'
            &&& forall|from: int, to: int| #[trigger]
                is_component(rest.skip(3), from, to) ==> is_ordinary(
                    rest.skip(3).subrange(from, to),
                )
        })),
        is_literal(path@) && shell is Some ==> shell->0@ == path@.skip(4),
        shell matches Some(shell) ==> shown@ == shell@,
        shell is None ==> shown@ == path@,
{
    lemma_literal(path@);
    if is_literal(path@) {
        lemma_all_plain(path@.skip(4).skip(3));
    }
}

// ----- what components are -----

proof fn lemma_component_end(path: Seq<char>, from: int, to: int)
    requires
        0 <= from <= to <= path.len(),
        forall|i: int| from <= i < to ==> !is_separator(#[trigger] path[i]),
        to == path.len() || is_separator(path[to]),
    ensures
        component_end(path, from, false) == to,
    decreases to - from,
{
    if from < to {
        lemma_component_end(path, from + 1, to);
    }
}

proof fn lemma_more_names(path: Seq<char>, at: int, separator: char, name: Seq<char>)
    requires
        0 <= at <= path.len(),
        is_separator(separator),
        forall|i: int| 0 <= i < name.len() ==> !is_separator(#[trigger] name[i]),
    ensures
        ({
            let longer = path.push(separator) + name;
            names_from(longer, at, -1, false) == if name.len() == 0 || name == seq!['.'] {
                names_from(path, at, -1, false)
            } else {
                names_from(path, at, -1, false).push(name)
            }
        }),
    decreases path.len() - at,
{
    let longer = path.push(separator) + name;
    let len = path.len() as int;
    lemma_slashes_end_components(path, at);
    let end = component_end(path, at, false);
    lemma_component_stops(path, at);
    assert forall|i: int| at <= i < end implies !is_separator(#[trigger] longer[i]) by {
        assert(longer[i] == path[i]);
    }
    if end < len {
        assert(longer[end] == path[end]);
        lemma_component_end(longer, at, end);
        assert(longer.subrange(at, end) =~= path.subrange(at, end));
        lemma_more_names(path, end + 1, separator, name);
        let rest = names_from(path, end + 1, -1, false);
        let component = path.subrange(at, end);
        assert((seq![component] + rest).push(name) =~= seq![component] + rest.push(name));
    } else {
        assert(end == len);
        assert(longer[len] == separator);
        lemma_component_end(longer, at, len);
        assert(longer.subrange(at, len) =~= path.subrange(at, len));
        assert forall|i: int| len + 1 <= i < longer.len() implies !is_separator(
            #[trigger] longer[i],
        ) by {
            assert(longer[i] == name[i - len - 1]);
        }
        lemma_component_end(longer, len + 1, longer.len() as int);
        assert(longer.subrange(len + 1, longer.len() as int) =~= name);
        let past = names_from(longer, longer.len() as int + 1, -1, false);
        assert(past =~= Seq::empty());
        let last = names_from(longer, len + 1, -1, false);
        assert(last =~= if name.len() == 0 || name == seq!['.'] {
            Seq::empty()
        } else {
            seq![name]
        });
        let none = names_from(path, len + 1, -1, false);
        assert(none =~= Seq::empty());
        let component = path.subrange(at, len);
        if at < len {
            assert(names_from(path, at, -1, false) =~= if component == seq!['.'] {
                Seq::empty()
            } else {
                seq![component]
            });
            assert(names_from(longer, at, -1, false) =~= if component == seq!['.'] {
                last
            } else {
                seq![component] + last
            });
        } else {
            assert(names_from(path, at, -1, false) =~= Seq::empty());
            assert(names_from(longer, at, -1, false) =~= last);
        }
        if name.len() > 0 && name != seq!['.'] {
            assert(names_from(path, at, -1, false).push(name) =~= names_from(path, at, -1, false)
                + seq![name]);
        }
        assert(names_from(longer, at, -1, false) =~= if name.len() == 0 || name == seq!['.'] {
            names_from(path, at, -1, false)
        } else {
            names_from(path, at, -1, false).push(name)
        });
    }
}

proof fn lemma_component_stops(path: Seq<char>, from: int)
    requires
        0 <= from <= path.len(),
    ensures
        ({
            let end = component_end(path, from, false);
            end == path.len() || (from <= end < path.len() && is_separator(path[end]))
        }),
    decreases path.len() - from,
{
    if from < path.len() && !separates(path[from], false) {
        lemma_component_stops(path, from + 1);
    }
}

/// Whether a path starts at the root of a drive.
pub open spec fn starts_at_a_drive(path: Seq<char>) -> bool {
    &&& path.len() >= 3
    &&& 'a' <= path[0] <= 'z' || 'A' <= path[0] <= 'Z'
    &&& path[1] == ':'
    &&& path[2] == '\\' || path[2] == '/'
}

proof fn lemma_drive_parts(path: Seq<char>)
    requires
        starts_at_a_drive(path),
    ensures
        parts(path).prefix == seq![ascii_lower(path[0]), ':'],
        parts(path).rooted,
        parts(path).names == names_from(path, 3, -1, false),
{
    lemma_literal(path);
    assert(prefix_end(path) == 2);
    assert(ascii_lowered(path.take(2)) =~= seq![ascii_lower(path[0]), ':']);
}

/// One more component below a drive is one more component: two longer paths match exactly where
/// the shorter ones do and what was added is the same, capitals and all. A separator at the end,
/// or a `.`, adds nothing.
pub proof fn one_more_component(
    a: &str,
    b: &str,
    matching: bool,
    longer_a: &str,
    longer_b: &str,
    still: bool,
    separator_a: char,
    name_a: Seq<char>,
    separator_b: char,
    name_b: Seq<char>,
    closed: &str,
    unchanged: bool,
)
    requires
        call_ensures(components_match, (a, b), matching),
        call_ensures(components_match, (longer_a, longer_b), still),
        call_ensures(components_match, (a, closed), unchanged),
        starts_at_a_drive(a@),
        starts_at_a_drive(b@),
        separator_a == '\\' || separator_a == '/',
        separator_b == '\\' || separator_b == '/',
        forall|i: int|
            0 <= i < name_a.len() ==> #[trigger] name_a[i] != '\\' && name_a[i] != '/',
        forall|i: int|
            0 <= i < name_b.len() ==> #[trigger] name_b[i] != '\\' && name_b[i] != '/',
        name_a.len() > 0 && name_a != seq!['.'],
        name_b.len() > 0 && name_b != seq!['.'],
        longer_a@ == a@.push(separator_a) + name_a,
        longer_b@ == b@.push(separator_b) + name_b,
        closed@ == a@.push(separator_a) || closed@ == a@.push(separator_a) + seq!['.'],
    ensures
        still <==> matching && name_a == name_b,
        unchanged,
{
    lemma_drive_parts(a@);
    lemma_drive_parts(b@);
    lemma_drive_parts(longer_a@);
    lemma_drive_parts(longer_b@);
    lemma_drive_parts(closed@);
    lemma_more_names(a@, 3, separator_a, name_a);
    lemma_more_names(b@, 3, separator_b, name_b);
    let left = parts(a@).names;
    let right = parts(b@).names;
    if left.push(name_a) == right.push(name_b) {
        assert(left.push(name_a).last() == name_a && right.push(name_b).last() == name_b);
        assert(left.push(name_a).drop_last() =~= left && right.push(name_b).drop_last() =~= right);
    }
    lemma_more_names(a@, 3, separator_a, Seq::empty());
    lemma_more_names(a@, 3, separator_a, seq!['.']);
    assert(a@.push(separator_a) + Seq::<char>::empty() =~= a@.push(separator_a));
    assert(parts(closed@) =~= parts(a@));
}

/// The roots of two drives match where the drives are the same, in capitals or not.
pub proof fn drives_match_whatever_their_case(a: &str, b: &str, matching: bool)
    requires
        call_ensures(components_match, (a, b), matching),
        starts_at_a_drive(a@),
        starts_at_a_drive(b@),
        a@.len() == 3,
        b@.len() == 3,
    ensures
        matching <==> alike(a@[0], b@[0]),
{
    lemma_drive_parts(a@);
    lemma_drive_parts(b@);
    let left = parts(a@).prefix;
    let right = parts(b@).prefix;
    assert(left[0] == ascii_lower(a@[0]) && right[0] == ascii_lower(b@[0]));
    assert(parts(a@).names =~= Seq::empty() && parts(b@).names =~= Seq::empty());
    if alike(a@[0], b@[0]) {
        assert(left =~= right);
        assert(parts(a@) =~= parts(b@));
    }
}

} // verus!
