//! File paths as Unix and Windows write them, and the names of the files that
//! a run writes beside its output.
use vstd::prelude::*;

use crate::text::{chars_of, text_of};

verus! {

/// `std::path::is_separator` tells whether a character separates the
/// components of a path on the machine that the program runs on. A slash does
/// on each. Whether a backslash does is not told: it depends on the machine.
pub assume_specification[ std::path::is_separator ](c: char) -> (r: bool)
    ensures
        c == '/' ==> r,
;

/// How a machine writes paths.
#[derive(Clone, Copy, Debug, PartialEq, Eq, Structural)]
pub enum Style {
    /// Components stand between slashes.
    Unix,
    /// Components stand between slashes or backslashes, and a drive or a
    /// share may stand before them.
    Windows,
}

impl Style {
    /// Whether a character stands between components.
    pub open spec fn separates(self, c: char) -> bool {
        c == '/' || (self == Style::Windows && c == '\\')
    }

    /// The separator that is written before a new component.
    pub open spec fn separator(self) -> char {
        match self {
            Style::Unix => '/',
            Style::Windows => '\\',
        }
    }

    fn is_separator(self, c: char) -> (r: bool)
        ensures
            r == self.separates(c),
    {
        c == '/' || (self == Style::Windows && c == '\\')
    }
}

/// The style of the machine that the program runs on: that of Windows where
/// a backslash separates.
pub(crate) fn machine_style() -> Style {
    if std::path::is_separator('\\') {
        Style::Windows
    } else {
        Style::Unix
    }
}

/// Whether a path begins with a drive, as in `C:`.
pub open spec fn names_drive(path: Seq<char>) -> bool {
    &&& path.len() >= 2
    &&& 'a' <= path[0] <= 'z' || 'A' <= path[0] <= 'Z'
    &&& path[1] == ':'
}

/// Where the component of a Windows path that begins at `from` ends.
pub open spec fn piece_end(path: Seq<char>, from: int) -> int
    decreases path.len() - from,
{
    if from < path.len() && !Style::Windows.separates(path[from]) {
        piece_end(path, from + 1)
    } else {
        from
    }
}

/// Where the share at the beginning of a Windows path ends, as in
/// `\\server\share`, or 0 when there is none. The prefixes `\\?\x` and
/// `\\.\x` are read in the same way.
pub open spec fn share_end(path: Seq<char>) -> int {
    let server = piece_end(path, 2);
    let share = piece_end(path, server + 1);
    if path.len() >= 2 && Style::Windows.separates(path[0]) && Style::Windows.separates(path[1])
        && 2 < server < path.len() && server + 1 < share {
        share
    } else {
        0
    }
}

/// Where the drive or the share at the beginning of a path ends.
pub open spec fn prefix_end(style: Style, path: Seq<char>) -> int {
    match style {
        Style::Unix => 0,
        Style::Windows => if names_drive(path) {
            2
        } else {
            share_end(path)
        },
    }
}

/// Where the components of a path begin: behind its prefix and its root.
pub open spec fn body_begin(style: Style, path: Seq<char>) -> int {
    let prefix = prefix_end(style, path);
    if prefix < path.len() && style.separates(path[prefix]) {
        prefix + 1
    } else {
        prefix
    }
}

/// Where the last component of `path[from..end]` ends: trailing separators,
/// and trailing `.` components behind a separator, do not count.
pub open spec fn last_end(style: Style, path: Seq<char>, from: int, end: int) -> int
    decreases end - from,
{
    if from < end && style.separates(path[end - 1]) {
        last_end(style, path, from, end - 1)
    } else if from < end && end >= 2 && path[end - 1] == '.' && style.separates(path[end - 2]) {
        last_end(style, path, from, end - 1)
    } else {
        end
    }
}

/// Where the component that ends at `end` begins: after the last separator.
pub open spec fn last_begin(style: Style, path: Seq<char>, from: int, end: int) -> int
    decreases end - from,
{
    if end <= from || style.separates(path[end - 1]) {
        end
    } else {
        last_begin(style, path, from, end - 1)
    }
}

/// Where the last component of a path ends.
pub open spec fn name_end(style: Style, path: Seq<char>) -> int {
    last_end(style, path, body_begin(style, path), path.len() as int)
}

/// Where the last component of a path begins.
pub open spec fn name_begin(style: Style, path: Seq<char>) -> int {
    last_begin(style, path, body_begin(style, path), name_end(style, path))
}

/// The last component of a path, empty when there is none.
pub open spec fn last_component(style: Style, path: Seq<char>) -> Seq<char> {
    path.subrange(name_begin(style, path), name_end(style, path))
}

/// The file name of a path: its last component, unless that names a
/// directory by dots.
pub open spec fn file_name(style: Style, path: Seq<char>) -> Option<Seq<char>> {
    let name = last_component(style, path);
    if name.len() == 0 || name == seq!['.'] || name == seq!['.', '.'] {
        None
    } else {
        Some(name)
    }
}

/// Where the last dot of `name[..end]` stands, or -1.
pub open spec fn last_dot(name: Seq<char>, end: int) -> int
    decreases end,
{
    if end <= 0 {
        -1
    } else if name[end - 1] == '.' {
        end - 1
    } else {
        last_dot(name, end - 1)
    }
}

/// A file name without its extension. A name whose only dot comes first has
/// none.
pub open spec fn stem(name: Seq<char>) -> Seq<char> {
    let dot = last_dot(name, name.len() as int);
    if dot <= 0 {
        name
    } else {
        name.take(dot)
    }
}

/// The extension of a file name: what follows its last dot.
pub open spec fn extension(name: Seq<char>) -> Option<Seq<char>> {
    let dot = last_dot(name, name.len() as int);
    if dot <= 0 {
        None
    } else {
        Some(name.skip(dot + 1))
    }
}

/// The directory that a path's file stands in, or the path itself when it
/// has no file name. The root stays the root.
pub open spec fn directory(style: Style, path: Seq<char>) -> Seq<char> {
    if file_name(style, path) is None {
        path
    } else {
        path.take(last_end(style, path, body_begin(style, path), name_begin(style, path)))
    }
}

/// Whether a name behind a directory needs a separator before it: not behind
/// another, and not behind a bare drive.
pub open spec fn needs_separator(style: Style, dir: Seq<char>) -> bool {
    &&& dir.len() > 0
    &&& !style.separates(dir.last())
    &&& !(style == Style::Windows && dir.len() == 2 && names_drive(dir))
}

/// The path of `name` beside the file of `path`. A name that begins with a
/// drive is a path of its own.
pub open spec fn sibling(style: Style, path: Seq<char>, name: Seq<char>) -> Seq<char> {
    let dir = directory(style, path);
    if prefix_end(style, name) > 0 {
        name
    } else if needs_separator(style, dir) {
        dir.push(style.separator()) + name
    } else {
        dir + name
    }
}

/// The stem of a path's file name, or `other` when it has no file name.
pub open spec fn stem_or(style: Style, path: Seq<char>, other: Seq<char>) -> Seq<char> {
    match file_name(style, path) {
        Some(name) => stem(name),
        None => other,
    }
}

/// The extension of a path's file name, or `other` when it has none.
pub open spec fn extension_or(style: Style, path: Seq<char>, other: Seq<char>) -> Seq<char> {
    match file_name(style, path) {
        Some(name) => match extension(name) {
            Some(ext) => ext,
            None => other,
        },
        None => other,
    }
}

/// Where the weights of an output go: `<stem>_weights.<ext>` beside it, with
/// `output` and `csv` where the output names neither.
pub open spec fn weights_beside(style: Style, output: Seq<char>) -> Seq<char> {
    sibling(
        style,
        output,
        stem_or(style, output, "output"@) + "_weights."@ + extension_or(style, output, "csv"@),
    )
}

/// Where the summary of an output goes: `<stem>_summary.json` beside it, with
/// `output` where the output names no file.
pub open spec fn summary_beside(style: Style, output: Seq<char>) -> Seq<char> {
    sibling(style, output, stem_or(style, output, "output"@) + "_summary.json"@)
}

proof fn piece_end_is_within(path: Seq<char>, from: int)
    ensures
        from <= piece_end(path, from),
        from <= path.len() ==> piece_end(path, from) <= path.len(),
    decreases path.len() - from,
{
    if from < path.len() && !Style::Windows.separates(path[from]) {
        piece_end_is_within(path, from + 1);
    }
}

proof fn body_begin_is_within(style: Style, path: Seq<char>)
    ensures
        0 <= prefix_end(style, path) <= body_begin(style, path) <= path.len(),
{
    piece_end_is_within(path, 2);
    piece_end_is_within(path, piece_end(path, 2) + 1);
}

proof fn last_end_is_within(style: Style, path: Seq<char>, from: int, end: int)
    requires
        0 <= from <= end <= path.len(),
    ensures
        from <= last_end(style, path, from, end) <= end,
    decreases end - from,
{
    if from < end && style.separates(path[end - 1]) {
        last_end_is_within(style, path, from, end - 1);
    } else if from < end && end >= 2 && path[end - 1] == '.' && style.separates(path[end - 2]) {
        last_end_is_within(style, path, from, end - 1);
    }
}

proof fn last_begin_is_within(style: Style, path: Seq<char>, from: int, end: int)
    requires
        0 <= from <= end <= path.len(),
    ensures
        from <= last_begin(style, path, from, end) <= end,
    decreases end - from,
{
    if from < end && !style.separates(path[end - 1]) {
        last_begin_is_within(style, path, from, end - 1);
    }
}

fn begins_with_drive(path: &Vec<char>) -> (r: bool)
    ensures
        r == names_drive(path@),
{
    path.len() >= 2 && (('a' <= path[0] && path[0] <= 'z') || ('A' <= path[0] && path[0] <= 'Z'))
        && path[1] == ':'
}

fn find_piece_end(path: &Vec<char>, from: usize) -> (r: usize)
    requires
        from <= path.len(),
    ensures
        r == piece_end(path@, from as int),
        from <= r <= path.len(),
{
    let mut end: usize = from;
    while end < path.len() && !Style::Windows.is_separator(path[end])
        invariant
            from <= end <= path.len(),
            piece_end(path@, end as int) == piece_end(path@, from as int),
        decreases path.len() - end,
    {
        end += 1;
    }
    end
}

fn find_share_end(path: &Vec<char>) -> (r: usize)
    ensures
        r == share_end(path@),
{
    let size: usize = path.len();
    if size < 2 || !Style::Windows.is_separator(path[0]) || !Style::Windows.is_separator(path[1]) {
        return 0;
    }
    let server = find_piece_end(path, 2);
    if server == 2 || server == size {
        return 0;
    }
    let share = find_piece_end(path, server + 1);
    if share == server + 1 {
        0
    } else {
        share
    }
}

fn find_prefix_end(style: Style, path: &Vec<char>) -> (r: usize)
    ensures
        r == prefix_end(style, path@),
{
    match style {
        Style::Unix => 0,
        Style::Windows => if begins_with_drive(path) {
            2
        } else {
            find_share_end(path)
        },
    }
}

fn find_body(style: Style, path: &Vec<char>) -> (r: usize)
    ensures
        r == body_begin(style, path@),
        r <= path.len(),
{
    proof {
        body_begin_is_within(style, path@);
    }
    let prefix = find_prefix_end(style, path);
    if prefix < path.len() && style.is_separator(path[prefix]) {
        prefix + 1
    } else {
        prefix
    }
}

fn find_end(style: Style, path: &Vec<char>, from: usize, to: usize) -> (r: usize)
    requires
        from <= to <= path.len(),
    ensures
        r == last_end(style, path@, from as int, to as int),
        from <= r <= to,
{
    let mut end: usize = to;
    loop
        invariant
            from <= end <= to <= path.len(),
            last_end(style, path@, from as int, end as int) == last_end(
                style,
                path@,
                from as int,
                to as int,
            ),
        ensures
            end == last_end(style, path@, from as int, to as int),
            from <= end <= to,
        decreases end,
    {
        if from < end && style.is_separator(path[end - 1]) {
            end -= 1;
        } else if from < end && end >= 2 && path[end - 1] == '.' && style.is_separator(
            path[end - 2],
        ) {
            end -= 1;
        } else {
            break;
        }
    }
    end
}

fn find_begin(style: Style, path: &Vec<char>, from: usize, end: usize) -> (r: usize)
    requires
        from <= end <= path.len(),
    ensures
        r == last_begin(style, path@, from as int, end as int),
        from <= r <= end,
{
    let mut begin: usize = end;
    while begin > from && !style.is_separator(path[begin - 1])
        invariant
            from <= begin <= end <= path.len(),
            last_begin(style, path@, from as int, begin as int) == last_begin(
                style,
                path@,
                from as int,
                end as int,
            ),
        decreases begin,
    {
        begin -= 1;
    }
    begin
}

fn find_dot(name: &Vec<char>) -> (r: Option<usize>)
    ensures
        match r {
            Some(at) => at == last_dot(name@, name@.len() as int) && at < name@.len(),
            None => last_dot(name@, name@.len() as int) == -1,
        },
{
    let mut end: usize = name.len();
    while end > 0
        invariant
            end <= name.len(),
            last_dot(name@, end as int) == last_dot(name@, name@.len() as int),
        decreases end,
    {
        if name[end - 1] == '.' {
            return Some(end - 1);
        }
        end -= 1;
    }
    None
}

/// The file name of a path, as characters.
fn name_of(style: Style, path: &str) -> (r: Option<Vec<char>>)
    ensures
        match r {
            Some(name) => file_name(style, path@) == Some(name@),
            None => file_name(style, path@) is None,
        },
{
    let chars = chars_of(path);
    let from = find_body(style, &chars);
    let end = find_end(style, &chars, from, chars.len());
    let begin = find_begin(style, &chars, from, end);
    let name = chars_of(text_of(&chars, begin, end).as_str());
    if name.len() == 0 {
        return None;
    }
    if name.len() == 1 && name[0] == '.' {
        assert(name@ =~= seq!['.']);
        return None;
    }
    if name.len() == 2 && name[0] == '.' && name[1] == '.' {
        assert(name@ =~= seq!['.', '.']);
        return None;
    }
    assert(name@ != seq!['.']) by {
        if name@ == seq!['.'] {
            assert(name@[0] == '.');
        }
    }
    assert(name@ != seq!['.', '.']) by {
        if name@ == seq!['.', '.'] {
            assert(name@[0] == '.' && name@[1] == '.');
        }
    }
    Some(name)
}

/// The stem of a path's file name: its name without the extension.
pub fn file_stem(style: Style, path: &str) -> (r: Option<String>)
    ensures
        match r {
            Some(s) => file_name(style, path@) is Some && s@ == stem(
                file_name(style, path@).unwrap(),
            ),
            None => file_name(style, path@) is None,
        },
{
    match name_of(style, path) {
        Some(name) => match find_dot(&name) {
            Some(at) if at > 0 => {
                assert(name@.subrange(0, at as int) =~= name@.take(at as int));
                Some(text_of(&name, 0, at))
            },
            _ => {
                assert(name@.subrange(0, name@.len() as int) =~= name@);
                Some(text_of(&name, 0, name.len()))
            },
        },
        None => None,
    }
}

/// The extension of a path's file name, `other` when it has none.
fn extension_of(style: Style, path: &str, other: &str) -> (r: String)
    ensures
        r@ == extension_or(style, path@, other@),
{
    if let Some(name) = name_of(style, path) {
        if let Some(at) = find_dot(&name) {
            if at > 0 {
                let size: usize = name.len();
                assert(name@.subrange(at + 1, size as int) =~= name@.skip(at + 1));
                return text_of(&name, at + 1, size);
            }
        }
    }
    other.to_string()
}

/// The stem of a path's file name, `other` when it has none.
fn stem_of(style: Style, path: &str, other: &str) -> (r: String)
    ensures
        r@ == stem_or(style, path@, other@),
{
    match file_stem(style, path) {
        Some(s) => s,
        None => other.to_string(),
    }
}

/// Puts `name` in the place of a path's file name.
fn with_file_name(style: Style, path: &str, name: &str) -> (r: String)
    ensures
        r@ == sibling(style, path@, name@),
{
    if find_prefix_end(style, &chars_of(name)) > 0 {
        return name.to_string();
    }
    proof {
        body_begin_is_within(style, name@);
    }
    let chars = chars_of(path);
    let cut: usize = match name_of(style, path) {
        Some(_) => {
            let from = find_body(style, &chars);
            let end = find_end(style, &chars, from, chars.len());
            let begin = find_begin(style, &chars, from, end);
            find_end(style, &chars, from, begin)
        },
        None => chars.len(),
    };
    let mut out = text_of(&chars, 0, cut);
    assert(out@ =~= directory(style, path@));
    let bare_drive = style == Style::Windows && cut == 2 && begins_with_drive(&chars);
    if cut > 0 && !style.is_separator(chars[cut - 1]) && !bare_drive {
        out.push(
            match style {
                Style::Unix => '/',
                Style::Windows => '\\',
            },
        );
    }
    out.append(name);
    out
}

/// The weights CSV path of an output in a style.
pub fn weights_path_in(style: Style, output: &str) -> (r: String)
    ensures
        r@ == weights_beside(style, output@),
{
    let stem = stem_of(style, output, "output");
    let ext = extension_of(style, output, "csv");
    let name = stem.concat("_weights.").concat(ext.as_str());
    with_file_name(style, output, name.as_str())
}

/// The summary path of an output in a style.
pub fn summary_path_in(style: Style, output: &str) -> (r: String)
    ensures
        r@ == summary_beside(style, output@),
{
    let name = stem_of(style, output, "output").concat("_summary.json");
    with_file_name(style, output, name.as_str())
}

/// The weights CSV path: `<stem>_weights.<ext>` next to the NAV CSV, with
/// `output` and `csv` where the output names neither. The style is the
/// machine's, which does not matter to a bare file name.
pub fn weights_path(output: &str) -> (r: String)
    ensures
        exists|style: Style| r@ == #[trigger] weights_beside(style, output@),
        bare_name(output@) ==> r@ == stem(output@) + "_weights."@ + extension_or(
            Style::Unix,
            output@,
            "csv"@,
        ),
{
    let style = machine_style();
    let r = weights_path_in(style, output);
    proof {
        if bare_name(output@) {
            bare_siblings_are_bare(style, output@);
            bare_names_read_alike(style, output@);
            bare_names_read_alike(Style::Unix, output@);
        }
    }
    r
}

/// The summary path: `<stem>_summary.json` next to the NAV CSV, with `output`
/// where the output names no file. The style is the machine's, which does not
/// matter to a bare file name.
pub fn summary_path(output: &str) -> (r: String)
    ensures
        exists|style: Style| r@ == #[trigger] summary_beside(style, output@),
        bare_name(output@) ==> r@ == stem(output@) + "_summary.json"@,
{
    let style = machine_style();
    let r = summary_path_in(style, output);
    proof {
        if bare_name(output@) {
            bare_siblings_are_bare(style, output@);
        }
    }
    r
}

proof fn beginning_follows_a_separator(style: Style, path: Seq<char>, from: int, end: int)
    requires
        0 <= from <= end <= path.len(),
    ensures
        ({
            let begin = last_begin(style, path, from, end);
            &&& from <= begin <= end
            &&& begin == from || style.separates(path[begin - 1])
            &&& forall|i: int| begin <= i < end ==> !style.separates(#[trigger] path[i])
        }),
    decreases end - from,
{
    if from < end && !style.separates(path[end - 1]) {
        beginning_follows_a_separator(style, path, from, end - 1);
    }
}

proof fn plain_name_ends_the_path(style: Style, path: Seq<char>, from: int, begin: int)
    requires
        0 <= from <= begin < path.len(),
        begin == from || style.separates(path[begin - 1]),
        forall|i: int| begin <= i < path.len() ==> !style.separates(#[trigger] path[i]),
        path.skip(begin) != seq!['.'],
    ensures
        last_end(style, path, from, path.len() as int) == path.len(),
        last_begin(style, path, from, path.len() as int) == begin,
{
    let n = path.len() as int;
    assert(!style.separates(path[n - 1]));
    if n >= 2 && path[n - 1] == '.' && style.separates(path[n - 2]) {
        assert(begin == n - 1);
        assert(path.skip(begin) =~= seq!['.']);
    }
    beginning_follows_a_separator(style, path, from, n);
    let b = last_begin(style, path, from, n);
    if b < begin {
        assert(style.separates(path[begin - 1]));
    } else if begin < b {
        assert(!style.separates(path[b - 1]));
    }
}

/// Whether `name` can name a file: it holds no separator and is not made of
/// dots alone that name a directory.
pub open spec fn plain_name(style: Style, name: Seq<char>) -> bool {
    &&& name.len() > 0
    &&& forall|i: int| 0 <= i < name.len() ==> !style.separates(#[trigger] name[i])
    &&& name != seq!['.']
    &&& name != seq!['.', '.']
}

/// Whether `name` is a file name in each style: no drive stands before it
/// either.
pub open spec fn bare_name(name: Seq<char>) -> bool {
    &&& plain_name(Style::Windows, name)
    &&& forall|i: int| 0 <= i < name.len() ==> #[trigger] name[i] != ':'
}

/// A bare file name is its own file name, whatever the style.
pub proof fn bare_names_read_alike(style: Style, name: Seq<char>)
    requires
        bare_name(name),
    ensures
        file_name(style, name) == Some(name),
{
    assert(!Style::Windows.separates(name[0]));
    assert(body_begin(style, name) == 0);
    assert(name.skip(0) =~= name);
    assert forall|i: int| 0 <= i < name.len() implies !style.separates(#[trigger] name[i]) by {
        assert(!Style::Windows.separates(name[i]));
    }
    plain_name_ends_the_path(style, name, 0, 0);
    assert(last_component(style, name) =~= name);
}

proof fn last_dot_is_within(name: Seq<char>, end: int)
    requires
        0 <= end <= name.len(),
    ensures
        -1 <= last_dot(name, end) < end || (end == 0 && last_dot(name, end) == -1),
    decreases end,
{
    if end > 0 {
        last_dot_is_within(name, end - 1);
    }
}

/// The files beside a bare file name are named by it alone, whatever the
/// style.
pub proof fn bare_siblings_are_bare(style: Style, output: Seq<char>)
    requires
        bare_name(output),
    ensures
        weights_beside(style, output) == stem(output) + "_weights."@ + extension_or(
            style,
            output,
            "csv"@,
        ),
        summary_beside(style, output) == stem(output) + "_summary.json"@,
{
    bare_names_read_alike(style, output);
    reveal_strlit("_weights.");
    reveal_strlit("_summary.json");
    last_dot_is_within(output, output.len() as int);
    let s = stem(output);
    assert(s.len() > 0 && s[0] == output[0]);
    assert(s.len() > 1 ==> s[1] == output[1]);
    assert(!Style::Windows.separates(output[0]));
    let w = s + "_weights."@ + extension_or(style, output, "csv"@);
    let m = s + "_summary.json"@;
    assert(w[0] == s[0] && m[0] == s[0]);
    assert(s.len() > 1 ==> w[1] == s[1] && m[1] == s[1]);
    assert(s.len() == 1 ==> w[1] == '_' && m[1] == '_');
    assert(w[1] != ':' && m[1] != ':');
    assert(directory(style, output).len() == 0) by {
        assert(body_begin(style, output) == 0);
        assert forall|i: int| 0 <= i < output.len() implies !style.separates(
            #[trigger] output[i],
        ) by {
            assert(!Style::Windows.separates(output[i]));
        }
        assert(output.skip(0) =~= output);
        plain_name_ends_the_path(style, output, 0, 0);
    }
    assert(directory(style, output) + w =~= w);
    assert(directory(style, output) + m =~= m);
}

/// The file put beside another is the file of the path that results, unless
/// a drive or a share takes its name in.
pub proof fn a_sibling_has_its_name(style: Style, path: Seq<char>, name: Seq<char>)
    requires
        plain_name(style, name),
        prefix_end(style, sibling(style, path, name)) + name.len() <= sibling(
            style,
            path,
            name,
        ).len(),
    ensures
        file_name(style, sibling(style, path, name)) == Some(name),
{
    let dir = directory(style, path);
    let s = sibling(style, path, name);
    body_begin_is_within(style, s);
    body_begin_is_within(style, name);
    let begin = s.len() - name.len();
    assert(s.skip(begin) =~= name);
    assert forall|i: int| begin <= i < s.len() implies !style.separates(#[trigger] s[i]) by {
        assert(s[i] == name[i - begin]);
    }
    let from = body_begin(style, s);
    if begin > 0 {
        assert(needs_separator(style, dir) ==> s[begin - 1] == style.separator());
        assert(!needs_separator(style, dir) ==> s[begin - 1] == dir.last());
        if !style.separates(s[begin - 1]) {
            assert(names_drive(s)) by {
                assert(s[0] == dir[0] && s[1] == dir[1]);
            }
        }
    }
    plain_name_ends_the_path(style, s, from, begin);
    assert(last_component(style, s) =~= name);
}

/// Within Unix paths a file put beside another is always the file of the path
/// that results.
pub proof fn a_unix_sibling_has_its_name(path: Seq<char>, name: Seq<char>)
    requires
        plain_name(Style::Unix, name),
    ensures
        file_name(Style::Unix, sibling(Style::Unix, path, name)) == Some(name),
{
    a_sibling_has_its_name(Style::Unix, path, name);
}

proof fn the_last_dot_is_last(name: Seq<char>, end: int)
    requires
        0 <= end <= name.len(),
    ensures
        -1 <= last_dot(name, end) < end || last_dot(name, end) == -1,
        last_dot(name, end) >= 0 ==> name[last_dot(name, end)] == '.',
        forall|i: int| last_dot(name, end) < i < end ==> #[trigger] name[i] != '.',
    decreases end,
{
    if end > 0 && name[end - 1] != '.' {
        the_last_dot_is_last(name, end - 1);
    }
}

/// A file name is its stem, a dot and its extension, and no dot stands in the
/// extension; a name without an extension is all stem, with no dot behind its
/// first character.
pub proof fn a_name_is_its_stem_and_extension(name: Seq<char>)
    ensures
        match extension(name) {
            Some(ext) => {
                &&& name == stem(name).push('.') + ext
                &&& stem(name).len() > 0
                &&& !ext.contains('.')
            },
            None => {
                &&& stem(name) == name
                &&& forall|i: int| 0 < i < name.len() ==> #[trigger] name[i] != '.'
            },
        },
{
    let dot = last_dot(name, name.len() as int);
    the_last_dot_is_last(name, name.len() as int);
    if dot > 0 {
        assert(name.take(dot).push('.') + name.skip(dot + 1) =~= name);
        let ext = name.skip(dot + 1);
        if ext.contains('.') {
            let i = choose|i: int| 0 <= i < ext.len() && ext[i] == '.';
            assert(name[dot + 1 + i] == '.');
        }
    }
}

} // verus!
