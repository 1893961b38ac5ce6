//! Path texts: what the standard library makes of them, as far as its
//! documentation says.
//!
//! A text means one thing on Unix and may mean another on Windows, and which
//! of the two holds is up to the machine. So whatever depends on it is stated
//! for both: the answer is the one of Unix or the one of Windows.
use vstd::prelude::*;
use vstd::utf8::encode_utf8;

use crate::order::byte_codes;

verus! {

/// A way to read path texts.
pub enum PathStyle {
    Unix,
    Windows,
}

// ---------------------------------------------------------------------------
// The parts of a text
// ---------------------------------------------------------------------------

/// `c` separates directories.
pub open spec fn is_cut(style: PathStyle, c: char) -> bool {
    c == '/' || (style is Windows && c == '\\')
}

/// `text` starts with a separator.
pub open spec fn is_rooted(style: PathStyle, text: Seq<char>) -> bool {
    text.len() > 0 && is_cut(style, text[0])
}

/// `c` is a letter that can name a drive.
pub open spec fn is_letter(c: char) -> bool {
    ('a' <= c && c <= 'z') || ('A' <= c && c <= 'Z')
}

/// The code of a drive's letter, which counts in upper case.
pub open spec fn drive_code(c: char) -> int {
    if 'a' <= c && c <= 'z' {
        c as int - 32
    } else {
        c as int
    }
}

/// `text` starts with a drive, such as `C:`.
pub open spec fn has_drive(text: Seq<char>) -> bool {
    text.len() >= 2 && is_letter(text[0]) && text[1] == ':'
}

/// `text` starts with two separators of Windows, behind which it expects the
/// name of a server or a device.
pub open spec fn leads_twice(text: Seq<char>) -> bool {
    text.len() >= 2 && is_cut(PathStyle::Windows, text[0]) && is_cut(PathStyle::Windows, text[1])
}

/// `text` starts like a Windows verbatim path, `\\?\`.
pub open spec fn is_verbatim(text: Seq<char>) -> bool {
    text.len() >= 4 && text.take(4) == seq!['\\', '\\', '?', '\\']
}

/// `text` cut at each separator.
pub open spec fn segments(style: PathStyle, text: Seq<char>) -> Seq<Seq<char>>
    decreases text.len(),
{
    if text.len() == 0 {
        seq![seq![]]
    } else {
        let before = segments(style, text.drop_last());
        if is_cut(style, text.last()) {
            before.push(seq![])
        } else {
            before.drop_last().push(before.last().push(text.last()))
        }
    }
}

/// `text` starts with the name of a server and a share on it, `\\server\share`,
/// and goes on from the root of the share.
pub open spec fn is_unc(text: Seq<char>) -> bool {
    let parts = segments(PathStyle::Windows, text);
    &&& leads_twice(text)
    &&& parts.len() >= 5
    &&& parts[2].len() > 0
    &&& parts[3].len() > 0
    &&& parts[2] != seq!['.']
    &&& parts[2] != seq!['?']
}

/// What a style makes of `text` is said in full: that is of all but verbatim
/// paths and devices of Windows, and what looks like them.
pub open spec fn is_readable(style: PathStyle, text: Seq<char>) -> bool {
    style is Unix || !leads_twice(text) || is_unc(text)
}

/// `text` means the same in both styles.
pub open spec fn is_plain(text: Seq<char>) -> bool {
    &&& !text.contains('\\')
    &&& !(text.len() >= 2 && text[1] == ':')
    &&& !(text.len() >= 2 && text[0] == '/' && text[1] == '/')
}

/// The segments of `text` behind its drive or share. The empty one in front
/// stands for the root of a share.
pub open spec fn tail_segments(style: PathStyle, text: Seq<char>) -> Seq<Seq<char>> {
    if style is Windows && is_unc(text) {
        seq![seq![]] + segments(style, text).skip(4)
    } else if style is Windows && has_drive(text) {
        segments(style, text.skip(2))
    } else {
        segments(style, text)
    }
}

// ---------------------------------------------------------------------------
// Components
// ---------------------------------------------------------------------------

/// The codes of a name.
pub open spec fn name_codes(name: Seq<char>) -> Seq<int> {
    seq![4int] + byte_codes(encode_utf8(name))
}

/// The codes of a drive.
pub open spec fn drive_codes(letter: int) -> Seq<int> {
    seq![0int, 5int, letter]
}

/// The codes of a share on a server.
pub open spec fn unc_codes(server: Seq<u8>, share: Seq<u8>) -> Seq<int> {
    seq![0int, 4int] + byte_codes(server) + seq![-1int] + byte_codes(share)
}

/// The codes of the components in front of the names of `text`: a drive or a
/// share, and the root.
pub open spec fn head_codes(style: PathStyle, text: Seq<char>) -> Seq<Seq<int>> {
    if style is Windows && is_unc(text) {
        let parts = segments(style, text);
        seq![unc_codes(encode_utf8(parts[2]), encode_utf8(parts[3])), seq![1int]]
    } else if style is Windows && has_drive(text) {
        if is_rooted(style, text.skip(2)) {
            seq![drive_codes(drive_code(text[0])), seq![1int]]
        } else {
            seq![drive_codes(drive_code(text[0]))]
        }
    } else if is_rooted(style, text) {
        seq![seq![1int]]
    } else {
        seq![]
    }
}

/// The codes of the components that segments stand for. Empty segments stand
/// for none, and `.` counts only at the very front.
pub open spec fn segment_codes(segments: Seq<Seq<char>>) -> Seq<Seq<int>>
    decreases segments.len(),
{
    if segments.len() == 0 {
        seq![]
    } else {
        let before = segment_codes(segments.drop_last());
        let segment = segments.last();
        if segment.len() == 0 || (segment == seq!['.'] && segments.len() > 1) {
            before
        } else if segment == seq!['.'] {
            before.push(seq![2int])
        } else if segment == seq!['.', '.'] {
            before.push(seq![3int])
        } else {
            before.push(name_codes(segment))
        }
    }
}

/// The codes of the components of `text`.
pub open spec fn text_codes(style: PathStyle, text: Seq<char>) -> Seq<Seq<int>> {
    head_codes(style, text) + segment_codes(tail_segments(style, text))
}

/// `codes` start with those of a prefix.
pub open spec fn is_prefixed(codes: Seq<Seq<int>>) -> bool {
    codes.len() > 0 && codes[0].len() > 0 && codes[0][0] == 0
}

/// `codes` are those of `text` in a style. Of what looks like a Windows
/// verbatim path or device it is only said that it is cut as any other text
/// unless it has a prefix.
pub open spec fn is_reading(style: PathStyle, text: Seq<char>, codes: Seq<Seq<int>>) -> bool {
    codes == text_codes(style, text) || (!is_readable(style, text) && is_prefixed(codes))
}

/// `codes` are those of `text` on some platform.
pub open spec fn reads_as(text: Seq<char>, codes: Seq<Seq<int>>) -> bool {
    ||| is_reading(PathStyle::Unix, text, codes)
    ||| is_reading(PathStyle::Windows, text, codes)
}

// ---------------------------------------------------------------------------
// Absolute paths
// ---------------------------------------------------------------------------

/// `absolute` tells whether `text` is absolute in a style: on Unix, that it
/// starts with the root; on Windows, that it has the root behind a prefix.
pub open spec fn is_absolute_in(style: PathStyle, text: Seq<char>, absolute: bool) -> bool {
    match style {
        PathStyle::Unix => absolute == is_rooted(style, text),
        PathStyle::Windows => {
            &&& is_unc(text) ==> absolute
            &&& !leads_twice(text) ==> absolute == (has_drive(text) && is_rooted(
                style,
                text.skip(2),
            ))
        },
    }
}

/// `absolute` tells whether `text` is absolute on some platform.
pub open spec fn is_absolute_as(text: Seq<char>, absolute: bool) -> bool {
    ||| is_absolute_in(PathStyle::Unix, text, absolute)
    ||| is_absolute_in(PathStyle::Windows, text, absolute)
}

/// `std::path::Path::is_absolute`. On Unix a path is absolute if it starts with
/// the root, on Windows if it has a prefix and the root behind it. Which of the
/// two holds is up to the machine and not said, nor is anything of Windows
/// verbatim paths and devices.
#[verifier::external_body]
pub(crate) fn is_absolute_path(path: &str) -> (absolute: bool)
    ensures
        is_absolute_as(path@, absolute),
{
    std::path::Path::new(path).is_absolute()
}

// ---------------------------------------------------------------------------
// Joining
// ---------------------------------------------------------------------------

/// `text` ends with `tail`.
pub open spec fn ends_with(text: Seq<char>, tail: Seq<char>) -> bool {
    text.len() >= tail.len() && text.skip(text.len() - tail.len()) == tail
}

/// `joined` is `path` below `base` in a style. An absolute path stands for
/// itself. On Windows so does one with a prefix, and one with a root but no
/// prefix replaces all but the prefix of `base`. A separator is put between the
/// two where one is missing; behind a bare drive that is left open, and below a
/// verbatim path all is.
pub open spec fn is_joined(
    style: PathStyle,
    base: Seq<char>,
    path: Seq<char>,
    joined: Seq<char>,
) -> bool {
    match style {
        PathStyle::Unix => joined == if is_rooted(style, path) {
            path
        } else if base.len() == 0 || is_cut(style, base.last()) {
            base + path
        } else {
            base + seq!['/'] + path
        },
        PathStyle::Windows => if has_drive(path) || is_unc(path) {
            joined == path
        } else if is_verbatim(base) {
            true
        } else if is_rooted(style, path) {
            if leads_twice(path) || leads_twice(base) {
                ends_with(joined, path)
            } else if has_drive(base) {
                joined == base.take(2) + path
            } else {
                joined == path
            }
        } else if base.len() == 0 || is_cut(style, base.last()) {
            joined == base + path
        } else if has_drive(base) && base.len() == 2 {
            joined == base + path || joined == base + seq!['\\'] + path
        } else {
            joined == base + seq!['\\'] + path
        },
    }
}

/// `joined` is `path` below `base` on some platform.
pub open spec fn is_below(base: Seq<char>, path: Seq<char>, joined: Seq<char>) -> bool {
    ||| is_joined(PathStyle::Unix, base, path, joined)
    ||| is_joined(PathStyle::Windows, base, path, joined)
}

/// `std::path::Path::join`. It puts `path` below `base`; an absolute `path`
/// replaces `base`, and on Windows one with a root or a prefix alone replaces
/// what it can. Which platform it is is not said.
#[verifier::external_body]
pub(crate) fn join_paths(base: &str, path: &str) -> (joined: String)
    ensures
        is_below(base@, path@, joined@),
{
    std::path::Path::new(base).join(path).to_string_lossy().into_owned()
}

// ---------------------------------------------------------------------------
// File names
// ---------------------------------------------------------------------------

/// The name that a path of these segments ends with, if it ends with one.
pub open spec fn last_name(segments: Seq<Seq<char>>) -> Option<Seq<char>>
    decreases segments.len(),
{
    if segments.len() == 0 {
        None
    } else if segments.last().len() == 0 || segments.last() == seq!['.'] {
        last_name(segments.drop_last())
    } else if segments.last() == seq!['.', '.'] {
        None
    } else {
        Some(segments.last())
    }
}

/// The name of the file at `text`.
pub open spec fn text_name(style: PathStyle, text: Seq<char>) -> Option<Seq<char>> {
    last_name(tail_segments(style, text))
}

/// `name` is the name of the file at `path` in a style.
pub open spec fn is_named_in(style: PathStyle, path: Seq<char>, name: Option<Seq<char>>) -> bool {
    ||| name == text_name(style, path)
    ||| !is_readable(style, path) && name is None
    ||| is_verbatim(path) && style is Windows && name is Some && name->0.len() > 0
}

/// `name` is the name of the file at `path` on some platform.
pub open spec fn is_named(path: Seq<char>, name: Option<Seq<char>>) -> bool {
    ||| is_named_in(PathStyle::Unix, path, name)
    ||| is_named_in(PathStyle::Windows, path, name)
}

/// `std::path::Path::file_name`. It is the last component of the path, unless
/// that is a prefix, the root, `.` or `..`. Which platform it is is not said,
/// nor whether what looks like a Windows verbatim path or device has a name.
#[verifier::external_body]
pub(crate) fn file_name_of(path: &str) -> (name: Option<String>)
    ensures
        is_named(
            path@,
            match name {
                Some(name) => Some(name@),
                None => None,
            },
        ),
{
    std::path::Path::new(path).file_name().map(|name| name.to_string_lossy().into_owned())
}

/// The first `end` characters of `path` are its parent: they have its
/// components but the last one.
pub open spec fn is_parent(style: PathStyle, path: Seq<char>, end: int) -> bool {
    &&& 0 <= end <= path.len()
    &&& text_codes(style, path.take(end)) == text_codes(style, path).drop_last()
}

/// `renamed` is `path` with the file name `name` in a style: `name` below the
/// parent of `path`, or below `path` itself where that has no file name. Of what
/// looks like a Windows verbatim path or device it is only said that `name`
/// stands below some part of `path` from the front.
pub open spec fn is_sibling_in(
    style: PathStyle,
    path: Seq<char>,
    name: Seq<char>,
    renamed: Seq<char>,
) -> bool {
    if !is_readable(style, path) {
        exists|end: int|
            0 <= end <= path.len() && is_joined(style, #[trigger] path.take(end), name, renamed)
    } else if text_name(style, path) is Some {
        exists|end: int| #[trigger]
            is_parent(style, path, end) && is_joined(style, path.take(end), name, renamed)
    } else {
        is_joined(style, path, name, renamed)
    }
}

/// `renamed` is `path` with the file name `name` on some platform.
pub open spec fn is_sibling(path: Seq<char>, name: Seq<char>, renamed: Seq<char>) -> bool {
    ||| is_sibling_in(PathStyle::Unix, path, name, renamed)
    ||| is_sibling_in(PathStyle::Windows, path, name, renamed)
}

/// `std::path::Path::with_file_name`. The last component gives way to `name`;
/// where there is no file name, `name` is added. Which platform it is is not
/// said, nor which part of a Windows verbatim path or device is kept.
#[verifier::external_body]
pub(crate) fn with_name(path: &str, name: &str) -> (renamed: String)
    ensures
        is_sibling(path@, name@, renamed@),
{
    std::path::Path::new(path).with_file_name(name).to_string_lossy().into_owned()
}

// ---------------------------------------------------------------------------
// Laws
// ---------------------------------------------------------------------------

/// There is always a segment.
proof fn lemma_segments_nonempty(style: PathStyle, text: Seq<char>)
    ensures
        segments(style, text).len() > 0,
    decreases text.len(),
{
    if text.len() > 0 {
        lemma_segments_nonempty(style, text.drop_last());
    }
}

/// Without `\` both styles cut a text at the same places.
proof fn lemma_segments_alike(text: Seq<char>)
    requires
        !text.contains('\\'),
    ensures
        segments(PathStyle::Windows, text) == segments(PathStyle::Unix, text),
    decreases text.len(),
{
    if text.len() > 0 {
        let rest = text.drop_last();
        assert forall|i: int| 0 <= i < rest.len() implies rest[i] != '\\' by {
            assert(text.contains(text[i]));
        }
        lemma_segments_alike(rest);
        assert(text.contains(text[text.len() - 1]));
    }
}

/// A plain path means the same on all platforms.
pub proof fn plain_paths_read_alike(text: Seq<char>)
    requires
        is_plain(text),
    ensures
        is_readable(PathStyle::Windows, text),
        text_codes(PathStyle::Windows, text) == text_codes(PathStyle::Unix, text),
        text_name(PathStyle::Windows, text) == text_name(PathStyle::Unix, text),
{
    lemma_segments_alike(text);
    if text.len() > 0 {
        assert(text.contains(text[0]));
    }
    if text.len() > 1 {
        assert(text.contains(text[1]));
    }
}

/// A plain path falls apart in one way only, whatever the platform.
pub proof fn plain_paths_have_one_reading(text: Seq<char>, codes: Seq<Seq<int>>)
    requires
        is_plain(text),
        reads_as(text, codes),
    ensures
        codes == text_codes(PathStyle::Unix, text),
{
    plain_paths_read_alike(text);
}

/// What is joined ends with what was added.
pub proof fn joined_paths_end_with_path(base: Seq<char>, path: Seq<char>, joined: Seq<char>)
    requires
        is_below(base, path, joined),
        !is_verbatim(base),
    ensures
        ends_with(joined, path),
{
    let n = joined.len() - path.len();
    if joined == path {
        assert(path.skip(0) =~= path);
    } else if !ends_with(joined, path) {
        assert(joined.skip(n) =~= path);
    }
}

/// What starts a path is verbatim only if the path is.
proof fn lemma_verbatim_front(path: Seq<char>, end: int)
    requires
        0 <= end <= path.len(),
        is_verbatim(path.take(end)),
    ensures
        is_verbatim(path),
{
    assert(path.take(end).take(4) =~= path.take(4));
}

/// A path that gets a new file name ends with it.
pub proof fn siblings_end_with_name(path: Seq<char>, name: Seq<char>, renamed: Seq<char>)
    requires
        is_sibling(path, name, renamed),
        !is_verbatim(path),
    ensures
        ends_with(renamed, name),
{
    assert forall|style: PathStyle| #[trigger]
        is_sibling_in(style, path, name, renamed) implies ends_with(renamed, name) by {
        if !is_readable(style, path) {
            let end = choose|end: int|
                0 <= end <= path.len() && is_joined(
                    style,
                    #[trigger] path.take(end),
                    name,
                    renamed,
                );
            if is_verbatim(path.take(end)) {
                lemma_verbatim_front(path, end);
            }
            joined_paths_end_with_path(path.take(end), name, renamed);
        } else {
            if text_name(style, path) is Some {
                let end = choose|end: int| #[trigger]
                    is_parent(style, path, end) && is_joined(
                        style,
                        path.take(end),
                        name,
                        renamed,
                    );
                if is_verbatim(path.take(end)) {
                    lemma_verbatim_front(path, end);
                }
                joined_paths_end_with_path(path.take(end), name, renamed);
            } else {
                joined_paths_end_with_path(path, name, renamed);
            }
        }
    }
    if is_sibling_in(PathStyle::Unix, path, name, renamed) {
    } else {
        assert(is_sibling_in(PathStyle::Windows, path, name, renamed));
    }
}

/// `name` can be the name of a file.
pub open spec fn is_file_name(style: PathStyle, name: Seq<char>) -> bool {
    &&& name.len() > 0
    &&& forall|i: int| 0 <= i < name.len() ==> !is_cut(style, #[trigger] name[i])
    &&& name != seq!['.']
    &&& name != seq!['.', '.']
    &&& style is Windows ==> !has_drive(name)
}

/// Cutting at a separator cuts what is before it and what is behind it.
proof fn lemma_segments_cut(style: PathStyle, a: Seq<char>, cut: char, b: Seq<char>)
    requires
        is_cut(style, cut),
    ensures
        segments(style, a.push(cut) + b) == segments(style, a) + segments(style, b),
    decreases b.len(),
{
    let all = a.push(cut) + b;
    if b.len() == 0 {
        assert(all =~= a.push(cut));
        assert(all.drop_last() =~= a);
        assert(segments(style, all) =~= segments(style, a) + segments(style, b));
    } else {
        let rest = b.drop_last();
        lemma_segments_cut(style, a, cut, rest);
        lemma_segments_nonempty(style, rest);
        let (x, y) = (segments(style, a), segments(style, rest));
        assert(all.drop_last() =~= a.push(cut) + rest);
        assert(all.last() == b.last());
        if is_cut(style, b.last()) {
            assert((x + y).push(seq![]) =~= x + y.push(seq![]));
        } else {
            let last = y.last().push(b.last());
            assert((x + y).last() == y.last());
            assert((x + y).drop_last().push(last) =~= x + y.drop_last().push(last));
        }
    }
}

/// A text without a separator is one segment.
proof fn lemma_segments_single(style: PathStyle, name: Seq<char>)
    requires
        forall|i: int| 0 <= i < name.len() ==> !is_cut(style, #[trigger] name[i]),
    ensures
        segments(style, name) == seq![name],
    decreases name.len(),
{
    if name.len() > 0 {
        let rest = name.drop_last();
        assert forall|i: int| 0 <= i < rest.len() implies !is_cut(style, #[trigger] rest[i]) by {
            assert(rest[i] == name[i]);
        }
        lemma_segments_single(style, rest);
        assert(!is_cut(style, name[name.len() - 1]));
        assert(rest.push(name.last()) =~= name);
        assert(segments(style, name) =~= seq![name]);
    } else {
        assert(name =~= seq![]);
    }
}

/// No segment holds a separator.
proof fn lemma_segments_are_whole(style: PathStyle, text: Seq<char>)
    ensures
        forall|i: int, j: int|
            #![trigger segments(style, text)[i][j]]
            0 <= i < segments(style, text).len() && 0 <= j < segments(style, text)[i].len()
                ==> !is_cut(style, segments(style, text)[i][j]),
    decreases text.len(),
{
    if text.len() > 0 {
        let rest = text.drop_last();
        lemma_segments_are_whole(style, rest);
        lemma_segments_nonempty(style, rest);
        let before = segments(style, rest);
        let all = segments(style, text);
        assert forall|i: int, j: int|
            #![trigger all[i][j]]
            0 <= i < all.len() && 0 <= j < all[i].len() implies !is_cut(style, all[i][j]) by {
            if i < before.len() - 1 {
                assert(all[i] == before[i]);
                assert(!is_cut(style, before[i][j]));
            } else if !is_cut(style, text.last()) && j < before.last().len() {
                assert(all[i][j] == before[before.len() - 1][j]);
            } else if is_cut(style, text.last()) && i == before.len() - 1 {
                assert(all[i] == before[i]);
                assert(!is_cut(style, before[i][j]));
            }
        }
    }
}

/// The name at the end of segments is one of them, and not empty.
proof fn lemma_last_name(parts: Seq<Seq<char>>)
    requires
        last_name(parts) is Some,
    ensures
        exists|i: int| 0 <= i < parts.len() && #[trigger] parts[i] == last_name(parts)->0,
        last_name(parts)->0.len() > 0,
    decreases parts.len(),
{
    let last = parts.len() - 1;
    assert(parts.last() == parts[last]);
    if parts.last().len() == 0 || parts.last() == seq!['.'] {
        let rest = parts.drop_last();
        lemma_last_name(rest);
        let i = choose|i: int| 0 <= i < rest.len() && #[trigger] rest[i] == last_name(rest)->0;
        assert(parts[i] == rest[i]);
    }
}

/// The name of a file on a plain path holds no separator.
pub proof fn plain_names_are_whole(text: Seq<char>)
    requires
        is_plain(text),
        text_name(PathStyle::Unix, text) is Some,
    ensures
        text_name(PathStyle::Unix, text)->0.len() > 0,
        forall|i: int|
            0 <= i < text_name(PathStyle::Unix, text)->0.len() ==> !is_cut(
                PathStyle::Windows,
                #[trigger] text_name(PathStyle::Unix, text)->0[i],
            ),
{
    let parts = segments(PathStyle::Windows, text);
    plain_paths_read_alike(text);
    lemma_segments_alike(text);
    lemma_segments_are_whole(PathStyle::Windows, text);
    lemma_last_name(parts);
    let name = text_name(PathStyle::Unix, text)->0;
    let k = choose|k: int| 0 <= k < parts.len() && #[trigger] parts[k] == name;
    assert forall|i: int| 0 <= i < name.len() implies !is_cut(
        PathStyle::Windows,
        #[trigger] name[i],
    ) by {
        assert(!is_cut(PathStyle::Windows, parts[k][i]));
    }
}

/// What is added to a text without a separator is added to its last segment.
proof fn lemma_segments_grow(style: PathStyle, text: Seq<char>, added: Seq<char>)
    requires
        forall|i: int| 0 <= i < added.len() ==> !is_cut(style, #[trigger] added[i]),
    ensures
        segments(style, text).len() > 0,
        segments(style, text + added) == segments(style, text).drop_last().push(
            segments(style, text).last() + added,
        ),
    decreases added.len(),
{
    let parts = segments(style, text);
    lemma_segments_nonempty(style, text);
    if added.len() == 0 {
        assert(text + added =~= text);
        assert(parts.last() + added =~= parts.last());
        assert(parts.drop_last().push(parts.last()) =~= parts);
    } else {
        let rest = added.drop_last();
        assert forall|i: int| 0 <= i < rest.len() implies !is_cut(style, #[trigger] rest[i]) by {
            assert(rest[i] == added[i]);
        }
        lemma_segments_grow(style, text, rest);
        assert((text + added).drop_last() =~= text + rest);
        assert((text + added).last() == added[added.len() - 1]);
        assert((parts.last() + rest).push(added.last()) =~= parts.last() + added);
        assert(segments(style, text + added) =~= parts.drop_last().push(parts.last() + added));
    }
}

/// `text` ends with the name of a file.
pub open spec fn ends_in_name(text: Seq<char>) -> bool {
    let last = segments(PathStyle::Unix, text).last();
    last.len() > 0 && last != seq!['.'] && last != seq!['.', '.']
}

/// Adding to a plain path that ends with a name adds to the name: the path
/// stays plain and in its directory.
pub proof fn longer_names_stand_beside(text: Seq<char>, added: Seq<char>)
    requires
        is_plain(text),
        ends_in_name(text),
        added.len() > 2,
        added[0] != ':',
        forall|i: int| 0 <= i < added.len() ==> !is_cut(PathStyle::Windows, #[trigger] added[i]),
    ensures
        is_plain(text + added),
        text_name(PathStyle::Unix, text) is Some,
        text_name(PathStyle::Unix, text + added) == Some(
            text_name(PathStyle::Unix, text)->0 + added,
        ),
        text_codes(PathStyle::Unix, text).len() > 0,
        text_codes(PathStyle::Unix, text + added) == text_codes(
            PathStyle::Unix,
            text,
        ).drop_last().push(name_codes(text_name(PathStyle::Unix, text)->0 + added)),
{
    let style = PathStyle::Unix;
    let longer = text + added;
    assert forall|i: int| 0 <= i < longer.len() implies longer[i] != '\\' by {
        if i < text.len() {
            assert(text.contains(text[i]));
        } else {
            assert(longer[i] == added[i - text.len()]);
        }
    }
    if text.len() == 0 {
        assert(segments(style, text).last() =~= seq![]);
    } else {
        assert(longer[0] == text[0]);
    }
    if text.len() == 1 {
        assert(longer[1] == added[0]);
        assert(!is_cut(PathStyle::Windows, added[0]));
    } else {
        assert(longer[1] == text[1]);
    }
    assert forall|i: int| 0 <= i < added.len() implies !is_cut(style, #[trigger] added[i]) by {
        assert(!is_cut(PathStyle::Windows, added[i]));
    }
    lemma_segments_grow(style, text, added);
    let parts = segments(style, text);
    let name = parts.last();
    let more = parts.drop_last().push(name + added);
    assert(more.drop_last() =~= parts.drop_last());
    assert(more.last().len() > 2);
    let head = head_codes(style, text);
    let before = segment_codes(parts.drop_last());
    assert(text_codes(style, text) =~= (head + before).push(name_codes(name)));
    assert(text_codes(style, text).drop_last() =~= head + before);
    assert(text_codes(style, longer) =~= (head + before).push(name_codes(name + added)));
}

/// A name behind a separator is one segment more.
proof fn lemma_segments_below(
    style: PathStyle,
    base: Seq<char>,
    cut: char,
    name: Seq<char>,
    joined: Seq<char>,
) -> (parts: Seq<Seq<char>>)
    requires
        base.len() > 0,
        is_cut(style, cut),
        is_file_name(style, name),
        joined == if is_cut(style, base.last()) {
            base + name
        } else {
            base.push(cut) + name
        },
    ensures
        parts.len() > 0,
        segments(style, joined) == parts.push(name),
        segments(style, base) == parts || segments(style, base) == parts.push(seq![]),
{
    lemma_segments_single(style, name);
    if is_cut(style, base.last()) {
        let front = base.drop_last();
        let parts = segments(style, front);
        lemma_segments_cut(style, front, base.last(), name);
        lemma_segments_nonempty(style, front);
        assert(front.push(base.last()) =~= base);
        assert(parts + seq![name] =~= parts.push(name));
        parts
    } else {
        let parts = segments(style, base);
        lemma_segments_cut(style, base, cut, name);
        lemma_segments_nonempty(style, base);
        assert(parts + seq![name] =~= parts.push(name));
        parts
    }
}

/// A segment more is a component more, unless it is empty.
proof fn lemma_segment_codes_grow(style: PathStyle, parts: Seq<Seq<char>>, name: Seq<char>)
    requires
        is_file_name(style, name),
    ensures
        segment_codes(parts.push(name)) == segment_codes(parts).push(name_codes(name)),
        segment_codes(parts.push(seq![])) == segment_codes(parts),
{
    assert(parts.push(name).drop_last() =~= parts);
    assert(parts.push(seq![]).drop_last() =~= parts);
}

/// A name below a directory is one component more.
proof fn lemma_name_below(style: PathStyle, base: Seq<char>, name: Seq<char>, joined: Seq<char>)
    requires
        is_file_name(style, name),
        is_readable(style, base),
        style is Windows && has_drive(base) ==> base.len() > 2,
        is_joined(style, base, name, joined),
    ensures
        text_codes(style, joined) == text_codes(style, base).push(name_codes(name)),
{
    assert(!is_cut(style, name[0]));
    assert(name.len() > 1 ==> !is_cut(style, name[1]));
    lemma_segment_codes_grow(style, seq![], name);
    assert(Seq::<Seq<char>>::empty().push(name) =~= seq![name]);
    if is_verbatim(base) && style is Windows {
        assert(base.take(4)[0] == base[0] && base.take(4)[1] == base[1]);
        lemma_verbatim_is_no_share(base);
    }
    if base.len() == 0 {
        lemma_segments_single(style, name);
        assert(joined =~= name);
        assert(segments(style, base) =~= seq![seq![]]);
        assert(segment_codes(Seq::<Seq<char>>::empty().push(seq![])) =~= seq![]);
        assert(Seq::<Seq<char>>::empty().push(seq![]) =~= seq![seq![]]);
        assert(text_codes(style, joined) =~= text_codes(style, base).push(name_codes(name)));
    } else {
        let cut = if style is Unix {
            '/'
        } else {
            '\\'
        };
        assert(joined[0] == base[0]);
        assert(base.len() >= 2 ==> joined[1] == base[1]);
        assert(base.len() == 1 && !is_cut(style, base[0]) ==> joined[1] == cut);
        if style is Windows && has_drive(base) {
            let rest = base.skip(2);
            assert(rest.last() == base.last());
            if is_cut(style, base.last()) {
                assert(joined.skip(2) =~= rest + name);
            } else {
                assert(joined.skip(2) =~= rest.push(cut) + name);
            }
            let parts = lemma_segments_below(style, rest, cut, name, joined.skip(2));
            lemma_segment_codes_grow(style, parts, name);
            assert(joined.skip(2)[0] == rest[0]);
        } else {
            assert(base.push(cut) =~= base + seq![cut]);
            let parts = lemma_segments_below(style, base, cut, name, joined);
            lemma_segment_codes_grow(style, parts, name);
            if style is Windows && is_unc(base) {
                let tail = seq![Seq::<char>::empty()] + parts.skip(4);
                lemma_segment_codes_grow(style, tail, name);
                assert(seq![Seq::<char>::empty()] + parts.push(name).skip(4) =~= tail.push(name));
                assert(seq![Seq::<char>::empty()] + parts.push(seq![]).skip(4) =~= tail.push(
                    seq![],
                ));
                assert(segments(style, joined)[2] == segments(style, base)[2]);
                assert(segments(style, joined)[3] == segments(style, base)[3]);
            }
        }
        assert(text_codes(style, joined) =~= text_codes(style, base).push(name_codes(name)));
    }
}

/// Two separators and `?` are two empty segments and `?`.
proof fn lemma_verbatim_segments()
    ensures
        segments(PathStyle::Windows, seq!['\\', '\\', '?']) == seq![
            Seq::<char>::empty(),
            Seq::<char>::empty(),
            seq!['?'],
        ],
{
    let style = PathStyle::Windows;
    let none = Seq::<char>::empty();
    let one = none.push('\\');
    let two = one.push('\\');
    let three = two.push('?');
    assert(one.drop_last() =~= none);
    assert(two.drop_last() =~= one);
    assert(three.drop_last() =~= two);
    assert(segments(style, none) == seq![none]);
    assert(segments(style, one) =~= seq![none, none]);
    assert(segments(style, two) =~= seq![none, none, none]);
    assert(none.push('?') =~= seq!['?']);
    assert(segments(style, three) =~= seq![none, none, seq!['?']]);
    assert(three =~= seq!['\\', '\\', '?']);
}

/// A verbatim path does not start with the name of a server.
proof fn lemma_verbatim_is_no_share(text: Seq<char>)
    requires
        is_verbatim(text),
    ensures
        !is_unc(text),
{
    let style = PathStyle::Windows;
    let front = seq!['\\', '\\', '?'];
    let rest = text.skip(4);
    assert(text =~= text.take(4) + rest);
    assert(text.take(4) =~= front.push('\\'));
    lemma_verbatim_segments();
    lemma_segments_cut(style, front, '\\', rest);
    assert(segments(style, text)[2] == segments(style, front)[2]);
}

/// A path that gets a new file name stays in its directory: of its components
/// only the last one changes. On Windows that is not said of a file right
/// behind a bare drive.
pub proof fn siblings_stand_beside(
    style: PathStyle,
    path: Seq<char>,
    name: Seq<char>,
    renamed: Seq<char>,
)
    requires
        is_sibling_in(style, path, name, renamed),
        is_readable(style, path),
        text_name(style, path) is Some,
        is_file_name(style, name),
        style is Windows && has_drive(path) ==> text_codes(style, path).len() > 2,
    ensures
        text_codes(style, renamed) == text_codes(style, path).drop_last().push(name_codes(name)),
{
    let end = choose|end: int| #[trigger]
        is_parent(style, path, end) && is_joined(style, path.take(end), name, renamed);
    let base = path.take(end);
    if style is Windows {
        lemma_parent_keeps_prefix(path, end);
    }
    lemma_name_below(style, base, name, renamed);
}

/// The parent of a path on Windows has the drive or the share of the path.
proof fn lemma_parent_keeps_prefix(path: Seq<char>, end: int)
    requires
        is_parent(PathStyle::Windows, path, end),
        is_readable(PathStyle::Windows, path),
        text_name(PathStyle::Windows, path) is Some,
        has_drive(path) ==> text_codes(PathStyle::Windows, path).len() > 2,
    ensures
        is_readable(PathStyle::Windows, path.take(end)),
        has_drive(path.take(end)) ==> end > 2,
{
    let style = PathStyle::Windows;
    let base = path.take(end);
    let codes = text_codes(style, path);
    let parent = text_codes(style, base);
    if end > 0 {
        assert(base[0] == path[0]);
    }
    if end > 1 {
        assert(base[1] == path[1]);
    }
    if has_drive(base) && end == 2 {
        assert(base.skip(2) =~= seq![]);
        assert(segments(style, base.skip(2)) =~= seq![seq![]]);
        assert(seq![Seq::<char>::empty()].drop_last() =~= seq![]);
        assert(segment_codes(seq![Seq::<char>::empty()].drop_last()) =~= seq![]);
        assert(segment_codes(seq![Seq::<char>::empty()]) =~= seq![]);
        assert(parent.len() == 1);
    }
    if leads_twice(base) && !is_unc(base) {
        assert(is_unc(path));
        let parts = segments(style, path);
        let share = unc_codes(encode_utf8(parts[2]), encode_utf8(parts[3]));
        assert(codes[0] == share);
        assert(codes[1] == seq![1int]);
        lemma_name_is_component(tail_segments(style, path));
        assert(codes.len() > 2);
        assert(parent[0] == share);
        assert(share[0] == 0);
        assert(parent[0] == seq![1int]);
        assert(parent[0][0] == 1);
    }
}

/// A path that ends with a name has a component.
proof fn lemma_name_is_component(parts: Seq<Seq<char>>)
    requires
        last_name(parts) is Some,
    ensures
        segment_codes(parts).len() > 0,
    decreases parts.len(),
{
    if parts.last().len() == 0 || parts.last() == seq!['.'] {
        lemma_name_is_component(parts.drop_last());
    }
}

} // verus!
