//! The files of a recovery: what belongs to a database, what copies of it are
//! called, and in which order backups are made.
use vstd::prelude::*;

use crate::path_text::{
    PathStyle, ends_in_name, ends_with, file_name_of, has_drive, is_cut, is_file_name, is_named,
    is_plain, is_sibling, is_sibling_in, is_verbatim, longer_names_stand_beside, name_codes,
    plain_names_are_whole, plain_paths_read_alike, siblings_end_with_name, siblings_stand_beside,
    text_codes, text_name, with_name,
};
use crate::text::{
    all_digits, decimal, decimal_is_injective, decimal_string, is_digit, lemma_decimal_digits, texts,
};

verus! {

// ---------------------------------------------------------------------------
// Names
// ---------------------------------------------------------------------------

/// `std::time::SystemTime::elapsed`, of the Unix epoch: how many whole seconds
/// have passed since, unless the clock stands before it. Nothing is said of
/// the time.
#[verifier::external_body]
fn seconds_since_epoch() -> (seconds: Option<u64>) {
    std::time::UNIX_EPOCH.elapsed().ok().map(|elapsed| elapsed.as_secs())
}

/// The name of the recovery that begins at a time; a clock before the epoch
/// counts as the epoch.
pub open spec fn suffix_text(seconds: Option<u64>) -> Seq<char> {
    "codex-recovery-"@ + decimal(
        match seconds {
            Some(seconds) => seconds as nat,
            None => 0,
        },
    )
}

/// The name of the recovery that begins at a time.
pub fn recovery_suffix_at(seconds: Option<u64>) -> (suffix: String)
    ensures
        suffix@ == suffix_text(seconds),
{
    let timestamp: u64 = match seconds {
        Some(seconds) => seconds,
        None => 0,
    };
    let digits = decimal_string(timestamp);
    "codex-recovery-".to_string().concat(digits.as_str())
}

/// The name of a recovery that begins now.
pub fn recovery_suffix() -> (suffix: String)
    ensures
        exists|seconds: Option<u64>| suffix@ == #[trigger] suffix_text(seconds),
{
    let seconds = seconds_since_epoch();
    recovery_suffix_at(seconds)
}

/// The files that SQLite may keep beside the database at `path`.
pub open spec fn sidecar_texts(path: Seq<char>) -> Seq<Seq<char>> {
    seq![path + "-wal"@, path + "-shm"@]
}

/// The files that may belong to the database at `path`.
pub open spec fn sqlite_texts(path: Seq<char>) -> Seq<Seq<char>> {
    seq![path] + sidecar_texts(path)
}

/// The files that SQLite may keep beside the database at `path`.
pub fn sqlite_sidecar_paths(path: &str) -> (paths: Vec<String>)
    ensures
        texts(paths@) == sidecar_texts(path@),
{
    let mut paths: Vec<String> = Vec::new();
    paths.push(path.to_string().concat("-wal"));
    paths.push(path.to_string().concat("-shm"));
    assert(texts(paths@) =~= sidecar_texts(path@));
    paths
}

/// The files that may belong to the database at `path`, itself first.
pub fn sqlite_paths(path: &str) -> (paths: Vec<String>)
    ensures
        texts(paths@) == sqlite_texts(path@),
{
    let mut paths: Vec<String> = Vec::new();
    paths.push(path.to_string());
    let mut sidecars = sqlite_sidecar_paths(path);
    let ghost beside = sidecars@;
    paths.append(&mut sidecars);
    assert(texts(paths@) =~= seq![path@] + texts(beside));
    paths
}

/// What is added to a file name for the copy number `sequence`.
pub open spec fn tail(suffix: Seq<char>, sequence: nat, extension: Seq<char>) -> Seq<char> {
    "."@ + suffix + "."@ + decimal(sequence) + "."@ + extension
}

/// A search for a name beside `path` that is not taken: numbered names are
/// tried one after the other.
pub struct SiblingSearch {
    path: String,
    file_name: String,
    suffix: String,
    extension: String,
    sequence: u32,
}

/// The model of a search.
pub struct SearchView {
    pub path: Seq<char>,
    pub file_name: Seq<char>,
    pub suffix: Seq<char>,
    pub extension: Seq<char>,
    pub sequence: nat,
}

impl View for SiblingSearch {
    type V = SearchView;

    closed spec fn view(&self) -> SearchView {
        SearchView {
            path: self.path@,
            file_name: self.file_name@,
            suffix: self.suffix@,
            extension: self.extension@,
            sequence: self.sequence as nat,
        }
    }
}

/// The highest number that a copy can have.
pub const LAST_SEQUENCE: u32 = 0x7fff_ffff;

/// The name that a search tries.
pub open spec fn tried_name(search: SearchView) -> Seq<char> {
    search.file_name + tail(search.suffix, search.sequence, search.extension)
}

/// `candidate` is the path that a search tries.
pub open spec fn is_candidate(search: SearchView, candidate: Seq<char>) -> bool {
    is_sibling(search.path, tried_name(search), candidate)
}

/// There is no name to derive others from.
pub open spec fn no_name_message(path: Seq<char>) -> Seq<char> {
    "cannot create a recovery file name for "@ + path
}

/// `search` tries the first name for a copy of `path`.
pub open spec fn is_first_search(
    search: SearchView,
    path: Seq<char>,
    suffix: Seq<char>,
    extension: Seq<char>,
) -> bool {
    &&& search.path == path
    &&& search.suffix == suffix
    &&& search.extension == extension
    &&& search.sequence == 0
    &&& is_named(path, Some(search.file_name))
}

/// `name` is a numbered name for a copy of `path`.
pub open spec fn is_copy_name(
    path: Seq<char>,
    suffix: Seq<char>,
    extension: Seq<char>,
    name: Seq<char>,
) -> bool {
    exists|search: SearchView|
        {
            &&& #[trigger] is_candidate(search, name)
            &&& search.path == path
            &&& search.suffix == suffix
            &&& search.extension == extension
            &&& is_named(path, Some(search.file_name))
        }
}

impl SiblingSearch {
    /// Starts a search beside `path`.
    pub fn new(path: &str, suffix: &str, extension: &str) -> (search: Result<Self, String>)
        ensures
            match search {
                Ok(search) => is_first_search(search@, path@, suffix@, extension@),
                Err(message) => is_named(path@, None) && message@ == no_name_message(path@),
            },
    {
        match file_name_of(path) {
            Some(file_name) => Ok(
                SiblingSearch {
                    path: path.to_string(),
                    file_name,
                    suffix: suffix.to_string(),
                    extension: extension.to_string(),
                    sequence: 0,
                },
            ),
            None => Err("cannot create a recovery file name for ".to_string().concat(path)),
        }
    }

    /// The path to try.
    pub fn candidate(&self) -> (candidate: String)
        ensures
            is_candidate(self@, candidate@),
    {
        let digits = decimal_string(self.sequence as u64);
        let added = ".".to_string().concat(self.suffix.as_str()).concat(".").concat(
            digits.as_str(),
        ).concat(".").concat(self.extension.as_str());
        let name = self.file_name.clone().concat(added.as_str());
        with_name(self.path.as_str(), name.as_str())
    }

    /// There is no number left behind the one that is tried.
    pub fn is_at_last(&self) -> (last: bool)
        ensures
            last == (self@.sequence >= LAST_SEQUENCE),
    {
        self.sequence >= LAST_SEQUENCE
    }

    /// The path was taken: the next number is up.
    pub fn advance(&mut self)
        requires
            old(self)@.sequence < LAST_SEQUENCE,
        ensures
            final(self)@ == (SearchView { sequence: old(self)@.sequence + 1, ..old(self)@ }),
    {
        self.sequence = self.sequence + 1;
    }
}

/// No path is tried twice: names with different numbers end paths that differ.
pub proof fn candidates_differ(search: SearchView, other: nat, a: Seq<char>, b: Seq<char>)
    requires
        ends_with(a, tried_name(search)),
        ends_with(b, tried_name(SearchView { sequence: other, ..search })),
        search.sequence != other,
    ensures
        a != b,
{
    let m = search.sequence;
    lemma_decimal_digits(m);
    lemma_decimal_digits(other);
    if a == b {
        let front = search.file_name + ("."@ + search.suffix);
        let back = "."@ + search.extension;
        assert(tried_name(search) =~= numbered(front, decimal(m), back));
        assert(tried_name(SearchView { sequence: other, ..search }) =~= numbered(
            front,
            decimal(other),
            back,
        ));
        if decimal(m).len() <= decimal(other).len() {
            lemma_same_end(a, front, decimal(m), decimal(other), back);
        } else {
            lemma_same_end(a, front, decimal(other), decimal(m), back);
        }
        decimal_is_injective(m, other);
    }
}

/// A name of the form that a search tries.
spec fn numbered(front: Seq<char>, digits: Seq<char>, back: Seq<char>) -> Seq<char> {
    front + "."@ + digits + back
}

/// Two numbers that stand before the same end of a text are the same.
proof fn lemma_same_end(
    text: Seq<char>,
    front: Seq<char>,
    short: Seq<char>,
    long: Seq<char>,
    back: Seq<char>,
)
    requires
        all_digits(short),
        all_digits(long),
        short.len() <= long.len(),
        ends_with(text, numbered(front, short, back)),
        ends_with(text, numbered(front, long, back)),
    ensures
        short == long,
{
    reveal_strlit(".");
    let a = numbered(front, short, back);
    let b = numbered(front, long, back);
    let n = text.len() as int;
    assert forall|i: int| 0 <= i < a.len() implies #[trigger] a[i] == text[n - a.len() + i] by {
        assert(text.skip(n - a.len())[i] == a[i]);
    }
    assert forall|i: int| 0 <= i < b.len() implies #[trigger] b[i] == text[n - b.len() + i] by {
        assert(text.skip(n - b.len())[i] == b[i]);
    }
    let end = back.len() as int;
    if short.len() < long.len() {
        let k = end + short.len() + 1;
        assert(a[a.len() - k] == '.');
        assert(b[b.len() - k] == long[long.len() - short.len() - 1]);
        assert(is_digit(long[long.len() - short.len() - 1]));
    } else {
        assert forall|i: int| 0 <= i < short.len() implies short[i] == long[i] by {
            let k = end + short.len() - i;
            assert(a[a.len() - k] == short[i]);
            assert(b[b.len() - k] == long[i]);
        }
        assert(short =~= long);
    }
}

/// A backup is never taken for another file of a recovery: no recovered or
/// fresh database, and nothing that SQLite keeps beside a database, ends as a
/// backup does. Of a Windows verbatim path nothing is said.
pub proof fn backups_stand_apart(path: Seq<char>, suffix: Seq<char>, backup: Seq<char>)
    requires
        is_copy_name(path, suffix, "bak"@, backup),
        !is_verbatim(path),
    ensures
        !ends_with(backup, ".recovered"@),
        !ends_with(backup, ".sqlite"@),
        !ends_with(backup, "-wal"@),
        !ends_with(backup, "-shm"@),
{
    reveal_strlit("bak");
    reveal_strlit(".recovered");
    reveal_strlit(".sqlite");
    reveal_strlit("-wal");
    reveal_strlit("-shm");
    let search = choose|search: SearchView|
        {
            &&& #[trigger] is_candidate(search, backup)
            &&& search.path == path
            &&& search.suffix == suffix
            &&& search.extension == "bak"@
            &&& is_named(path, Some(search.file_name))
        };
    let name = tried_name(search);
    assert(name.last() == 'k');
    siblings_end_with_name(path, name, backup);
    lemma_last(backup, name);
    if ends_with(backup, ".recovered"@) {
        lemma_last(backup, ".recovered"@);
    }
    if ends_with(backup, ".sqlite"@) {
        lemma_last(backup, ".sqlite"@);
    }
    if ends_with(backup, "-wal"@) {
        lemma_last(backup, "-wal"@);
    }
    if ends_with(backup, "-shm"@) {
        lemma_last(backup, "-shm"@);
    }
}

/// A text ends with the last character of its end.
proof fn lemma_last(text: Seq<char>, end: Seq<char>)
    requires
        ends_with(text, end),
        end.len() > 0,
    ensures
        text.last() == end.last(),
{
    assert(text.skip(text.len() - end.len()).last() == end.last());
}

/// The name for a recovered or a fresh database ends with its extension.
pub proof fn copies_end_with_their_extension(
    path: Seq<char>,
    suffix: Seq<char>,
    extension: Seq<char>,
    copy: Seq<char>,
)
    requires
        is_copy_name(path, suffix, extension, copy),
        !is_verbatim(path),
    ensures
        ends_with(copy, "."@ + extension),
{
    let search = choose|search: SearchView|
        {
            &&& #[trigger] is_candidate(search, copy)
            &&& search.path == path
            &&& search.suffix == suffix
            &&& search.extension == extension
            &&& is_named(path, Some(search.file_name))
        };
    siblings_end_with_name(path, tried_name(search), copy);
    lemma_tried_name_ends(search, copy);
}

/// What ends with the name that a search tries ends with its extension.
proof fn lemma_tried_name_ends(search: SearchView, copy: Seq<char>)
    requires
        ends_with(copy, tried_name(search)),
    ensures
        ends_with(copy, "."@ + search.extension),
{
    let name = tried_name(search);
    let end = "."@ + search.extension;
    assert(name.skip(name.len() - end.len()) =~= end);
    assert(copy.skip(copy.len() - end.len()) =~= copy.skip(copy.len() - name.len()).skip(
        name.len() - end.len(),
    ));
}

/// `copy` stands in the directory of `path` under the name `name`: of the
/// components only the last one differs.
pub open spec fn stands_beside(
    style: PathStyle,
    path: Seq<char>,
    name: Seq<char>,
    copy: Seq<char>,
) -> bool {
    text_codes(style, copy) == text_codes(style, path).drop_last().push(name_codes(name))
}

/// `part` holds no separator.
pub open spec fn is_whole(part: Seq<char>) -> bool {
    forall|i: int| 0 <= i < part.len() ==> !is_cut(PathStyle::Windows, #[trigger] part[i])
}

/// What a recovery adds to names holds no separator.
pub proof fn recovery_names_are_whole(seconds: Option<u64>)
    ensures
        is_whole(suffix_text(seconds)),
        is_whole("bak"@),
        is_whole("recovered"@),
{
    reveal_strlit("codex-recovery-");
    reveal_strlit("bak");
    reveal_strlit("recovered");
    let number = match seconds {
        Some(seconds) => seconds as nat,
        None => 0,
    };
    lemma_decimal_digits(number);
    let front = "codex-recovery-"@;
    let suffix = suffix_text(seconds);
    assert forall|i: int| 0 <= i < suffix.len() implies !is_cut(
        PathStyle::Windows,
        #[trigger] suffix[i],
    ) by {
        if i >= front.len() {
            assert(suffix[i] == decimal(number)[i - front.len()]);
            assert(is_digit(decimal(number)[i - front.len()]));
        } else {
            assert(suffix[i] == front[i]);
        }
    }
}

/// A name that a search tries can be the name of a file.
proof fn lemma_tried_name_is_file_name(search: SearchView)
    requires
        search.file_name.len() > 0,
        !has_drive(search.file_name),
        is_whole(search.file_name),
        is_whole(search.suffix),
        is_whole(search.extension),
    ensures
        is_file_name(PathStyle::Unix, tried_name(search)),
        is_file_name(PathStyle::Windows, tried_name(search)),
{
    let own = search.file_name;
    let name = tried_name(search);
    reveal_strlit(".");
    lemma_decimal_digits(search.sequence);
    let digits = decimal(search.sequence);
    let front = own + ("."@ + search.suffix);
    let back = "."@ + search.extension;
    let start = front.len() as int + 1;
    assert(name =~= numbered(front, digits, back));
    assert forall|i: int| 0 <= i < name.len() implies !is_cut(
        PathStyle::Windows,
        #[trigger] name[i],
    ) by {
        if i < own.len() {
            assert(name[i] == own[i]);
        } else if i < front.len() {
            assert(name[i] == ("."@ + search.suffix)[i - own.len()]);
            if i > own.len() {
                assert(name[i] == search.suffix[i - own.len() - 1]);
            }
        } else if start <= i < start + digits.len() {
            assert(name[i] == digits[i - start]);
            assert(is_digit(digits[i - start]));
        } else if i >= start + digits.len() {
            assert(name[i] == back[i - start - digits.len()]);
            if i > start + digits.len() {
                assert(name[i] == search.extension[i - start - digits.len() - 1]);
            }
        }
    }
    assert forall|i: int| 0 <= i < name.len() implies !is_cut(
        PathStyle::Unix,
        #[trigger] name[i],
    ) by {
        assert(!is_cut(PathStyle::Windows, name[i]));
    }
    assert(name.len() > 2);
    assert(name[0] == own[0]);
    assert(own.len() > 1 ==> name[1] == own[1]);
    assert(own.len() == 1 ==> name[1] == '.');
}

/// A copy stands in the directory of what it is a copy of, under its name and a
/// number. On Windows a name that starts like a drive would be taken for one,
/// so such a name is left out.
pub proof fn copies_stand_beside(
    path: Seq<char>,
    suffix: Seq<char>,
    extension: Seq<char>,
    copy: Seq<char>,
)
    requires
        is_copy_name(path, suffix, extension, copy),
        is_plain(path),
        text_name(PathStyle::Unix, path) is Some,
        !has_drive(text_name(PathStyle::Unix, path)->0),
        is_whole(suffix),
        is_whole(extension),
    ensures
        exists|style: PathStyle, sequence: nat| #[trigger]
            stands_beside(
                style,
                path,
                text_name(PathStyle::Unix, path)->0 + tail(suffix, sequence, extension),
                copy,
            ),
{
    let search = choose|search: SearchView|
        {
            &&& #[trigger] is_candidate(search, copy)
            &&& search.path == path
            &&& search.suffix == suffix
            &&& search.extension == extension
            &&& is_named(path, Some(search.file_name))
        };
    let own = text_name(PathStyle::Unix, path)->0;
    let name = tried_name(search);
    plain_paths_read_alike(path);
    plain_names_are_whole(path);
    assert(search.file_name == own);
    lemma_tried_name_is_file_name(search);
    if path.len() > 0 {
        assert(path.contains(path[0]));
    }
    if path.len() > 1 {
        assert(path.contains(path[1]));
    }
    if is_sibling_in(PathStyle::Unix, path, name, copy) {
        siblings_stand_beside(PathStyle::Unix, path, name, copy);
        assert(stands_beside(
            PathStyle::Unix,
            path,
            own + tail(suffix, search.sequence, extension),
            copy,
        ));
    } else {
        siblings_stand_beside(PathStyle::Windows, path, name, copy);
        assert(stands_beside(
            PathStyle::Windows,
            path,
            own + tail(suffix, search.sequence, extension),
            copy,
        ));
    }
}

/// `a` and `b` are in the same directory: of their components only the last
/// ones differ.
pub open spec fn same_directory(style: PathStyle, a: Seq<char>, b: Seq<char>) -> bool {
    &&& text_codes(style, a).len() > 0
    &&& text_codes(style, b).len() > 0
    &&& text_codes(style, a).drop_last() == text_codes(style, b).drop_last()
}

/// A recovery stays in the directory of its database: every copy of the
/// database, or of what SQLite keeps beside it, stands there.
pub proof fn copies_stay_with_the_database(
    path: Seq<char>,
    source: Seq<char>,
    suffix: Seq<char>,
    extension: Seq<char>,
    copy: Seq<char>,
)
    requires
        sqlite_texts(path).contains(source),
        is_copy_name(source, suffix, extension, copy),
        is_plain(path),
        ends_in_name(path),
        !has_drive(text_name(PathStyle::Unix, path)->0),
        is_whole(suffix),
        is_whole(extension),
    ensures
        exists|style: PathStyle| #[trigger] same_directory(style, path, copy),
{
    reveal_strlit("-wal");
    reveal_strlit("-shm");
    longer_names_stand_beside(path, "-wal"@);
    longer_names_stand_beside(path, "-shm"@);
    let own = text_name(PathStyle::Unix, path)->0;
    let k = choose|k: int| 0 <= k < sqlite_texts(path).len() && sqlite_texts(path)[k] == source;
    let name = text_name(PathStyle::Unix, source)->0;
    assert(k == 0 ==> source == path);
    assert(k == 1 ==> source == path + "-wal"@);
    assert(k == 2 ==> source == path + "-shm"@);
    plain_names_are_whole(path);
    assert(name[0] == own[0]);
    assert(own.len() > 1 ==> name[1] == own[1]);
    plain_paths_read_alike(path);
    plain_paths_read_alike(source);
    copies_stand_beside(source, suffix, extension, copy);
    let (style, sequence) = choose|style: PathStyle, sequence: nat| #[trigger]
        stands_beside(style, source, name + tail(suffix, sequence, extension), copy);
    let codes = text_codes(PathStyle::Unix, path);
    assert(text_codes(style, path) == codes);
    assert(text_codes(style, source) == text_codes(PathStyle::Unix, source));
    assert(codes.drop_last().push(name_codes(name)).drop_last() =~= codes.drop_last());
    let last = name_codes(name + tail(suffix, sequence, extension));
    assert(codes.drop_last().push(last).drop_last() =~= codes.drop_last());
    assert(same_directory(style, path, copy));
}

} // verus!
