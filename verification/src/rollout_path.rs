//! Paths of rollout files: how they are taken apart, told apart and ordered.
//!
//! What a path text means differs between platforms, so the standard library
//! takes it apart. From there on a path is its sequence of components: two
//! paths are the same if their components are, and they are ordered component
//! by component.
use std::path::Component::{CurDir, Normal, ParentDir, RootDir};
use std::path::Prefix::{DeviceNS, Disk, UNC, Verbatim, VerbatimDisk, VerbatimUNC};
use std::path::{Component, Path};

use vstd::prelude::*;

use crate::order::{
    Rank, byte_codes, compare_numbers, flip, lex_order, lex_order_equal, lex_order_flip,
    lex_order_transitive, number_codes,
};
use crate::path_text::{
    drive_codes, is_absolute_path, is_below, join_paths, reads_as, unc_codes,
};

verus! {

/// A Windows prefix. Names are kept as the bytes of their platform encoding,
/// and the letter of a drive is in upper case.
pub enum PathPrefix {
    /// `\\?\name`
    Verbatim(Vec<u8>),
    /// `\\?\UNC\server\share`
    VerbatimUnc(Vec<u8>, Vec<u8>),
    /// `\\?\C:`
    VerbatimDisk(u8),
    /// `\\.\name`
    DeviceNs(Vec<u8>),
    /// `\\server\share`
    Unc(Vec<u8>, Vec<u8>),
    /// `C:`
    Disk(u8),
}

/// One component of a path. Names are kept as the bytes of their platform
/// encoding.
pub enum PathComponent {
    /// A Windows prefix.
    Prefix(PathPrefix),
    /// The root directory.
    RootDir,
    /// `.`
    CurDir,
    /// `..`
    ParentDir,
    /// A file or directory name.
    Normal(Vec<u8>),
}

impl PathPrefix {
    /// The numbers by which a prefix is ordered: that of prefixes, its kind,
    /// and then its parts. What stands between two parts is less than any byte.
    pub open spec fn codes(self) -> Seq<int> {
        match self {
            PathPrefix::Verbatim(name) => seq![0int, 0int] + byte_codes(name@),
            PathPrefix::VerbatimUnc(server, share) => {
                seq![0int, 1int] + byte_codes(server@) + seq![-1int] + byte_codes(share@)
            },
            PathPrefix::VerbatimDisk(letter) => seq![0int, 2int, letter as int],
            PathPrefix::DeviceNs(name) => seq![0int, 3int] + byte_codes(name@),
            PathPrefix::Unc(server, share) => unc_codes(server@, share@),
            PathPrefix::Disk(letter) => drive_codes(letter as int),
        }
    }

    fn numbers(&self) -> (numbers: Vec<i16>)
        ensures
            number_codes(numbers@) == self.codes(),
    {
        let mut numbers: Vec<i16> = Vec::new();
        assert(number_codes(numbers@) =~= seq![]);
        push_number(&mut numbers, 0);
        match self {
            PathPrefix::Verbatim(name) => {
                push_number(&mut numbers, 0);
                push_bytes(&mut numbers, name);
            },
            PathPrefix::VerbatimUnc(server, share) => {
                push_number(&mut numbers, 1);
                push_bytes(&mut numbers, server);
                push_number(&mut numbers, -1);
                push_bytes(&mut numbers, share);
            },
            PathPrefix::VerbatimDisk(letter) => {
                push_number(&mut numbers, 2);
                push_number(&mut numbers, *letter as i16);
            },
            PathPrefix::DeviceNs(name) => {
                push_number(&mut numbers, 3);
                push_bytes(&mut numbers, name);
            },
            PathPrefix::Unc(server, share) => {
                push_number(&mut numbers, 4);
                push_bytes(&mut numbers, server);
                push_number(&mut numbers, -1);
                push_bytes(&mut numbers, share);
            },
            PathPrefix::Disk(letter) => {
                push_number(&mut numbers, 5);
                push_number(&mut numbers, *letter as i16);
            },
        }
        assert(number_codes(numbers@) =~= self.codes());
        numbers
    }
}

impl Clone for PathPrefix {
    fn clone(&self) -> (copy: Self)
        ensures
            copy.codes() == self.codes(),
    {
        match self {
            PathPrefix::Verbatim(name) => PathPrefix::Verbatim(name.clone()),
            PathPrefix::VerbatimUnc(server, share) => PathPrefix::VerbatimUnc(
                server.clone(),
                share.clone(),
            ),
            PathPrefix::VerbatimDisk(letter) => PathPrefix::VerbatimDisk(*letter),
            PathPrefix::DeviceNs(name) => PathPrefix::DeviceNs(name.clone()),
            PathPrefix::Unc(server, share) => PathPrefix::Unc(server.clone(), share.clone()),
            PathPrefix::Disk(letter) => PathPrefix::Disk(*letter),
        }
    }
}

/// Appends a number to numbers.
fn push_number(numbers: &mut Vec<i16>, number: i16)
    ensures
        number_codes(final(numbers)@) == number_codes(old(numbers)@).push(number as int),
{
    let ghost before = numbers@;
    numbers.push(number);
    assert(number_codes(numbers@) =~= number_codes(before).push(number as int));
}

/// Appends bytes to numbers.
fn push_bytes(numbers: &mut Vec<i16>, bytes: &Vec<u8>)
    ensures
        number_codes(final(numbers)@) == number_codes(old(numbers)@) + byte_codes(bytes@),
{
    let ghost before = numbers@;
    let mut i: usize = 0;
    assert(byte_codes(bytes@.take(0)) =~= seq![]);
    assert(number_codes(before) + byte_codes(bytes@.take(0)) =~= number_codes(before));
    while i < bytes.len()
        invariant
            i <= bytes@.len(),
            number_codes(numbers@) == number_codes(before) + byte_codes(bytes@.take(i as int)),
        decreases bytes@.len() - i,
    {
        let ghost so_far = numbers@;
        numbers.push(bytes[i] as i16);
        assert(number_codes(numbers@) =~= number_codes(so_far).push(bytes@[i as int] as int));
        assert(byte_codes(bytes@.take(i + 1)) =~= byte_codes(bytes@.take(i as int)).push(
            bytes@[i as int] as int,
        ));
        i = i + 1;
    }
    assert(bytes@.take(bytes@.len() as int) =~= bytes@);
}

impl PathComponent {
    /// The numbers by which a component is ordered: its kind, then its parts.
    pub open spec fn codes(self) -> Seq<int> {
        match self {
            PathComponent::Prefix(prefix) => prefix.codes(),
            PathComponent::RootDir => seq![1int],
            PathComponent::CurDir => seq![2int],
            PathComponent::ParentDir => seq![3int],
            PathComponent::Normal(name) => seq![4int] + byte_codes(name@),
        }
    }

    fn numbers(&self) -> (numbers: Vec<i16>)
        ensures
            number_codes(numbers@) == self.codes(),
    {
        let mut numbers: Vec<i16> = Vec::new();
        match self {
            PathComponent::Prefix(prefix) => {
                return prefix.numbers();
            },
            PathComponent::RootDir => numbers.push(1),
            PathComponent::CurDir => numbers.push(2),
            PathComponent::ParentDir => numbers.push(3),
            PathComponent::Normal(name) => {
                numbers.push(4);
                push_bytes(&mut numbers, name);
            },
        }
        assert(number_codes(numbers@) =~= self.codes());
        numbers
    }
}

/// A path, as its text and as its components.
pub struct RolloutPath {
    pub text: String,
    pub components: Vec<PathComponent>,
}

/// What identifies a path: the codes of its components.
pub open spec fn component_codes(components: Seq<PathComponent>) -> Seq<Seq<int>> {
    components.map_values(|component: PathComponent| component.codes())
}

impl View for RolloutPath {
    type V = Seq<Seq<int>>;

    open spec fn view(&self) -> Seq<Seq<int>> {
        component_codes(self.components@)
    }
}

/// The order of two paths: component by component; a parent directory comes
/// before what it holds.
pub open spec fn path_order(a: Seq<Seq<int>>, b: Seq<Seq<int>>) -> Rank
    decreases a.len(),
{
    if a.len() == 0 {
        if b.len() == 0 {
            Rank::Equal
        } else {
            Rank::Less
        }
    } else if b.len() == 0 {
        Rank::Greater
    } else {
        match lex_order(a[0], b[0]) {
            Rank::Less => Rank::Less,
            Rank::Greater => Rank::Greater,
            Rank::Equal => path_order(a.drop_first(), b.drop_first()),
        }
    }
}

/// Only a path itself ranks equal to it.
pub proof fn path_order_equal(a: Seq<Seq<int>>, b: Seq<Seq<int>>)
    ensures
        path_order(a, b) is Equal <==> a == b,
    decreases a.len(),
{
    if a.len() > 0 && b.len() > 0 {
        lex_order_equal(a[0], b[0]);
        path_order_equal(a.drop_first(), b.drop_first());
        if a[0] == b[0] && a.drop_first() == b.drop_first() {
            assert(a =~= seq![a[0]] + a.drop_first());
            assert(b =~= seq![b[0]] + b.drop_first());
        }
    } else if a.len() == 0 && b.len() == 0 {
        assert(a =~= b);
    }
}

/// Exchanging the two paths flips the outcome.
pub proof fn path_order_flip(a: Seq<Seq<int>>, b: Seq<Seq<int>>)
    ensures
        path_order(b, a) == flip(path_order(a, b)),
    decreases a.len(),
{
    if a.len() > 0 && b.len() > 0 {
        lex_order_flip(a[0], b[0]);
        path_order_flip(a.drop_first(), b.drop_first());
    }
}

/// The order of paths is transitive.
pub proof fn path_order_transitive(a: Seq<Seq<int>>, b: Seq<Seq<int>>, c: Seq<Seq<int>>)
    requires
        path_order(a, b) is Less,
        path_order(b, c) is Less,
    ensures
        path_order(a, c) is Less,
    decreases a.len(),
{
    if a.len() > 0 && b.len() > 0 && c.len() > 0 {
        lex_order_equal(a[0], b[0]);
        lex_order_equal(b[0], c[0]);
        if lex_order(a[0], b[0]) is Less && lex_order(b[0], c[0]) is Less {
            lex_order_transitive(a[0], b[0], c[0]);
        } else if a[0] == b[0] && b[0] == c[0] {
            path_order_transitive(a.drop_first(), b.drop_first(), c.drop_first());
        }
    }
}

/// The first different component decides, and a directory comes before what is
/// below it.
pub proof fn first_different_component_decides(
    front: Seq<Seq<int>>,
    a: Seq<int>,
    b: Seq<int>,
    rest: Seq<Seq<int>>,
    other: Seq<Seq<int>>,
)
    ensures
        a != b ==> path_order(front.push(a) + rest, front.push(b) + other) == lex_order(a, b),
        path_order(front, front.push(a) + rest) is Less,
        path_order(front.push(a) + rest, front) is Greater,
        path_order(front, front) is Equal,
    decreases front.len(),
{
    let x = front.push(a) + rest;
    let y = front.push(b) + other;
    if front.len() == 0 {
        lex_order_equal(a, b);
        assert(x[0] == a && y[0] == b);
    } else {
        let inner = front.drop_first();
        first_different_component_decides(inner, a, b, rest, other);
        assert(x.drop_first() =~= inner.push(a) + rest);
        assert(y.drop_first() =~= inner.push(b) + other);
        assert(x[0] == front[0] && y[0] == front[0]);
        lex_order_equal(front[0], front[0]);
    }
}

/// Which of the components comes first where they differ in what they are.
pub open spec fn component_rank(component: PathComponent) -> int {
    match component {
        PathComponent::Prefix(_) => 0,
        PathComponent::RootDir => 1,
        PathComponent::CurDir => 2,
        PathComponent::ParentDir => 3,
        PathComponent::Normal(_) => 4,
    }
}

/// A prefix comes before the root, the root before the current directory, that
/// before the parent, and that before any name. Names are ordered by their
/// bytes.
pub proof fn components_are_ordered_by_what_they_are(a: PathComponent, b: PathComponent)
    ensures
        component_rank(a) < component_rank(b) ==> lex_order(a.codes(), b.codes()) is Less,
        component_rank(a) > component_rank(b) ==> lex_order(a.codes(), b.codes()) is Greater,
        a matches PathComponent::Normal(x) ==> (b matches PathComponent::Normal(y) ==> lex_order(
            a.codes(),
            b.codes(),
        ) == lex_order(byte_codes(x@), byte_codes(y@))),
{
    assert(a.codes()[0] == component_rank(a));
    assert(b.codes()[0] == component_rank(b));
    if let (PathComponent::Normal(x), PathComponent::Normal(y)) = (a, b) {
        assert(a.codes().drop_first() =~= byte_codes(x@));
        assert(b.codes().drop_first() =~= byte_codes(y@));
    }
}

/// Which of the prefixes comes first where they differ in what they are.
pub open spec fn prefix_rank(prefix: PathPrefix) -> int {
    match prefix {
        PathPrefix::Verbatim(_) => 0,
        PathPrefix::VerbatimUnc(_, _) => 1,
        PathPrefix::VerbatimDisk(_) => 2,
        PathPrefix::DeviceNs(_) => 3,
        PathPrefix::Unc(_, _) => 4,
        PathPrefix::Disk(_) => 5,
    }
}

/// Two pairs of names are ordered by the first name, and by the second one where
/// the first ones are the same.
proof fn lemma_pairs(x: Seq<u8>, s: Seq<u8>, y: Seq<u8>, t: Seq<u8>)
    ensures
        lex_order(
            byte_codes(x) + seq![-1int] + byte_codes(s),
            byte_codes(y) + seq![-1int] + byte_codes(t),
        ) == if x == y {
            lex_order(byte_codes(s), byte_codes(t))
        } else {
            lex_order(byte_codes(x), byte_codes(y))
        },
    decreases x.len(),
{
    let a = byte_codes(x) + seq![-1int] + byte_codes(s);
    let b = byte_codes(y) + seq![-1int] + byte_codes(t);
    assert(a[0] == if x.len() > 0 {
        x[0] as int
    } else {
        -1
    });
    assert(b[0] == if y.len() > 0 {
        y[0] as int
    } else {
        -1
    });
    if x.len() == 0 && y.len() == 0 {
        assert(x =~= y);
        assert(a.drop_first() =~= byte_codes(s));
        assert(b.drop_first() =~= byte_codes(t));
    } else if x.len() > 0 && y.len() > 0 {
        let p = x.drop_first();
        let q = y.drop_first();
        assert(a.drop_first() =~= byte_codes(p) + seq![-1int] + byte_codes(s));
        assert(b.drop_first() =~= byte_codes(q) + seq![-1int] + byte_codes(t));
        assert(byte_codes(x).drop_first() =~= byte_codes(p));
        assert(byte_codes(y).drop_first() =~= byte_codes(q));
        assert(byte_codes(x)[0] == x[0] as int && byte_codes(y)[0] == y[0] as int);
        lemma_pairs(p, s, q, t);
        if x[0] == y[0] && p == q {
            assert(x =~= seq![x[0]] + p);
            assert(y =~= seq![y[0]] + q);
        }
    } else {
        assert(byte_codes(x).len() == x.len() && byte_codes(y).len() == y.len());
    }
}

/// Prefixes are ordered by what they are; those of one sort by their letter or
/// the bytes of their name, and those that name a server by the server and then
/// by the share.
pub proof fn prefixes_are_ordered_by_what_they_are(a: PathPrefix, b: PathPrefix)
    ensures
        prefix_rank(a) < prefix_rank(b) ==> lex_order(a.codes(), b.codes()) is Less,
        prefix_rank(a) > prefix_rank(b) ==> lex_order(a.codes(), b.codes()) is Greater,
        match (a, b) {
            (PathPrefix::Verbatim(x), PathPrefix::Verbatim(y)) => lex_order(a.codes(), b.codes())
                == lex_order(byte_codes(x@), byte_codes(y@)),
            (PathPrefix::DeviceNs(x), PathPrefix::DeviceNs(y)) => lex_order(a.codes(), b.codes())
                == lex_order(byte_codes(x@), byte_codes(y@)),
            (PathPrefix::VerbatimDisk(x), PathPrefix::VerbatimDisk(y)) => x < y ==> lex_order(
                a.codes(),
                b.codes(),
            ) is Less,
            (PathPrefix::Disk(x), PathPrefix::Disk(y)) => x < y ==> lex_order(
                a.codes(),
                b.codes(),
            ) is Less,
            (PathPrefix::VerbatimUnc(x, s), PathPrefix::VerbatimUnc(y, t)) => lex_order(
                a.codes(),
                b.codes(),
            ) == if x@ == y@ {
                lex_order(byte_codes(s@), byte_codes(t@))
            } else {
                lex_order(byte_codes(x@), byte_codes(y@))
            },
            (PathPrefix::Unc(x, s), PathPrefix::Unc(y, t)) => lex_order(a.codes(), b.codes())
                == if x@ == y@ {
                lex_order(byte_codes(s@), byte_codes(t@))
            } else {
                lex_order(byte_codes(x@), byte_codes(y@))
            },
            _ => true,
        },
{
    let left = a.codes();
    let right = b.codes();
    assert(left[0] == 0 && right[0] == 0);
    let p = left.drop_first();
    let q = right.drop_first();
    assert(p[0] == prefix_rank(a) && q[0] == prefix_rank(b));
    assert(lex_order(left, right) == lex_order(p, q));
    if prefix_rank(a) == prefix_rank(b) {
        let x = p.drop_first();
        let y = q.drop_first();
        assert(lex_order(p, q) == lex_order(x, y));
        match (a, b) {
            (PathPrefix::Verbatim(m), PathPrefix::Verbatim(n)) => {
                assert(x =~= byte_codes(m@) && y =~= byte_codes(n@));
            },
            (PathPrefix::DeviceNs(m), PathPrefix::DeviceNs(n)) => {
                assert(x =~= byte_codes(m@) && y =~= byte_codes(n@));
            },
            (PathPrefix::VerbatimDisk(m), PathPrefix::VerbatimDisk(n)) => {
                assert(x[0] == m as int && y[0] == n as int);
            },
            (PathPrefix::Disk(m), PathPrefix::Disk(n)) => {
                assert(x[0] == m as int && y[0] == n as int);
            },
            (PathPrefix::VerbatimUnc(m, s), PathPrefix::VerbatimUnc(n, t)) => {
                assert(x =~= byte_codes(m@) + seq![-1int] + byte_codes(s@));
                assert(y =~= byte_codes(n@) + seq![-1int] + byte_codes(t@));
                lemma_pairs(m@, s@, n@, t@);
            },
            (PathPrefix::Unc(m, s), PathPrefix::Unc(n, t)) => {
                assert(x =~= byte_codes(m@) + seq![-1int] + byte_codes(s@));
                assert(y =~= byte_codes(n@) + seq![-1int] + byte_codes(t@));
                lemma_pairs(m@, s@, n@, t@);
            },
            _ => {},
        }
    }
}

/// Compares two components.
fn compare_components(a: &PathComponent, b: &PathComponent) -> (rank: Rank)
    ensures
        rank == lex_order(a.codes(), b.codes()),
{
    let left = a.numbers();
    let right = b.numbers();
    compare_numbers(&left, &right)
}

/// Compares two paths.
pub fn compare_paths(a: &RolloutPath, b: &RolloutPath) -> (rank: Rank)
    ensures
        rank == path_order(a@, b@),
{
    let ghost x = a@;
    let ghost y = b@;
    let mut i: usize = 0;
    assert(x.skip(0) =~= x && y.skip(0) =~= y);
    while i < a.components.len() && i < b.components.len()
        invariant
            x == a@,
            y == b@,
            i <= a.components@.len(),
            i <= b.components@.len(),
            path_order(x, y) == path_order(x.skip(i as int), y.skip(i as int)),
        decreases a.components@.len() - i,
    {
        assert(x.skip(i as int)[0] == a.components@[i as int].codes());
        assert(y.skip(i as int)[0] == b.components@[i as int].codes());
        assert(x.skip(i as int).drop_first() =~= x.skip(i + 1));
        assert(y.skip(i as int).drop_first() =~= y.skip(i + 1));
        match compare_components(&a.components[i], &b.components[i]) {
            Rank::Less => {
                return Rank::Less;
            },
            Rank::Greater => {
                return Rank::Greater;
            },
            Rank::Equal => {},
        }
        i = i + 1;
    }
    if i < b.components.len() {
        Rank::Less
    } else if i < a.components.len() {
        Rank::Greater
    } else {
        Rank::Equal
    }
}

/// Tests whether two paths are the same.
pub fn same_path(a: &RolloutPath, b: &RolloutPath) -> (same: bool)
    ensures
        same == (a@ == b@),
{
    proof {
        path_order_equal(a@, b@);
    }
    match compare_paths(a, b) {
        Rank::Equal => true,
        _ => false,
    }
}

// ---------------------------------------------------------------------------
// Taking texts apart
// ---------------------------------------------------------------------------

/// The components of a path stand in an order that makes sense: a prefix only
/// at the front, the root at the front or right behind a prefix.
pub open spec fn well_ordered(components: Seq<PathComponent>) -> bool {
    forall|i: int|
        #![trigger components[i]]
        0 <= i < components.len() ==> {
            &&& components[i] is Prefix ==> i == 0
            &&& components[i] is RootDir ==> i == 0 || (i == 1 && components[0] is Prefix)
        }
}

/// `std::path::Path::components`. On Unix a path falls apart at each `/`, on
/// Windows at `/` and `\` behind a drive or a share; repeated separators and
/// `.` are dropped, except `.` at the front. Which of the two holds is up to the
/// machine and not said. What looks like a Windows verbatim path or device may
/// start with a prefix instead, and what comes behind that is not said, except
/// that the root stands right there or nowhere.
#[verifier::external_body]
fn path_components(path: &str) -> (components: Vec<PathComponent>)
    ensures
        well_ordered(components@),
        reads_as(path@, component_codes(components@)),
{
    let bytes = |name| Normal(name).as_os_str().as_encoded_bytes().to_vec();
    Path::new(path).components().map(|component| match component {
        Component::Prefix(prefix) => PathComponent::Prefix(match prefix.kind() {
            Verbatim(name) => PathPrefix::Verbatim(bytes(name)),
            VerbatimUNC(server, share) => PathPrefix::VerbatimUnc(bytes(server), bytes(share)),
            VerbatimDisk(letter) => PathPrefix::VerbatimDisk(letter),
            DeviceNS(name) => PathPrefix::DeviceNs(bytes(name)),
            UNC(server, share) => PathPrefix::Unc(bytes(server), bytes(share)),
            Disk(letter) => PathPrefix::Disk(letter),
        }),
        RootDir => PathComponent::RootDir,
        CurDir => PathComponent::CurDir,
        ParentDir => PathComponent::ParentDir,
        Normal(name) => PathComponent::Normal(bytes(name)),
    }).collect()
}

/// `path` is what `text` writes, below `root` where it is not absolute.
pub open spec fn resolves(root: Seq<char>, text: Seq<char>, path: RolloutPath) -> bool {
    &&& is_below(root, text, path.text@)
    &&& reads_as(path.text@, path@)
    &&& well_ordered(path.components@)
}

impl RolloutPath {
    /// The path that `text` writes.
    pub fn new(text: &str) -> (path: Self)
        ensures
            path.text@ == text@,
            reads_as(text@, path@),
            well_ordered(path.components@),
    {
        RolloutPath { text: text.to_string(), components: path_components(text) }
    }

    /// The path that `text` writes, below `root` where it is not absolute.
    pub fn resolve(root: &str, text: &str) -> (path: Self)
        ensures
            resolves(root@, text@, path),
    {
        if is_absolute_path(text) {
            assert(text@.skip(0) =~= text@);
            RolloutPath::new(text)
        } else {
            RolloutPath::new(join_paths(root, text).as_str())
        }
    }
}

impl Clone for RolloutPath {
    fn clone(&self) -> (copy: Self)
        ensures
            copy@ == self@,
            copy.text@ == self.text@,
    {
        let mut components: Vec<PathComponent> = Vec::new();
        let mut i: usize = 0;
        while i < self.components.len()
            invariant
                i <= self.components@.len(),
                component_codes(components@) == component_codes(self.components@).take(i as int),
            decreases self.components@.len() - i,
        {
            let ghost before = components@;
            let copied = match &self.components[i] {
                PathComponent::Prefix(prefix) => PathComponent::Prefix(prefix.clone()),
                PathComponent::RootDir => PathComponent::RootDir,
                PathComponent::CurDir => PathComponent::CurDir,
                PathComponent::ParentDir => PathComponent::ParentDir,
                PathComponent::Normal(name) => PathComponent::Normal(name.clone()),
            };
            assert(copied.codes() =~= self.components@[i as int].codes());
            components.push(copied);
            assert(component_codes(components@) =~= component_codes(before).push(copied.codes()));
            assert(component_codes(self.components@).take(i + 1) =~= component_codes(
                self.components@,
            ).take(i as int).push(self.components@[i as int].codes()));
            i = i + 1;
        }
        assert(component_codes(self.components@).take(self.components@.len() as int)
            =~= component_codes(self.components@));
        RolloutPath { text: self.text.clone(), components }
    }
}

} // verus!
