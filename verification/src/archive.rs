//! The books lie in archives, each named after the closed range of book ids
//! that it holds: `fb2-<min>-<max>`, somewhere in the file's name. This
//! module reads such names, picks the archives that may hold a book, and
//! names the book inside an archive and the file it is extracted to.

use crate::text::{chars_of, decimal, decimal_string, digit_char};
use vstd::prelude::*;
use vstd::string::StringExecFns;

verus! {

/// The closed range of book ids that an archive holds.
#[derive(Clone, Copy, Debug, PartialEq, Eq, Structural)]
pub struct ArchiveRange {
    pub min_id: u32,
    pub max_id: u32,
}

impl ArchiveRange {
    /// Whether the book id lies in the range.
    pub open spec fn holds(self, id: u32) -> bool {
        self.min_id <= id <= self.max_id
    }

    /// Whether the book id lies in the range.
    pub fn contains(&self, id: u32) -> (inside: bool)
        ensures
            inside == self.holds(id),
    {
        self.min_id <= id && id <= self.max_id
    }
}

/// A decimal digit.
pub open spec fn is_digit(c: char) -> bool {
    '0' <= c <= '9'
}

/// The number that a run of digits writes; zero for the empty run.
pub open spec fn number(digits: Seq<char>) -> nat
    decreases digits.len(),
{
    if digits.len() == 0 {
        0
    } else {
        number(digits.drop_last()) * 10 + (digits.last() as nat - '0' as nat) as nat
    }
}

/// Where the digits that begin at `from` end: the first position from there
/// on that holds no digit.
pub open spec fn digits_end(name: Seq<char>, from: int) -> int
    decreases name.len() - from,
{
    if 0 <= from < name.len() && is_digit(name[from]) {
        digits_end(name, from + 1)
    } else {
        from
    }
}

/// The text that comes before the two numbers.
pub open spec fn marker() -> Seq<char> {
    seq!['f', 'b', '2', '-']
}

/// Whether a range is written at `at`: the marker, one digit or more, a
/// hyphen, one digit or more.
pub open spec fn range_at(name: Seq<char>, at: int) -> bool {
    let first = at + 4;
    let hyphen = digits_end(name, first);
    let second = hyphen + 1;
    &&& 0 <= at
    &&& first <= name.len()
    &&& name.subrange(at, first) == marker()
    &&& first < hyphen < name.len()
    &&& name[hyphen] == '-'
    &&& second < digits_end(name, second)
}

/// The first number of the range written at `at`, with all its digits.
pub open spec fn min_at(name: Seq<char>, at: int) -> nat {
    number(name.subrange(at + 4, digits_end(name, at + 4)))
}

/// The second number of the range written at `at`, with all its digits.
pub open spec fn max_at(name: Seq<char>, at: int) -> nat {
    let second = digits_end(name, at + 4) + 1;
    number(name.subrange(second, digits_end(name, second)))
}

/// The first position from `from` on at which a range is written.
pub open spec fn find_range(name: Seq<char>, from: int) -> Option<int>
    decreases name.len() - from,
{
    if from < 0 || from >= name.len() {
        None
    } else if range_at(name, from) {
        Some(from)
    } else {
        find_range(name, from + 1)
    }
}

/// The range that a file name gives: the numbers of the first place in the
/// name at which a range is written, where both fit an id. A name without
/// such a place, or with a number too large there, gives none.
pub open spec fn range_of(name: Seq<char>) -> Option<ArchiveRange> {
    match find_range(name, 0) {
        Some(at) => if min_at(name, at) <= u32::MAX && max_at(name, at) <= u32::MAX {
            Some(ArchiveRange { min_id: min_at(name, at) as u32, max_id: max_at(name, at) as u32 })
        } else {
            None
        },
        None => None,
    }
}

/// `find_range` finds a place at which a range is written, and the first
/// such place.
pub proof fn find_range_is_first(name: Seq<char>, from: int)
    requires
        0 <= from,
    ensures
        match find_range(name, from) {
            Some(at) => from <= at < name.len() && range_at(name, at) && forall|k: int|
                from <= k < at ==> !range_at(name, k),
            None => forall|k: int| from <= k ==> !range_at(name, k),
        },
    decreases name.len() - from,
{
    if from < name.len() && !range_at(name, from) {
        find_range_is_first(name, from + 1);
    }
}

/// A decimal numeral is made of digits, one at least, and writes its number.
pub proof fn numeral_writes_its_number(n: nat)
    ensures
        decimal(n).len() > 0,
        forall|i: int| 0 <= i < decimal(n).len() ==> is_digit(#[trigger] decimal(n)[i]),
        number(decimal(n)) == n,
    decreases n,
{
    if n >= 10 {
        numeral_writes_its_number(n / 10);
        let higher = decimal(n / 10);
        assert(decimal(n) == higher.push(digit_char(n % 10)));
        assert(decimal(n).drop_last() =~= higher);
        assert(decimal(n).last() == digit_char(n % 10));
        assert(digit_char(n % 10) as nat - '0' as nat == n % 10);
        assert(number(decimal(n)) == number(higher) * 10 + n % 10);
        assert forall|i: int| 0 <= i < decimal(n).len() implies is_digit(
            #[trigger] decimal(n)[i],
        ) by {
            if i < higher.len() {
                assert(decimal(n)[i] == higher[i]);
            }
        }
    } else {
        assert(decimal(n).drop_last() =~= Seq::<char>::empty());
        assert(decimal(n).last() == digit_char(n));
        assert(digit_char(n) as nat - '0' as nat == n);
        assert(number(decimal(n).drop_last()) == 0);
    }
}

/// Digits that stand in a name from `from` on, with no digit behind them,
/// end where the last of them ends.
proof fn digits_end_behind_a_run(name: Seq<char>, from: int, count: nat)
    requires
        0 <= from,
        from + count <= name.len(),
        forall|i: int| from <= i < from + count ==> is_digit(#[trigger] name[i]),
        from + count == name.len() || !is_digit(name[from + count]),
    ensures
        digits_end(name, from) == from + count,
    decreases count,
{
    if count > 0 {
        digits_end_behind_a_run(name, from + 1, (count - 1) as nat);
    }
}

/// The name of an archive as it is written for a range: the marker, the two
/// ids in decimal with a hyphen between them, and anything behind them that
/// does not begin with a digit.
pub open spec fn written_range(min_id: u32, max_id: u32, rest: Seq<char>) -> Seq<char> {
    marker() + decimal(min_id as nat) + seq!['-'] + decimal(max_id as nat) + rest
}

/// A name that is written for a range gives that range.
pub proof fn written_range_is_read(min_id: u32, max_id: u32, rest: Seq<char>)
    requires
        rest.len() == 0 || !is_digit(rest[0]),
    ensures
        range_of(written_range(min_id, max_id, rest)) == Some(ArchiveRange { min_id, max_id }),
{
    let low = decimal(min_id as nat);
    let high = decimal(max_id as nat);
    let name = written_range(min_id, max_id, rest);
    numeral_writes_its_number(min_id as nat);
    numeral_writes_its_number(max_id as nat);
    let hyphen = 4 + low.len();
    let second = hyphen + 1;
    let end = second + high.len();
    assert(name.len() == end + rest.len());
    assert(name.subrange(0, 4) =~= marker());
    assert forall|i: int| 4 <= i < hyphen implies is_digit(#[trigger] name[i]) by {
        assert(name[i] == low[i - 4]);
    }
    assert(name[hyphen as int] == '-');
    digits_end_behind_a_run(name, 4, low.len());
    assert forall|i: int| second <= i < end implies is_digit(#[trigger] name[i]) by {
        assert(name[i] == high[i - second]);
    }
    if rest.len() > 0 {
        assert(name[end as int] == rest[0]);
    }
    digits_end_behind_a_run(name, second as int, high.len());
    assert(range_at(name, 0));
    assert(name.subrange(4, hyphen as int) =~= low);
    assert(name.subrange(second as int, end as int) =~= high);
}

/// Reads the digits that begin at `from`: where they end, and the number
/// that they write, unless it is too large for an id.
fn read_number(name: &Vec<char>, from: usize) -> (read: (usize, Option<u32>))
    requires
        from <= name@.len(),
    ensures
        read.0 == digits_end(name@, from as int),
        from <= read.0 <= name@.len(),
        read.1 == (if number(name@.subrange(from as int, read.0 as int)) <= u32::MAX {
            Some(number(name@.subrange(from as int, read.0 as int)) as u32)
        } else {
            None
        }),
{
    let n = name.len();
    let mut at: usize = from;
    let mut value: u64 = 0;
    let mut fits = true;
    proof {
        assert(name@.subrange(from as int, from as int) =~= Seq::<char>::empty());
    }
    while at < n && '0' <= name[at] && name[at] <= '9'
        invariant
            n == name@.len(),
            from <= at <= n,
            digits_end(name@, from as int) == digits_end(name@, at as int),
            fits ==> value == number(name@.subrange(from as int, at as int)),
            fits ==> value <= u32::MAX,
            !fits ==> number(name@.subrange(from as int, at as int)) > u32::MAX,
        decreases n - at,
    {
        let digit: u64 = (name[at] as u32 - 48) as u64;
        proof {
            let longer = name@.subrange(from as int, at + 1);
            assert(longer.drop_last() =~= name@.subrange(from as int, at as int));
            assert(longer.last() == name@[at as int]);
        }
        if fits {
            value = value * 10 + digit;
            if value > 0xFFFF_FFFF {
                fits = false;
            }
        }
        at = at + 1;
    }
    if fits {
        (at, Some(value as u32))
    } else {
        (at, None)
    }
}

/// Whether the marker stands at `at`.
fn marker_at(name: &Vec<char>, at: usize) -> (found: bool)
    ensures
        found == (at + 4 <= name@.len() && name@.subrange(at as int, at + 4) == marker()),
{
    if name.len() < 4 || at > name.len() - 4 {
        return false;
    }
    let found = name[at] == 'f' && name[at + 1] == 'b' && name[at + 2] == '2' && name[at + 3]
        == '-';
    proof {
        let part = name@.subrange(at as int, at + 4);
        if found {
            assert(part =~= marker());
        } else {
            assert(part[0] == name@[at as int]);
            assert(part[1] == name@[at + 1]);
            assert(part[2] == name@[at + 2]);
            assert(part[3] == name@[at + 3]);
        }
    }
    found
}

/// Reads the range of book ids from the name of an archive.
pub fn parse_range(name: &str) -> (range: Option<ArchiveRange>)
    ensures
        range == range_of(name@),
{
    let chars = chars_of(name);
    let n = chars.len();
    let mut at: usize = 0;
    while at < n
        invariant
            n == chars@.len(),
            chars@ == name@,
            at <= n,
            find_range(chars@, 0) == find_range(chars@, at as int),
        decreases n - at,
    {
        if marker_at(&chars, at) {
            let (hyphen, min_id) = read_number(&chars, at + 4);
            if hyphen > at + 4 && hyphen < n && chars[hyphen] == '-' {
                let (end, max_id) = read_number(&chars, hyphen + 1);
                if end > hyphen + 1 {
                    assert(range_at(chars@, at as int));
                    return match (min_id, max_id) {
                        (Some(min_id), Some(max_id)) => Some(ArchiveRange { min_id, max_id }),
                        _ => None,
                    };
                }
            }
        }
        assert(!range_at(chars@, at as int));
        at = at + 1;
    }
    None
}

/// Whether the archive of this name may hold the book: its name gives a
/// range, and the id lies in it.
pub open spec fn covers(name: Seq<char>, id: u32) -> bool {
    range_of(name) matches Some(range) && range.holds(id)
}

/// Whether the archive of this name may hold the book.
pub fn may_hold(name: &str, id: u32) -> (covered: bool)
    ensures
        covered == covers(name@, id),
{
    match parse_range(name) {
        Some(range) => range.contains(id),
        None => false,
    }
}

/// The next archive to look into: the first of the file names from `from`
/// on that may hold the book, by its place in `names`. File names that give
/// no range are passed over.
pub fn next_candidate(names: &Vec<String>, id: u32, from: usize) -> (next: Option<usize>)
    ensures
        match next {
            Some(at) => {
                &&& from <= at < names@.len()
                &&& covers(names@[at as int]@, id)
                &&& forall|k: int| from <= k < at ==> !covers(#[trigger] names@[k]@, id)
            },
            None => forall|k: int| from <= k < names@.len() ==> !covers(#[trigger] names@[k]@, id),
        },
{
    let n = names.len();
    let mut at: usize = from;
    while at < n
        invariant
            n == names@.len(),
            from <= at,
            forall|k: int| from <= k < at && k < n ==> !covers(#[trigger] names@[k]@, id),
        decreases n - at,
    {
        if may_hold(names[at].as_str(), id) {
            return Some(at);
        }
        at = at + 1;
    }
    None
}

/// The name under which an archive holds the book.
pub fn member_name(id: u32) -> (name: String)
    ensures
        name@ == decimal(id as nat) + ".fb2"@,
{
    let mut name = decimal_string(id);
    name.append(".fb2");
    name
}

/// The name of the file that a book is extracted to: the checksum of the
/// stored book, so that the same book always lands in the same file.
pub fn artifact_name(checksum: u32) -> (name: String)
    ensures
        name@ == decimal(checksum as nat) + ".fb2"@,
{
    let mut name = decimal_string(checksum);
    name.append(".fb2");
    name
}

/// Why a book could not be handed out.
#[derive(Debug)]
pub enum LocateError {
    /// No archive under `root` holds the book: none covers its id, or those
    /// that do lack the book.
    RecordNotFound { id: u32, root: String },
    /// An archive that covers the id could not be opened or read.
    MalformedArchive { archive: String, reason: String },
}

impl LocateError {
    /// The words of this error, over the texts it holds.
    pub open spec fn text(self) -> Seq<char> {
        match self {
            LocateError::RecordNotFound { id, root } => "The book "@ + decimal(id as nat)
                + " was not found in "@ + root@,
            LocateError::MalformedArchive { archive, reason } => archive@ + ": "@ + reason@,
        }
    }

    /// The words of this error.
    pub fn message(&self) -> (words: String)
        ensures
            words@ == self.text(),
    {
        match self {
            LocateError::RecordNotFound { id, root } => {
                let mut words = "The book ".to_owned();
                words.append(decimal_string(*id).as_str());
                words.append(" was not found in ");
                words.append(root.as_str());
                words
            },
            LocateError::MalformedArchive { archive, reason } => {
                let mut words = archive.clone();
                words.append(": ");
                words.append(reason.as_str());
                words
            },
        }
    }
}

/// What came of the last thing done in the search for a book.
#[derive(Debug)]
pub enum Attempt {
    /// Nothing was done yet.
    Start,
    /// The archive at this place in the file names lacks the book.
    MemberMissing { at: usize },
    /// The archive of this name could not be opened or read.
    Unreadable { archive: String, reason: String },
    /// An archive holds the book, stored with this checksum.
    Stored { checksum: u32 },
}

/// What to do next in the search for a book.
#[derive(Debug)]
pub enum Move {
    /// Open the archive at this place in the file names, and look for the
    /// member of this name.
    Open { at: usize, member: String },
    /// Extract the book that was found to the file of this name.
    Extract { artifact: String },
    /// Give up.
    Fail(LocateError),
}

/// Whether `next` is the search from `from` on: opening the first archive
/// from there that may hold the book, or giving up where there is none.
pub open spec fn scans_from(names: Seq<String>, root: Seq<char>, id: u32, from: int, next: Move) -> bool {
    match next {
        Move::Open { at, member } => {
            &&& from <= at < names.len()
            &&& covers(names[at as int]@, id)
            &&& forall|k: int| from <= k < at ==> !covers(#[trigger] names[k]@, id)
            &&& member@ == decimal(id as nat) + ".fb2"@
        },
        Move::Fail(LocateError::RecordNotFound { id: missing, root: searched }) => {
            &&& forall|k: int| from <= k < names.len() ==> !covers(#[trigger] names[k]@, id)
            &&& missing == id
            &&& searched@ == root
        },
        _ => false,
    }
}

/// Whether `next` is the move that follows `attempt` in the search for the
/// book `id` among the files `names` of the directory `root`: the search
/// begins at the first file; an archive that lacks the book sends it on to
/// the files behind that archive; one that cannot be read ends it; a book
/// that was found is extracted to the file named after its checksum.
pub open spec fn follows(
    names: Seq<String>,
    root: Seq<char>,
    id: u32,
    attempt: Attempt,
    next: Move,
) -> bool {
    match attempt {
        Attempt::Start => scans_from(names, root, id, 0, next),
        Attempt::MemberMissing { at } => scans_from(names, root, id, at + 1, next),
        Attempt::Unreadable { archive, reason } => next matches Move::Fail(
            LocateError::MalformedArchive { archive: which, reason: why },
        ) && which@ == archive@ && why@ == reason@,
        Attempt::Stored { checksum } => next matches Move::Extract { artifact } && artifact@
            == decimal(checksum as nat) + ".fb2"@,
    }
}

/// Decides the next move in the search for the book `id` among the files
/// `names` of the directory `root`.
pub fn locate_step(names: &Vec<String>, root: &str, id: u32, attempt: Attempt) -> (next: Move)
    ensures
        follows(names@, root@, id, attempt, next),
{
    let from = match attempt {
        Attempt::Start => 0,
        Attempt::MemberMissing { at } => if at < names.len() {
            at + 1
        } else {
            names.len()
        },
        Attempt::Unreadable { archive, reason } => {
            return Move::Fail(LocateError::MalformedArchive { archive, reason });
        },
        Attempt::Stored { checksum } => {
            return Move::Extract { artifact: artifact_name(checksum) };
        },
    };
    match next_candidate(names, id, from) {
        Some(at) => Move::Open { at, member: member_name(id) },
        None => Move::Fail(LocateError::RecordNotFound { id, root: root.to_owned() }),
    }
}

} // verus!
