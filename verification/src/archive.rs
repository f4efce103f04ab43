//! Unpacking the downloaded archive.

use std::io::Read;

use vstd::prelude::*;
use vstd::string::*;

use crate::error::says;
use crate::error::ChromeError;
use crate::text::chars_of;
use crate::text::{before_first, law_first_mark, law_first_mark_is, texts};

verus! {

/// Declares `std::io::Cursor`; nothing is known of what is inside a value.
#[verifier::external_type_specification]
#[verifier::external_body]
#[verifier::reject_recursive_types(T)]
pub struct ExCursor<T>(std::io::Cursor<T>);

/// Declares `zip::ZipArchive`; what a value holds is known through `members_of` alone.
#[verifier::external_type_specification]
#[verifier::external_body]
#[verifier::reject_recursive_types(R)]
pub struct ExZipArchive<R>(zip::ZipArchive<R>);

/// An archive that is held in memory.
pub type Archive = zip::ZipArchive<std::io::Cursor<Vec<u8>>>;

/// What an archive holds under one number.
pub struct Member {
    /// The name, as the archive has it.
    pub name: Seq<char>,
    /// The data; nothing where it cannot be read.
    pub data: Option<Seq<u8>>,
}

/// What the `zip` crate reads from the bytes of an archive, number by number: nothing at all
/// where the bytes are no archive, and nothing under the number of a member that cannot be
/// opened.
pub uninterp spec fn zip_members(bytes: Seq<u8>) -> Option<Seq<Option<Member>>>;

/// The members of an open archive.
pub uninterp spec fn members_of(archive: Archive) -> Seq<Option<Member>>;

/// Trusted: `ZipArchive::new` opens the archive that the bytes hold, and fails where they hold
/// none.
#[verifier::external_body]
fn open_zip(bytes: Vec<u8>) -> (r: Result<Archive, zip::result::ZipError>)
    ensures
        r is Ok <==> zip_members(bytes@) is Some,
        r matches Ok(a) ==> zip_members(bytes@) == Some(members_of(a)),
{
    zip::ZipArchive::new(std::io::Cursor::new(bytes))
}

/// Trusted: `ZipArchive::len` is the number of members.
#[verifier::external_body]
fn zip_len(archive: &Archive) -> (r: usize)
    ensures
        r == members_of(*archive).len(),
{
    archive.len()
}

/// A separator of either kind.
pub open spec fn is_separator(c: char) -> bool {
    c == '/' || c == '\\'
}

/// A part of a path that stays where it is: not empty, without separators, and neither the same
/// directory nor the one above.
pub open spec fn is_inner(part: Seq<char>) -> bool {
    &&& part.len() > 0
    &&& part != "."@
    &&& part != ".."@
    &&& forall|i: int| 0 <= i < part.len() ==> !is_separator(#[trigger] part[i])
}

/// The parts of a name between its separators, without those that do not stay where they are.
pub open spec fn inner_parts(name: Seq<char>) -> Seq<Seq<char>>
    decreases name.len(),
{
    let last = after_separator(name);
    let front = if last.len() < name.len() {
        inner_parts(name.take(name.len() - last.len() - 1))
    } else {
        Seq::empty()
    };
    if last.len() > 0 && last != "."@ && last != ".."@ {
        front.push(last)
    } else {
        front
    }
}

/// What stands behind the last separator of a name; all of it where there is none.
pub open spec fn after_separator(name: Seq<char>) -> Seq<char>
    decreases name.len(),
{
    if name.len() == 0 || is_separator(name.last()) {
        Seq::empty()
    } else {
        after_separator(name.drop_last()).push(name.last())
    }
}

/// The parts that a name's path is made of: those of the name up to the first NUL that stay where
/// they are.
pub open spec fn path_parts(name: Seq<char>) -> Seq<Seq<char>> {
    inner_parts(before_first(name, '\0'))
}

/// A part that may begin with a drive: a colon stands in second place.
pub open spec fn may_hold_drive(part: Seq<char>) -> bool {
    part.len() >= 2 && part[1] == ':'
}

/// A name that cannot be taken for a drive or for a share: no part of it may begin with a drive,
/// and it does not begin with two separators.
pub open spec fn ordinary(name: Seq<char>) -> bool {
    &&& forall|i: int|
        0 <= i < path_parts(name).len() ==> !may_hold_drive(#[trigger] path_parts(name)[i])
    &&& !(name.len() >= 2 && is_separator(name[0]) && is_separator(name[1]))
}

/// A file's name that comes from the name of a member: it stays where it is, and is the last part
/// of the path, or, where that part may begin with a drive, an end of it.
pub open spec fn names_file(file: Seq<char>, name: Seq<char>) -> bool {
    &&& is_inner(file)
    &&& path_parts(name).len() > 0
    &&& if may_hold_drive(path_parts(name).last()) {
        file.is_suffix_of(path_parts(name).last())
    } else {
        file == path_parts(name).last()
    }
}

/// Trusted: `ZipArchive::by_index` opens a member, `ZipFile::name` is its name,
/// `ZipFile::mangled_name` its path, and `Read::read_to_end` reads its data. The path is given by
/// its components and by its `Path::file_name`, which is its last component where that is an
/// ordinary one. Its parts are those of the name that stay where they are, and the file's name is
/// the last of them. Of a name that may be taken for a drive or for a share the components in
/// front, and whether there is a file's name, are left open, and of a last part that may begin
/// with a drive how much of it the file's name is: these differ between operating systems.
#[verifier::external_body]
fn read_member(archive: &mut Archive, number: usize) -> (r: Result<
    (String, Vec<String>, Option<String>, Result<Vec<u8>, std::io::Error>),
    zip::result::ZipError,
>)
    requires
        number < members_of(*old(archive)).len(),
    ensures
        members_of(*final(archive)) == members_of(*old(archive)),
        r is Ok <==> members_of(*old(archive))[number as int] is Some,
        r matches Ok(m) ==> {
            let member = members_of(*old(archive))[number as int]->0;
            &&& m.0@ == member.name
            &&& m.3 is Ok <==> member.data is Some
            &&& m.3 matches Ok(data) ==> member.data == Some(data@)
        },
        r matches Ok(m) ==> (m.2 matches Some(file) ==> {
            &&& m.1@.len() > 0
            &&& m.1@.last()@ == file@
            &&& names_file(file@, m.0@)
        }),
        r matches Ok(m) ==> (ordinary(m.0@) ==> {
            &&& texts(m.1@) == path_parts(m.0@)
            &&& m.2 is Some <==> m.1@.len() > 0
        }),
{
    let mut file = archive.by_index(number)?;
    let name = file.name().to_string();
    let path = file.mangled_name();
    let parts = path.iter().map(|part| part.to_string_lossy().into_owned()).collect();
    let file_name = path.file_name().map(|part| part.to_string_lossy().into_owned());
    let mut data = Vec::new();
    let read = file.read_to_end(&mut data);
    Ok((name, parts, file_name, read.map(|_| data)))
}

/// Where a member goes.
#[derive(Debug, PartialEq)]
pub enum Target {
    /// A directory is made, at the path with these parts.
    Directory(Vec<String>),
    /// The directories of the path are made, and the data is written to a file of this name.
    File(Vec<String>, String),
}

/// A member whose name ends with a slash is a directory.
pub open spec fn names_directory(name: Seq<char>) -> bool {
    name.len() > 0 && name.last() == '/'
}

/// Where a member goes, by its name, the parts of its path and the file's name that the path has:
/// a directory where the name ends with a slash, else a file; a path without a file's name is
/// refused, such as one that is empty, ends with `..`, or is a bare root.
pub fn target_of(name: &str, parts: Vec<String>, file: Option<String>) -> (r: Result<
    Target,
    ChromeError,
>)
    ensures
        if names_directory(name@) {
            r is Ok && (r->Ok_0 matches Target::Directory(path) && path@ == parts@)
        } else {
            match file {
                Some(f) => r is Ok && (r->Ok_0 matches Target::File(directories, n) && directories@
                    == (if parts@.len() > 0 {
                    parts@.drop_last()
                } else {
                    parts@
                }) && n == f),
                None => r is Err && says(r->Err_0, "bad zip filename"@),
            }
        },
{
    let chars: Vec<char> = chars_of(name);
    let total: usize = chars.len();
    if total > 0 && chars[total - 1] == '/' {
        return Ok(Target::Directory(parts));
    }
    match file {
        Some(f) => {
            let mut directories = parts;
            let _ = directories.pop();
            Ok(Target::File(directories, f))
        },
        None => Err(ChromeError::from("bad zip filename")),
    }
}

/// Open the archive that was downloaded.
pub fn open_archive(bytes: Vec<u8>) -> (r: Result<Archive, ChromeError>)
    ensures
        r is Ok <==> zip_members(bytes@) is Some,
        r matches Ok(a) ==> zip_members(bytes@) == Some(members_of(a)),
        r matches Err(e) ==> e is Zip,
{
    match open_zip(bytes) {
        Ok(a) => Ok(a),
        Err(e) => Err(ChromeError::from(e)),
    }
}

/// The number of members of an archive.
pub fn archive_len(archive: &Archive) -> (r: usize)
    ensures
        r == members_of(*archive).len(),
{
    zip_len(archive)
}

/// Where the member under a number goes, and its data. The data of a file that cannot be read is
/// an error of its own, which comes after the place is known.
pub fn unpack_member(archive: &mut Archive, number: usize) -> (r: Result<
    (Target, Result<Vec<u8>, ChromeError>),
    ChromeError,
>)
    requires
        number < members_of(*old(archive)).len(),
    ensures
        members_of(*final(archive)) == members_of(*old(archive)),
        match members_of(*old(archive))[number as int] {
            None => r is Err && r->Err_0 is Zip,
            Some(member) => unpacked(member, r),
        },
        members_of(*old(archive))[number as int] is Some ==> (r matches Ok(both) ==> (both.1 is Ok
            <==> members_of(*old(archive))[number as int]->0.data is Some)),
        members_of(*old(archive))[number as int] is Some ==> (r matches Ok(both) ==> (
        both.1 matches Ok(bytes) ==> members_of(*old(archive))[number as int]->0.data == Some(
            bytes@,
        ))),
{
    match read_member(archive, number) {
        Ok(m) => {
            let (name, parts, file, data) = m;
            let outcome = match data {
                Ok(bytes) => Ok(bytes),
                Err(e) => Err(ChromeError::from(e)),
            };
            let ghost listed = texts(parts@);
            match target_of(name.as_str(), parts, file) {
                Ok(target) => {
                    assert(target_parts(target) =~= listed);
                    Ok((target, outcome))
                },
                Err(e) => Err(e),
            }
        },
        Err(e) => Err(ChromeError::from(e)),
    }
}

/// The parts of a target, the file's name last.
pub open spec fn target_parts(target: Target) -> Seq<Seq<char>> {
    match target {
        Target::Directory(path) => texts(path@),
        Target::File(directories, file) => texts(directories@).push(file@),
    }
}

/// What unpacking a member gives: a directory where its name ends with a slash, else a file with
/// its data, under a name that comes from the member's and stays where it is; a file without a
/// name is refused. An ordinary name decides the parts.
pub open spec fn unpacked(
    member: Member,
    r: Result<(Target, Result<Vec<u8>, ChromeError>), ChromeError>,
) -> bool {
    match r {
        Ok((target, data)) => {
            &&& target is Directory <==> names_directory(member.name)
            &&& target matches Target::File(_, file) ==> names_file(file@, member.name)
            &&& ordinary(member.name) ==> target_parts(target) == path_parts(member.name)
            &&& data is Ok <==> member.data is Some
            &&& data matches Ok(bytes) ==> member.data == Some(bytes@)
            &&& data matches Err(e) ==> e is Io
        },
        Err(e) => {
            &&& says(e, "bad zip filename"@)
            &&& !names_directory(member.name)
            &&& ordinary(member.name) ==> path_parts(member.name).len() == 0
        },
    }
}

// ─── Laws of unpacking ───────────────────────────────────────────────────────

/// Law: the data of a member, whatever its name, is never written outside the directory that the
/// archive is unpacked in: a file's name has no separators and is not the directory above. It is
/// the last part of the member's name, unless that part may begin with a drive.
pub proof fn law_files_stay_here(
    member: Member,
    target: Target,
    data: Result<Vec<u8>, ChromeError>,
)
    requires
        unpacked(member, Ok((target, data))),
        !names_directory(member.name),
    ensures
        target matches Target::File(_, file) && is_inner(file@) && (!may_hold_drive(
            path_parts(member.name).last(),
        ) ==> file@ == path_parts(member.name).last()),
{
}

/// Law: a file with an ordinary name is written under the last part of its name.
pub proof fn law_ordinary_file_under_last_part(
    member: Member,
    target: Target,
    data: Result<Vec<u8>, ChromeError>,
)
    requires
        ordinary(member.name),
        unpacked(member, Ok((target, data))),
        !names_directory(member.name),
    ensures
        target matches Target::File(_, file) && file@ == path_parts(member.name).last(),
{
}

/// Law: a member with an ordinary name is not unpacked outside the directory that the archive is
/// unpacked in.
pub proof fn law_unpacked_inside(
    member: Member,
    target: Target,
    data: Result<Vec<u8>, ChromeError>,
)
    requires
        ordinary(member.name),
        unpacked(member, Ok((target, data))),
    ensures
        forall|i: int|
            0 <= i < target_parts(target).len() ==> is_inner(#[trigger] target_parts(target)[i]),
{
    lemma_parts_stay_inside(before_first(member.name, '\0'));
}

/// The parts of a name stay where they are.
proof fn lemma_parts_stay_inside(name: Seq<char>)
    ensures
        forall|i: int| 0 <= i < inner_parts(name).len() ==> is_inner(#[trigger] inner_parts(name)[i]),
    decreases name.len(),
{
    lemma_after_separator(name);
    let last = after_separator(name);
    let front = if last.len() < name.len() {
        lemma_parts_stay_inside(name.take(name.len() - last.len() - 1));
        inner_parts(name.take(name.len() - last.len() - 1))
    } else {
        Seq::empty()
    };
    assert forall|i: int| 0 <= i < inner_parts(name).len() implies is_inner(
        #[trigger] inner_parts(name)[i],
    ) by {
        if i < front.len() {
            assert(is_inner(front[i]));
        }
    }
}

/// What stands behind the last separator has none.
proof fn lemma_after_separator(name: Seq<char>)
    ensures
        after_separator(name).len() <= name.len(),
        forall|i: int|
            0 <= i < after_separator(name).len() ==> !is_separator(
                #[trigger] after_separator(name)[i],
            ),
    decreases name.len(),
{
    if name.len() > 0 && !is_separator(name.last()) {
        lemma_after_separator(name.drop_last());
    }
}

/// Law: a name is cut at every slash and backslash, and each part between two of them counts but
/// for the empty one, the same directory and the one above, whatever stands around it.
pub proof fn law_parts_between_separators(front: Seq<char>, mark: char, last: Seq<char>)
    requires
        mark == '/' || mark == '\\',
        forall|i: int| 0 <= i < last.len() ==> #[trigger] last[i] != '/' && last[i] != '\\',
    ensures
        last == Seq::<char>::empty() || last == seq!['.'] || last == seq!['.', '.'] ==> inner_parts(
            front + seq![mark] + last,
        ) == inner_parts(front) && inner_parts(last).len() == 0,
        last != Seq::<char>::empty() && last != seq!['.'] && last != seq!['.', '.'] ==> inner_parts(
            front + seq![mark] + last,
        ) == inner_parts(front).push(last) && inner_parts(last) == seq![last],
{
    reveal_strlit(".");
    reveal_strlit("..");
    assert("."@ =~= seq!['.']);
    assert(".."@ =~= seq!['.', '.']);
    let name = front + seq![mark] + last;
    lemma_behind_separator(front + seq![mark], last);
    assert(name.take(name.len() - last.len() - 1) =~= front);
    lemma_behind_separator(Seq::empty(), last);
    assert(Seq::<char>::empty() + last =~= last);
}

proof fn lemma_behind_separator(front: Seq<char>, last: Seq<char>)
    requires
        front.len() == 0 || is_separator(front.last()),
        forall|i: int| 0 <= i < last.len() ==> !is_separator(#[trigger] last[i]),
    ensures
        after_separator(front + last) == last,
    decreases last.len(),
{
    let name = front + last;
    if last.len() > 0 {
        assert(forall|i: int| 0 <= i < last.len() - 1 ==> last.drop_last()[i] == last[i]);
        assert(!is_separator(last[last.len() - 1]));
        lemma_behind_separator(front, last.drop_last());
        assert(name.drop_last() =~= front + last.drop_last());
        assert(name.last() == last.last());
        assert(last.drop_last().push(last.last()) =~= last);
    } else {
        assert(name =~= front);
    }
}

/// Law: a name ends at its first NUL, and is all of it where it has none.
pub proof fn law_names_end_at_nul(head: Seq<char>, tail: Seq<char>)
    requires
        !head.contains('\0'),
    ensures
        path_parts(head) == inner_parts(head),
        path_parts(head + seq!['\0'] + tail) == inner_parts(head),
{
    law_first_mark_is(head, '\0', tail);
    law_first_mark(head, '\0');
}

/// Law: a member is a directory exactly where a slash ends its name.
pub proof fn law_directories_end_with_a_slash(name: Seq<char>, last: char)
    ensures
        names_directory(name.push(last)) <==> last == '/',
        !names_directory(Seq::empty()),
{
}

/// Law: a name is ordinary exactly where no part has a colon in second place and it does not begin
/// with two separators, of whichever kind.
pub proof fn law_ordinary_names(name: Seq<char>, part: int)
    ensures
        ordinary(name) && 0 <= part < path_parts(name).len() && path_parts(name)[part].len() >= 2
            ==> path_parts(name)[part][1] != ':',
        ordinary(name) && name.len() >= 2 ==> !((name[0] == '/' || name[0] == '\\') && (name[1]
            == '/' || name[1] == '\\')),
        (forall|i: int|
            0 <= i < path_parts(name).len() ==> (#[trigger] path_parts(name)[i]).len() < 2
                || path_parts(name)[i][1] != ':') && (name.len() < 2 || (name[0] != '/' && name[0]
            != '\\') || (name[1] != '/' && name[1] != '\\')) ==> ordinary(name),
{
    if ordinary(name) && 0 <= part < path_parts(name).len() {
        assert(!may_hold_drive(path_parts(name)[part]));
    }
}

/// Law: a member is unpacked where its name ends with a slash, or is ordinary and has a part that
/// stays where it is; then its data comes with it as the archive has it, and is missing exactly
/// where the archive's cannot be read. The path of an ordinary name is its parts, each in its
/// place.
pub proof fn law_unpacked_members(
    member: Member,
    r: Result<(Target, Result<Vec<u8>, ChromeError>), ChromeError>,
)
    requires
        unpacked(member, r),
    ensures
        member.name.len() > 0 && member.name.last() == '/' ==> r is Ok && r->Ok_0.0 is Directory,
        ordinary(member.name) && path_parts(member.name).len() > 0 ==> r is Ok,
        r matches Ok(both) ==> {
            &&& both.0 is File <==> !(member.name.len() > 0 && member.name.last() == '/')
            &&& both.1 is Ok <==> member.data is Some
            &&& both.1 is Ok ==> member.data == Some(both.1->Ok_0@)
            &&& ordinary(member.name) && both.0 is Directory ==> {
                &&& both.0->Directory_0@.len() == path_parts(member.name).len()
                &&& forall|i: int|
                    0 <= i < path_parts(member.name).len() ==> #[trigger] both.0->Directory_0@[i]@
                        == path_parts(member.name)[i]
            }
            &&& ordinary(member.name) && both.0 is File ==> {
                &&& both.0->File_0@.len() + 1 == path_parts(member.name).len()
                &&& both.0->File_1@ == path_parts(member.name).last()
                &&& forall|i: int|
                    0 <= i < both.0->File_0@.len() ==> #[trigger] both.0->File_0@[i]@
                        == path_parts(member.name)[i]
            }
        },
        r matches Err(e) ==> says(e, "bad zip filename"@),
{
    if let Ok((target, data)) = r {
        if ordinary(member.name) {
            match target {
                Target::Directory(path) => {
                    assert(texts(path@) == path_parts(member.name));
                    assert forall|i: int| 0 <= i < path_parts(member.name).len() implies #[trigger]
                        path@[i]@ == path_parts(member.name)[i] by {
                        assert(texts(path@)[i] == path@[i]@);
                    }
                },
                Target::File(directories, file) => {
                    let all = texts(directories@).push(file@);
                    assert(all == path_parts(member.name));
                    assert(all.last() == file@);
                    assert forall|i: int| 0 <= i < directories@.len() implies #[trigger]
                        directories@[i]@ == path_parts(member.name)[i] by {
                        assert(all[i] == directories@[i]@);
                    }
                },
            }
        }
    }
}

} // verus!
