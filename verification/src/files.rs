use vstd::prelude::*;
use vstd::string::StrSliceExecFns;
use crate::text::text_is;

verus! {

/// What an entry of a directory is.
#[derive(Debug)]
pub enum EntryKind {
    /// A directory, with its own entries in the order in which it lists
    /// them.
    Directory(Vec<Entry>),
    /// A regular file.
    File,
    /// Anything else.
    Other,
}

/// One entry of a directory: its full path, its file name, and what it is.
#[derive(Debug)]
pub struct Entry {
    pub path: String,
    pub file_name: String,
    pub kind: EntryKind,
}

/// Whether a file name marks a file as not to be rendered: such a name
/// starts with an underscore.
pub open spec fn is_hidden(file_name: Seq<char>) -> bool {
    file_name.len() > 0 && file_name[0] == '_'
}

/// The paths of the files to render that an entry stands for: those below
/// it where it is a directory; its own where it is a file whose name does
/// not start with an underscore; none otherwise.
pub open spec fn files_of(entry: Entry) -> Seq<Seq<char>>
    decreases entry,
{
    match entry.kind {
        EntryKind::Directory(children) => files_in(children@),
        EntryKind::File => if is_hidden(entry.file_name@) {
            Seq::empty()
        } else {
            seq![entry.path@]
        },
        EntryKind::Other => Seq::empty(),
    }
}

/// The paths of the files to render among some entries and below them, in
/// the order of the entries.
pub open spec fn files_in(entries: Seq<Entry>) -> Seq<Seq<char>>
    decreases entries,
{
    if entries.len() == 0 {
        Seq::empty()
    } else {
        files_in(entries.drop_last()) + files_of(entries.last())
    }
}

/// The paths in a list of strings.
pub open spec fn paths_of(list: Seq<String>) -> Seq<Seq<char>> {
    list.map_values(|s: String| s@)
}

/// Lists the files to render among the entries of a directory and below
/// them: every regular file whose name does not start with an underscore,
/// directory by directory, in the order of the entries.
pub fn get_files(entries: &Vec<Entry>) -> (res: Vec<String>)
    ensures
        paths_of(res@) == files_in(entries@),
    decreases entries,
{
    let mut files: Vec<String> = Vec::new();
    let mut i: usize = 0;
    proof {
        assert(entries@.take(0) =~= Seq::<Entry>::empty());
        assert(paths_of(files@) =~= Seq::<Seq<char>>::empty());
    }
    while i < entries.len()
        invariant
            i <= entries.len(),
            paths_of(files@) == files_in(entries@.take(i as int)),
        decreases entries.len() - i,
    {
        let entry = &entries[i];
        let ghost before = paths_of(files@);
        proof {
            let upto = entries@.take(i + 1);
            assert(upto.drop_last() =~= entries@.take(i as int));
            assert(upto.last() == *entry);
        }
        match &entry.kind {
            EntryKind::Directory(children) => {
                let mut below = get_files(children);
                let ghost added = paths_of(below@);
                files.append(&mut below);
                proof {
                    assert(paths_of(files@) =~= before + added);
                }
            },
            EntryKind::File => {
                let name = entry.file_name.as_str();
                let hidden = name.unicode_len() > 0 && name.get_char(0) == '_';
                if !hidden {
                    files.push(entry.path.clone());
                    proof {
                        assert(paths_of(files@) =~= before + seq![entry.path@]);
                    }
                } else {
                    proof {
                        assert(before + Seq::<Seq<char>>::empty() =~= before);
                    }
                }
            },
            EntryKind::Other => {
                proof {
                    assert(before + Seq::<Seq<char>>::empty() =~= before);
                }
            },
        }
        assert(files_in(entries@.take(i + 1)) == before + files_of(*entry));
        assert(paths_of(files@) == before + files_of(*entry));
        i += 1;
    }
    proof {
        assert(entries@.take(i as int) =~= entries@);
    }
    files
}

/// The position of the last dot of a file name, or -1 where it holds none.
pub open spec fn last_dot(file_name: Seq<char>) -> int
    decreases file_name.len(),
{
    if file_name.len() == 0 {
        -1
    } else if file_name.last() == '.' {
        file_name.len() - 1
    } else {
        last_dot(file_name.drop_last())
    }
}

/// The extension of a file name: what follows its last dot. A name without
/// a dot has none, nor has one whose only dot is its first character, nor
/// has the name `..`.
pub open spec fn extension(file_name: Seq<char>) -> Option<Seq<char>> {
    if last_dot(file_name) <= 0 || file_name == seq!['.', '.'] {
        None
    } else {
        Some(file_name.skip(last_dot(file_name) + 1))
    }
}

/// Tells whether a file name has the given extension.
pub fn has_extension(file_name: &str, wanted: &str) -> (res: bool)
    ensures
        res == (extension(file_name@) == Some(wanted@)),
{
    let n = file_name.unicode_len();
    let mut at: usize = n;
    proof {
        assert(file_name@.take(n as int) =~= file_name@);
    }
    while at > 0
        invariant
            at <= n,
            n == file_name@.len(),
            last_dot(file_name@) == last_dot(file_name@.take(at as int)),
        ensures
            at <= n,
            n == file_name@.len(),
            last_dot(file_name@) == last_dot(file_name@.take(at as int)),
            at == 0 || file_name@[at - 1] == '.',
        decreases at,
    {
        if file_name.get_char(at - 1) == '.' {
            break ;
        }
        proof {
            assert(file_name@.take(at as int).drop_last() =~= file_name@.take(at - 1));
        }
        at -= 1;
    }
    proof {
        if at > 0 {
            assert(file_name@.take(at as int).last() == '.');
        }
        assert(last_dot(file_name@) == at - 1);
    }
    if at <= 1 {
        return false;
    }
    let two_dots = n == 2 && file_name.get_char(0) == '.';
    proof {
        if two_dots {
            assert(file_name@ =~= seq!['.', '.']);
        } else if file_name@ == seq!['.', '.'] {
            assert(file_name@[0] == '.');
        }
    }
    if two_dots {
        return false;
    }
    proof {
        assert(file_name@.subrange(at as int, n as int) =~= file_name@.skip(at as int));
    }
    text_is(file_name.substring_char(at, n), wanted)
}

/// The paths that an entry gives to a search by extension: those below it
/// where it is a directory; its own where it is anything else and its file
/// name has the extension.
pub open spec fn found_of(entry: Entry, wanted: Seq<char>) -> Seq<Seq<char>>
    decreases entry,
{
    match entry.kind {
        EntryKind::Directory(children) => found_in(children@, wanted),
        _ => if extension(entry.file_name@) == Some(wanted) {
            seq![entry.path@]
        } else {
            Seq::empty()
        },
    }
}

/// The paths that some entries give to a search by extension, in the order
/// of the entries.
pub open spec fn found_in(entries: Seq<Entry>, wanted: Seq<char>) -> Seq<Seq<char>>
    decreases entries,
{
    if entries.len() == 0 {
        Seq::empty()
    } else {
        found_in(entries.drop_last(), wanted) + found_of(entries.last(), wanted)
    }
}

/// Lists the files with the given extension among the entries of a
/// directory and below them, directory by directory, in the order of the
/// entries.
pub fn find_files(entries: &Vec<Entry>, extension: &str) -> (res: Vec<String>)
    ensures
        paths_of(res@) == found_in(entries@, extension@),
    decreases entries,
{
    let mut files: Vec<String> = Vec::new();
    let mut i: usize = 0;
    proof {
        assert(entries@.take(0) =~= Seq::<Entry>::empty());
        assert(paths_of(files@) =~= Seq::<Seq<char>>::empty());
    }
    while i < entries.len()
        invariant
            i <= entries.len(),
            paths_of(files@) == found_in(entries@.take(i as int), extension@),
        decreases entries.len() - i,
    {
        let entry = &entries[i];
        let ghost before = paths_of(files@);
        proof {
            let upto = entries@.take(i + 1);
            assert(upto.drop_last() =~= entries@.take(i as int));
            assert(upto.last() == *entry);
        }
        match &entry.kind {
            EntryKind::Directory(children) => {
                let mut below = find_files(children, extension);
                let ghost added = paths_of(below@);
                files.append(&mut below);
                proof {
                    assert(paths_of(files@) =~= before + added);
                }
            },
            _ => {
                if has_extension(entry.file_name.as_str(), extension) {
                    files.push(entry.path.clone());
                    proof {
                        assert(paths_of(files@) =~= before + seq![entry.path@]);
                    }
                } else {
                    proof {
                        assert(before + Seq::<Seq<char>>::empty() =~= before);
                    }
                }
            },
        }
        assert(paths_of(files@) == before + found_of(*entry, extension@));
        i += 1;
    }
    proof {
        assert(entries@.take(i as int) =~= entries@);
    }
    files
}

} // verus!
