//! Naming rules of exported page trees: page names and ids read from file
//! names, file types from extensions, and zip signatures.
use vstd::prelude::*;

use vstd::string::StrSliceExecFns;

verus! {

/// Why an exported path was refused.
#[derive(Debug, PartialEq, Eq)]
pub enum ImporterError {
    InvalidPathFormat,
    InvalidPath(String),
}

impl ImporterError {
    /// The message of the error.
    pub fn to_string(&self) -> (r: String)
        ensures
            self is InvalidPathFormat ==> r@ == "Invalid path format"@,
    {
        match self {
            ImporterError::InvalidPathFormat => String::from_str("Invalid path format"),
            ImporterError::InvalidPath(m) => {
                let mut s = String::from_str("Invalid path: ");
                s.append(m.as_str());
                s
            },
        }
    }
}

/// The kinds of exported pages.
#[derive(Debug, Clone, Copy, PartialEq, Eq, Structural)]
pub enum FileType {
    CSV,
    Markdown,
}

/// The index of the last `c` in `s`, or -1.
pub open spec fn last_index_of(s: Seq<char>, c: char) -> int
    decreases s.len(),
{
    if s.len() == 0 {
        -1
    } else if s.last() == c {
        s.len() - 1
    } else {
        last_index_of(s.drop_last(), c)
    }
}

/// The last component of a `/`-separated path; none where it is empty or
/// `..`.
pub open spec fn file_name_of(p: Seq<char>) -> Option<Seq<char>> {
    let comp = p.subrange(last_index_of(p, '/') + 1, p.len() as int);
    if comp.len() == 0 || comp == seq!['.', '.'] {
        None
    } else {
        Some(comp)
    }
}

/// A file name without its extension: up to its last dot, unless that dot
/// leads the name.
pub open spec fn stem_of(f: Seq<char>) -> Seq<char> {
    let k = last_index_of(f, '.');
    if k > 0 {
        f.subrange(0, k)
    } else {
        f
    }
}

/// The page name and id that an exported file name carries: the name, a
/// space, and the id, possibly with an extension. Both must be non-empty.
pub open spec fn name_and_id_of(p: Seq<char>) -> Option<(Seq<char>, Seq<char>)> {
    match file_name_of(p) {
        Some(f) => {
            let k = last_index_of(f, ' ');
            if k < 0 {
                None
            } else {
                let name = f.subrange(0, k);
                let id = stem_of(f.subrange(k + 1, f.len() as int));
                if name.len() == 0 || id.len() == 0 {
                    None
                } else {
                    Some((name, id))
                }
            }
        },
        None => None,
    }
}

proof fn lemma_last_index_bounds(s: Seq<char>, c: char)
    ensures
        -1 <= last_index_of(s, c) < s.len(),
        last_index_of(s, c) >= 0 ==> s[last_index_of(s, c)] == c,
        forall|j: int| last_index_of(s, c) < j < s.len() ==> s[j] != c,
    decreases s.len(),
{
    if s.len() > 0 && s.last() != c {
        let t = s.drop_last();
        lemma_last_index_bounds(t, c);
        assert forall|j: int| last_index_of(s, c) < j < s.len() implies s[j] != c by {
            if j < s.len() - 1 {
                assert(t[j] == s[j]);
            }
        }
    }
}

fn last_index(s: &str, c: char) -> (r: Option<usize>)
    ensures
        r matches Some(k) ==> k as int == last_index_of(s@, c),
        r is None ==> last_index_of(s@, c) == -1,
{
    let n = s.unicode_len();
    let mut i: usize = n;
    proof {
        lemma_last_index_bounds(s@, c);
    }
    while i > 0
        invariant
            i <= n,
            n == s@.len(),
            forall|j: int| i <= j < n ==> s@[j] != c,
        decreases i,
    {
        if s.get_char(i - 1) == c {
            proof {
                lemma_last_index_char(s@, c, (i - 1) as int);
            }
            return Some(i - 1);
        }
        i = i - 1;
    }
    proof {
        lemma_last_index_char(s@, c, -1);
    }
    None
}

proof fn lemma_last_index_char(s: Seq<char>, c: char, k: int)
    requires
        -1 <= k < s.len(),
        k >= 0 ==> s[k] == c,
        forall|j: int| k < j < s.len() ==> s[j] != c,
    ensures
        last_index_of(s, c) == k,
    decreases s.len(),
{
    if s.len() > 0 && s.last() != c {
        lemma_last_index_char(s.drop_last(), c, k);
    }
}

/// Reads the page name and id from the file name of `path`.
pub fn name_and_id_from_path(path: &str) -> (r: Result<(String, String), ImporterError>)
    ensures
        r is Ok <==> name_and_id_of(path@) is Some,
        r matches Ok((name, id)) ==> name_and_id_of(path@) == Some((name@, id@)),
        r matches Err(e) ==> e == ImporterError::InvalidPathFormat,
{
    proof {
        lemma_last_index_bounds(path@, '/');
    }
    let n = path.unicode_len();
    let start = match last_index(path, '/') {
        Some(k) => k + 1,
        None => 0,
    };
    let file = path.substring_char(start, n);
    let fl = file.unicode_len();
    if fl == 0 || (fl == 2 && file.get_char(0) == '.' && file.get_char(1) == '.') {
        proof {
            if fl == 2 && file@[0] == '.' && file@[1] == '.' {
                assert(file@ =~= seq!['.', '.']);
            }
        }
        return Err(ImporterError::InvalidPathFormat);
    }
    proof {
        assert(file@ != seq!['.', '.']);
        lemma_last_index_bounds(file@, ' ');
    }
    let space = match last_index(file, ' ') {
        Some(k) => k,
        None => {
            return Err(ImporterError::InvalidPathFormat);
        },
    };
    let name = file.substring_char(0, space);
    let raw_id = file.substring_char(space + 1, fl);
    proof {
        lemma_last_index_bounds(raw_id@, '.');
    }
    let id = match last_index(raw_id, '.') {
        Some(k) => if k > 0 {
            raw_id.substring_char(0, k)
        } else {
            raw_id
        },
        None => raw_id,
    };
    if name.unicode_len() == 0 || id.unicode_len() == 0 {
        return Err(ImporterError::InvalidPathFormat);
    }
    Ok((name.to_owned(), id.to_owned()))
}

/// The page kind that a path's extension names: `md` or `csv`.
pub fn get_file_type(path: &str) -> (r: Option<FileType>)
    ensures
        ({
            let k = last_index_of(path@, '.');
            let ext = path@.subrange(k + 1, path@.len() as int);
            let slash = last_index_of(path@, '/');
            &&& (k > slash + 1 && ext == "md"@) <==> r == Some(FileType::Markdown)
            &&& (k > slash + 1 && ext == "csv"@) <==> r == Some(FileType::CSV)
        }),
{
    proof {
        lemma_last_index_bounds(path@, '.');
        lemma_last_index_bounds(path@, '/');
        reveal_strlit("md");
        reveal_strlit("csv");
    }
    let n = path.unicode_len();
    let dot = match last_index(path, '.') {
        Some(k) => k,
        None => {
            return None;
        },
    };
    let slash_next = match last_index(path, '/') {
        Some(k) => k + 1,
        None => 0,
    };
    if dot <= slash_next {
        return None;
    }
    let ext = path.substring_char(dot + 1, n);
    let el = ext.unicode_len();
    if el == 2 && ext.get_char(0) == 'm' && ext.get_char(1) == 'd' {
        proof {
            assert(ext@ =~= "md"@);
        }
        Some(FileType::Markdown)
    } else if el == 3 && ext.get_char(0) == 'c' && ext.get_char(1) == 's' && ext.get_char(2) == 'v' {
        proof {
            assert(ext@ =~= "csv"@);
        }
        Some(FileType::CSV)
    } else {
        proof {
            if ext@ == "md"@ {
                assert(ext@[0] == 'm' && ext@[1] == 'd');
            }
            if ext@ == "csv"@ {
                assert(ext@[0] == 'c' && ext@[1] == 's' && ext@[2] == 'v');
            }
        }
        None
    }
}

/// Whether the first four bytes of a file are a zip signature, regular or
/// spanned.
pub fn is_multi_part_zip_file(buffer: &[u8; 4]) -> (r: bool)
    ensures
        r == ((buffer@ == seq![0x50u8, 0x4bu8, 0x07u8, 0x08u8]) || (buffer@ == seq![
            0x50u8,
            0x4bu8,
            0x03u8,
            0x04u8,
        ])),
{
    let b0 = buffer[0];
    let b1 = buffer[1];
    let b2 = buffer[2];
    let b3 = buffer[3];
    let spanned = b0 == 0x50 && b1 == 0x4b && b2 == 0x07 && b3 == 0x08;
    let regular = b0 == 0x50 && b1 == 0x4b && b2 == 0x03 && b3 == 0x04;
    proof {
        assert(buffer@.len() == 4);
        if spanned {
            assert(buffer@ =~= seq![0x50u8, 0x4bu8, 0x07u8, 0x08u8]);
        }
        if regular {
            assert(buffer@ =~= seq![0x50u8, 0x4bu8, 0x03u8, 0x04u8]);
        }
    }
    spanned || regular
}

} // verus!
