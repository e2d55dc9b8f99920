use vstd::prelude::*;

verus! {

/// File-type mask and values of the mode word, as POSIX lays them out.
pub const S_IFMT: u32 = 0o170000;

pub const S_IFDIR: u32 = 0o040000;

pub const S_IFLNK: u32 = 0o120000;

pub const S_IFBLK: u32 = 0o060000;

pub const S_IFCHR: u32 = 0o020000;

pub const S_IFIFO: u32 = 0o010000;

pub const S_IFSOCK: u32 = 0o140000;

pub const S_IFREG: u32 = 0o100000;

pub const S_ISUID: u32 = 0o4000;

pub const S_ISGID: u32 = 0o2000;

pub const S_ISVTX: u32 = 0o1000;

/// One directory entry with the plain metadata the listing shows.
#[derive(Debug, Clone)]
pub struct FileEntry {
    pub path: String,
    pub display_name: String,
    pub mode: u32,
    pub nlinks: u64,
    pub owner: String,
    pub group: String,
    pub size: u64,
    pub mtime: i64,
    pub atime: i64,
    pub ctime: i64,
    pub blocks: u64,
    pub symlink_target: Option<String>,
    pub permission_string: String,
}

impl FileEntry {
    pub open spec fn spec_is_dir(&self) -> bool {
        self.mode & S_IFMT == S_IFDIR
    }

    /// The mode bits name a directory (read from the mode so that a
    /// symlink to a directory does not count).
    #[verifier::when_used_as_spec(spec_is_dir)]
    pub fn is_dir(&self) -> (r: bool)
        ensures
            r == self.spec_is_dir(),
    {
        self.mode & S_IFMT == S_IFDIR
    }

    pub open spec fn spec_is_executable(&self) -> bool {
        self.mode & 0o111 != 0
    }

    #[verifier::when_used_as_spec(spec_is_executable)]
    pub fn is_executable(&self) -> (r: bool)
        ensures
            r == self.spec_is_executable(),
    {
        self.mode & 0o111 != 0
    }
}

pub open spec fn spec_file_type_char(mode: u32) -> char {
    if mode & S_IFMT == S_IFDIR {
        'd'
    } else if mode & S_IFMT == S_IFLNK {
        'l'
    } else if mode & S_IFMT == S_IFBLK {
        'b'
    } else if mode & S_IFMT == S_IFCHR {
        'c'
    } else if mode & S_IFMT == S_IFIFO {
        'p'
    } else if mode & S_IFMT == S_IFSOCK {
        's'
    } else {
        '-'
    }
}

pub open spec fn spec_rw_char(set: bool, c: char) -> char {
    if set {
        c
    } else {
        '-'
    }
}

/// Execute-position character: the special bit (setuid/setgid/sticky)
/// shows as its letter, lowercase when the execute bit accompanies it.
pub open spec fn spec_exec_char(special: bool, exec: bool, lower: char, upper: char) -> char {
    if special {
        if exec {
            lower
        } else {
            upper
        }
    } else if exec {
        'x'
    } else {
        '-'
    }
}

/// The ten-character permission column: file type, then the three
/// owner/group/other triples.
pub open spec fn spec_permissions(mode: u32) -> Seq<char> {
    seq![
        spec_file_type_char(mode),
        spec_rw_char(mode & 0o400 != 0, 'r'),
        spec_rw_char(mode & 0o200 != 0, 'w'),
        spec_exec_char(mode & S_ISUID != 0, mode & 0o100 != 0, 's', 'S'),
        spec_rw_char(mode & 0o040 != 0, 'r'),
        spec_rw_char(mode & 0o020 != 0, 'w'),
        spec_exec_char(mode & S_ISGID != 0, mode & 0o010 != 0, 's', 'S'),
        spec_rw_char(mode & 0o004 != 0, 'r'),
        spec_rw_char(mode & 0o002 != 0, 'w'),
        spec_exec_char(mode & S_ISVTX != 0, mode & 0o001 != 0, 't', 'T'),
    ]
}

#[verifier::rlimit(60)]
pub fn format_permissions(mode: u32) -> (r: String)
    ensures
        r@ == spec_permissions(mode),
{
    proof {
        reveal_strlit("d");
        reveal_strlit("l");
        reveal_strlit("b");
        reveal_strlit("c");
        reveal_strlit("p");
        reveal_strlit("s");
        reveal_strlit("-");
        reveal_strlit("r");
        reveal_strlit("w");
        reveal_strlit("x");
        reveal_strlit("S");
        reveal_strlit("t");
        reveal_strlit("T");
    }
    let ft = mode & S_IFMT;
    let mut perms = String::new();
    perms.append(
        if ft == S_IFDIR {
            "d"
        } else if ft == S_IFLNK {
            "l"
        } else if ft == S_IFBLK {
            "b"
        } else if ft == S_IFCHR {
            "c"
        } else if ft == S_IFIFO {
            "p"
        } else if ft == S_IFSOCK {
            "s"
        } else {
            "-"
        },
    );
    perms.append(if mode & 0o400 != 0 {
        "r"
    } else {
        "-"
    });
    perms.append(if mode & 0o200 != 0 {
        "w"
    } else {
        "-"
    });
    perms.append(
        if mode & S_ISUID != 0 {
            if mode & 0o100 != 0 {
                "s"
            } else {
                "S"
            }
        } else if mode & 0o100 != 0 {
            "x"
        } else {
            "-"
        },
    );
    perms.append(if mode & 0o040 != 0 {
        "r"
    } else {
        "-"
    });
    perms.append(if mode & 0o020 != 0 {
        "w"
    } else {
        "-"
    });
    perms.append(
        if mode & S_ISGID != 0 {
            if mode & 0o010 != 0 {
                "s"
            } else {
                "S"
            }
        } else if mode & 0o010 != 0 {
            "x"
        } else {
            "-"
        },
    );
    perms.append(if mode & 0o004 != 0 {
        "r"
    } else {
        "-"
    });
    perms.append(if mode & 0o002 != 0 {
        "w"
    } else {
        "-"
    });
    perms.append(
        if mode & S_ISVTX != 0 {
            if mode & 0o001 != 0 {
                "t"
            } else {
                "T"
            }
        } else if mode & 0o001 != 0 {
            "x"
        } else {
            "-"
        },
    );
    proof {
        assert(perms@ =~= spec_permissions(mode));
    }
    perms
}

} // verus!
