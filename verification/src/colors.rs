use vstd::prelude::*;
use crate::entry::{
    FileEntry, S_IFBLK, S_IFCHR, S_IFDIR, S_IFIFO, S_IFLNK, S_IFMT, S_IFREG, S_IFSOCK, S_ISGID,
    S_ISUID, S_ISVTX,
};

verus! {

/// ANSI color codes for each file kind the listing distinguishes.
pub struct FileColors {
    pub di: String,
    pub ln: String,
    pub so: String,
    pub pi: String,
    pub ex: String,
    pub bd: String,
    pub cd: String,
    pub su: String,
    pub sg: String,
    pub tw: String,
    pub ow: String,
}

/// Foreground code of one BSD color letter.
pub open spec fn spec_bsd_fg(c: char) -> Seq<char> {
    match c {
        'a' | 'A' => "30"@,
        'b' | 'B' => "31"@,
        'c' | 'C' => "32"@,
        'd' | 'D' => "33"@,
        'e' | 'E' => "34"@,
        'f' | 'F' => "35"@,
        'g' | 'G' => "36"@,
        'h' | 'H' => "37"@,
        _ => "0"@,
    }
}

/// Background code of one BSD color letter.
pub open spec fn spec_bsd_bg(c: char) -> Seq<char> {
    match c {
        'a' | 'A' => "40"@,
        'b' | 'B' => "41"@,
        'c' | 'C' => "42"@,
        'd' | 'D' => "43"@,
        'e' | 'E' => "44"@,
        'f' | 'F' => "45"@,
        'g' | 'G' => "46"@,
        'h' | 'H' => "47"@,
        _ => "0"@,
    }
}

pub open spec fn spec_bsd_to_ansi(foreground: char, background: char) -> Seq<char> {
    spec_bsd_bg(background) + ";"@ + spec_bsd_fg(foreground)
}

/// One BSD letter pair (foreground, background) as an ANSI code pair,
/// background first.
pub fn bsd_to_ansi(foreground: char, background: char) -> (r: String)
    ensures
        r@ == spec_bsd_to_ansi(foreground, background),
{
    let fg = match foreground {
        'a' | 'A' => "30",
        'b' | 'B' => "31",
        'c' | 'C' => "32",
        'd' | 'D' => "33",
        'e' | 'E' => "34",
        'f' | 'F' => "35",
        'g' | 'G' => "36",
        'h' | 'H' => "37",
        _ => "0",
    };
    let bg = match background {
        'a' | 'A' => "40",
        'b' | 'B' => "41",
        'c' | 'C' => "42",
        'd' | 'D' => "43",
        'e' | 'E' => "44",
        'f' | 'F' => "45",
        'g' | 'G' => "46",
        'h' | 'H' => "47",
        _ => "0",
    };
    let mut s = String::from_str(bg);
    s.append(";");
    s.append(fg);
    s
}

/// The color chosen for an entry, or nothing for a plain file: world-
/// writable and sticky directories get their own colors, then the file
/// types, then the setuid/setgid and executable bits.
pub open spec fn spec_color_for(c: FileColors, e: FileEntry) -> Option<Seq<char>> {
    let ft = e.mode & S_IFMT;
    if ft == S_IFDIR {
        if e.mode & 0o002 != 0 {
            if e.mode & S_ISVTX != 0 {
                Option::Some(c.tw@)
            } else {
                Option::Some(c.ow@)
            }
        } else {
            Option::Some(c.di@)
        }
    } else if ft == S_IFLNK {
        Option::Some(c.ln@)
    } else if ft == S_IFSOCK {
        Option::Some(c.so@)
    } else if ft == S_IFIFO {
        Option::Some(c.pi@)
    } else if e.mode & S_ISUID != 0 {
        Option::Some(c.su@)
    } else if e.mode & S_ISGID != 0 {
        Option::Some(c.sg@)
    } else if e.mode & 0o111 != 0 && ft == S_IFREG {
        Option::Some(c.ex@)
    } else if ft == S_IFBLK {
        Option::Some(c.bd@)
    } else if ft == S_IFCHR {
        Option::Some(c.cd@)
    } else {
        Option::None
    }
}

impl FileColors {
    /// The built-in defaults.
    pub fn new() -> (r: FileColors)
        ensures
            r.di@ == "0;34"@,
            r.ln@ == "0;35"@,
            r.so@ == "0;32"@,
            r.pi@ == "0;33"@,
            r.ex@ == "0;31"@,
            r.bd@ == "34;46"@,
            r.cd@ == "34;43"@,
            r.su@ == "30;41"@,
            r.sg@ == "30;46"@,
            r.tw@ == "30;42"@,
            r.ow@ == "30;43"@,
    {
        FileColors {
            di: String::from_str("0;34"),
            ln: String::from_str("0;35"),
            so: String::from_str("0;32"),
            pi: String::from_str("0;33"),
            ex: String::from_str("0;31"),
            bd: String::from_str("34;46"),
            cd: String::from_str("34;43"),
            su: String::from_str("30;41"),
            sg: String::from_str("30;46"),
            tw: String::from_str("30;42"),
            ow: String::from_str("30;43"),
        }
    }

    /// Take the colors of a BSD LSCOLORS string (eleven letter pairs);
    /// anything shorter leaves the defaults alone.
    pub fn apply_lscolors(&mut self, chars: &Vec<char>)
        ensures
            chars@.len() < 22 ==> *final(self) == *old(self),
            chars@.len() >= 22 ==> final(self).di@ == spec_bsd_to_ansi(chars@[0], chars@[1])
                && final(self).ln@ == spec_bsd_to_ansi(chars@[2], chars@[3])
                && final(self).so@ == spec_bsd_to_ansi(chars@[4], chars@[5])
                && final(self).pi@ == spec_bsd_to_ansi(chars@[6], chars@[7])
                && final(self).ex@ == spec_bsd_to_ansi(chars@[8], chars@[9])
                && final(self).bd@ == spec_bsd_to_ansi(chars@[10], chars@[11])
                && final(self).cd@ == spec_bsd_to_ansi(chars@[12], chars@[13])
                && final(self).su@ == spec_bsd_to_ansi(chars@[14], chars@[15])
                && final(self).sg@ == spec_bsd_to_ansi(chars@[16], chars@[17])
                && final(self).tw@ == spec_bsd_to_ansi(chars@[18], chars@[19])
                && final(self).ow@ == spec_bsd_to_ansi(chars@[20], chars@[21]),
    {
        if chars.len() >= 22 {
            self.di = bsd_to_ansi(chars[0], chars[1]);
            self.ln = bsd_to_ansi(chars[2], chars[3]);
            self.so = bsd_to_ansi(chars[4], chars[5]);
            self.pi = bsd_to_ansi(chars[6], chars[7]);
            self.ex = bsd_to_ansi(chars[8], chars[9]);
            self.bd = bsd_to_ansi(chars[10], chars[11]);
            self.cd = bsd_to_ansi(chars[12], chars[13]);
            self.su = bsd_to_ansi(chars[14], chars[15]);
            self.sg = bsd_to_ansi(chars[16], chars[17]);
            self.tw = bsd_to_ansi(chars[18], chars[19]);
            self.ow = bsd_to_ansi(chars[20], chars[21]);
        }
    }

    /// The color for an entry, if its kind has one.
    pub fn color_for(&self, entry: &FileEntry) -> (r: Option<String>)
        ensures
            match spec_color_for(*self, *entry) {
                Option::Some(v) => r is Some && r->Some_0@ == v,
                Option::None => r is None,
            },
    {
        let ft = entry.mode & S_IFMT;
        if ft == S_IFDIR {
            if entry.mode & 0o002 != 0 {
                if entry.mode & S_ISVTX != 0 {
                    Some(self.tw.clone())
                } else {
                    Some(self.ow.clone())
                }
            } else {
                Some(self.di.clone())
            }
        } else if ft == S_IFLNK {
            Some(self.ln.clone())
        } else if ft == S_IFSOCK {
            Some(self.so.clone())
        } else if ft == S_IFIFO {
            Some(self.pi.clone())
        } else if entry.mode & S_ISUID != 0 {
            Some(self.su.clone())
        } else if entry.mode & S_ISGID != 0 {
            Some(self.sg.clone())
        } else if entry.mode & 0o111 != 0 && ft == S_IFREG {
            Some(self.ex.clone())
        } else if ft == S_IFBLK {
            Some(self.bd.clone())
        } else if ft == S_IFCHR {
            Some(self.cd.clone())
        } else {
            None
        }
    }
}

} // verus!
