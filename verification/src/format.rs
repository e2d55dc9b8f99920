use vstd::prelude::*;
use vstd::string::StrSliceExecFns;
use crate::colors::{FileColors, spec_color_for};
use crate::entry::FileEntry;
use crate::status::VcsStatus;
use crate::status_map::StatusMap;

verus! {

pub open spec fn spec_digit_char(d: int) -> char {
    if d == 0 {
        '0'
    } else if d == 1 {
        '1'
    } else if d == 2 {
        '2'
    } else if d == 3 {
        '3'
    } else if d == 4 {
        '4'
    } else if d == 5 {
        '5'
    } else if d == 6 {
        '6'
    } else if d == 7 {
        '7'
    } else if d == 8 {
        '8'
    } else {
        '9'
    }
}

/// Decimal digits of a number, most significant first.
pub open spec fn spec_dec(n: nat) -> Seq<char>
    decreases n,
{
    if n < 10 {
        seq![spec_digit_char(n as int)]
    } else {
        spec_dec(n / 10) + seq![spec_digit_char((n % 10) as int)]
    }
}

fn digit_str(d: u64) -> (r: &'static str)
    requires
        d < 10,
    ensures
        r@ == seq![spec_digit_char(d as int)],
{
    proof {
        reveal_strlit("0");
        reveal_strlit("1");
        reveal_strlit("2");
        reveal_strlit("3");
        reveal_strlit("4");
        reveal_strlit("5");
        reveal_strlit("6");
        reveal_strlit("7");
        reveal_strlit("8");
        reveal_strlit("9");
    }
    if d == 0 {
        "0"
    } else if d == 1 {
        "1"
    } else if d == 2 {
        "2"
    } else if d == 3 {
        "3"
    } else if d == 4 {
        "4"
    } else if d == 5 {
        "5"
    } else if d == 6 {
        "6"
    } else if d == 7 {
        "7"
    } else if d == 8 {
        "8"
    } else {
        "9"
    }
}

/// A number in decimal.
pub fn u64_to_dec(n: u64) -> (r: String)
    ensures
        r@ == spec_dec(n as nat),
    decreases n,
{
    if n < 10 {
        let mut s = String::new();
        s.append(digit_str(n));
        proof {
            assert(s@ =~= spec_dec(n as nat));
        }
        s
    } else {
        let mut s = u64_to_dec(n / 10);
        s.append(digit_str(n % 10));
        s
    }
}

/// 256-color code of the size column, by the size thresholds.
pub open spec fn spec_color_for_size(size: u64) -> u16 {
    if size <= 1024 {
        46
    } else if size <= 2048 {
        82
    } else if size <= 3072 {
        118
    } else if size <= 5120 {
        154
    } else if size <= 10240 {
        190
    } else if size <= 20480 {
        226
    } else if size <= 40960 {
        220
    } else if size <= 102400 {
        214
    } else if size <= 262144 {
        208
    } else if size <= 524288 {
        202
    } else {
        196
    }
}

#[verifier::when_used_as_spec(spec_color_for_size)]
pub fn color_for_size(size: u64) -> (r: u16)
    ensures
        r == spec_color_for_size(size),
{
    if size <= 1024 {
        46
    } else if size <= 2048 {
        82
    } else if size <= 3072 {
        118
    } else if size <= 5120 {
        154
    } else if size <= 10240 {
        190
    } else if size <= 20480 {
        226
    } else if size <= 40960 {
        220
    } else if size <= 102400 {
        214
    } else if size <= 262144 {
        208
    } else if size <= 524288 {
        202
    } else {
        196
    }
}

/// 256-color code of the date column, by the age thresholds; a timestamp
/// from the future is loud, ancient ones fade out.
pub open spec fn spec_color_for_age(time_diff: i64) -> u16 {
    if time_diff < 0 {
        196
    } else if time_diff < 60 {
        255
    } else if time_diff < 3600 {
        252
    } else if time_diff < 86400 {
        250
    } else if time_diff < 604800 {
        244
    } else if time_diff < 2419200 {
        244
    } else if time_diff < 15724800 {
        242
    } else if time_diff < 31449600 {
        240
    } else if time_diff < 62899200 {
        238
    } else {
        236
    }
}

#[verifier::when_used_as_spec(spec_color_for_age)]
pub fn color_for_age(time_diff: i64) -> (r: u16)
    ensures
        r == spec_color_for_age(time_diff),
{
    if time_diff < 0 {
        196
    } else if time_diff < 60 {
        255
    } else if time_diff < 3600 {
        252
    } else if time_diff < 86400 {
        250
    } else if time_diff < 604800 {
        244
    } else if time_diff < 2419200 {
        244
    } else if time_diff < 15724800 {
        242
    } else if time_diff < 31449600 {
        240
    } else if time_diff < 62899200 {
        238
    } else {
        236
    }
}

/// The one-or-two character status marker, with its color.
pub open spec fn spec_vcs_marker(status: VcsStatus) -> Seq<char> {
    match status {
        VcsStatus::Clean => " \u{1b}[38;5;82m|\u{1b}[0m"@,
        VcsStatus::DirChanged => " \u{1b}[38;5;226m+\u{1b}[0m"@,
        VcsStatus::DirUntracked => " \u{1b}[38;5;226m?\u{1b}[0m"@,
        VcsStatus::DirEmptyUntracked => " \u{1b}[38;5;238m?\u{1b}[0m"@,
        VcsStatus::Ignored => " \u{1b}[38;5;238m|\u{1b}[0m"@,
        VcsStatus::Untracked => " \u{1b}[38;5;196m?\u{1b}[0m"@,
        VcsStatus::Staged => " \u{1b}[38;5;82m+\u{1b}[0m"@,
        VcsStatus::WorkTreeChanged => " \u{1b}[38;5;196m+\u{1b}[0m"@,
        VcsStatus::BothChanged => " \u{1b}[38;5;214m+\u{1b}[0m"@,
        VcsStatus::Absent => "  "@,
    }
}

pub fn format_vcs_marker(status: &VcsStatus) -> (r: String)
    ensures
        r@ == spec_vcs_marker(*status),
{
    match status {
        VcsStatus::Clean => String::from_str(" \u{1b}[38;5;82m|\u{1b}[0m"),
        VcsStatus::DirChanged => String::from_str(" \u{1b}[38;5;226m+\u{1b}[0m"),
        VcsStatus::DirUntracked => String::from_str(" \u{1b}[38;5;226m?\u{1b}[0m"),
        VcsStatus::DirEmptyUntracked => String::from_str(" \u{1b}[38;5;238m?\u{1b}[0m"),
        VcsStatus::Ignored => String::from_str(" \u{1b}[38;5;238m|\u{1b}[0m"),
        VcsStatus::Untracked => String::from_str(" \u{1b}[38;5;196m?\u{1b}[0m"),
        VcsStatus::Staged => String::from_str(" \u{1b}[38;5;82m+\u{1b}[0m"),
        VcsStatus::WorkTreeChanged => String::from_str(" \u{1b}[38;5;196m+\u{1b}[0m"),
        VcsStatus::BothChanged => String::from_str(" \u{1b}[38;5;214m+\u{1b}[0m"),
        VcsStatus::Absent => String::from_str("  "),
    }
}

/// Rounded-up division.
pub open spec fn spec_ceil_div(v: nat, b: nat) -> nat {
    v / b + (if v % b == 0 {
        0nat
    } else {
        1nat
    })
}

/// Repeated scaling of a size by the base: divide (rounding up) while the
/// value still holds at least two more unit steps, at most four times.
pub open spec fn spec_hr_scale(val: nat, idx: nat, base: nat) -> (nat, nat)
    decreases 4 - idx,
{
    if val >= base * base && idx < 4 {
        spec_hr_scale(spec_ceil_div(val, base), idx + 1, base)
    } else {
        (val, idx)
    }
}

pub open spec fn spec_unit(idx: nat) -> Seq<char> {
    if idx == 1 {
        "K"@
    } else if idx == 2 {
        "M"@
    } else if idx == 3 {
        "G"@
    } else if idx == 4 {
        "T"@
    } else {
        "P"@
    }
}

fn unit_str(idx: usize) -> (r: &'static str)
    requires
        1 <= idx <= 5,
    ensures
        r@ == spec_unit(idx as nat),
{
    if idx == 1 {
        "K"
    } else if idx == 2 {
        "M"
    } else if idx == 3 {
        "G"
    } else if idx == 4 {
        "T"
    } else {
        "P"
    }
}

/// A size under the base prints as plain digits; otherwise it is scaled
/// down (each step rounding up, as numfmt does), divided once more, and
/// suffixed with the unit letter of the final step.
pub open spec fn spec_human_readable(size: u64, si: bool) -> Seq<char> {
    let base: nat = if si {
        1000
    } else {
        1024
    };
    if (size as nat) < base {
        spec_dec(size as nat)
    } else {
        let scaled = spec_hr_scale(size as nat, 0, base);
        spec_dec(spec_ceil_div(scaled.0, base)) + spec_unit(scaled.1 + 1)
    }
}

pub fn human_readable(size: u64, si: bool) -> (r: String)
    ensures
        r@ == spec_human_readable(size, si),
{
    let base: u64 = if si {
        1000
    } else {
        1024
    };
    if size < base {
        return u64_to_dec(size);
    }
    let mut val = size;
    let mut idx: usize = 0;
    while val >= base * base && idx < 4
        invariant
            base == if si {
                1000u64
            } else {
                1024u64
            },
            idx <= 4,
            spec_hr_scale(val as nat, idx as nat, base as nat) == spec_hr_scale(
                size as nat,
                0,
                base as nat,
            ),
        decreases 4 - idx,
    {
        let q = val / base;
        let rem = val % base;
        let next = if rem == 0 {
            q
        } else {
            q + 1
        };
        proof {
            assert(next as nat == spec_ceil_div(val as nat, base as nat));
        }
        val = next;
        idx += 1;
    }
    let q = val / base;
    let rem = val % base;
    let result = if rem == 0 {
        q
    } else {
        q + 1
    };
    proof {
        assert(result as nat == spec_ceil_div(val as nat, base as nat));
        assert(spec_hr_scale(val as nat, idx as nat, base as nat) == (val as nat, idx as nat));
    }
    let mut s = u64_to_dec(result);
    s.append(unit_str(idx + 1));
    s
}

/// A run of spaces.
pub open spec fn spec_spaces(n: nat) -> Seq<char> {
    Seq::new(n, |i: int| ' ')
}

/// `s` padded with spaces on the left up to `w` characters.
pub open spec fn spec_pad_left(s: Seq<char>, w: nat) -> Seq<char> {
    if s.len() >= w {
        s
    } else {
        spec_spaces((w - s.len()) as nat) + s
    }
}

/// `s` padded with spaces on the right up to `w` characters.
pub open spec fn spec_pad_right(s: Seq<char>, w: nat) -> Seq<char> {
    if s.len() >= w {
        s
    } else {
        s + spec_spaces((w - s.len()) as nat)
    }
}

fn spaces(n: usize) -> (r: String)
    ensures
        r@ == spec_spaces(n as nat),
{
    proof {
        reveal_strlit(" ");
    }
    let mut s = String::new();
    let mut i: usize = 0;
    while i < n
        invariant
            i <= n,
            s@ =~= spec_spaces(i as nat),
        decreases n - i,
    {
        s.append(" ");
        proof {
            reveal_strlit(" ");
            assert(s@ =~= spec_spaces(i as nat + 1));
        }
        i += 1;
    }
    s
}

pub fn pad_left(s: &String, w: usize) -> (r: String)
    ensures
        r@ == spec_pad_left(s@, w as nat),
{
    let l = s.as_str().unicode_len();
    if l >= w {
        return s.clone();
    }
    let mut r = spaces(w - l);
    r.append(s.as_str());
    r
}

pub fn pad_right(s: &String, w: usize) -> (r: String)
    ensures
        r@ == spec_pad_right(s@, w as nat),
{
    let l = s.as_str().unicode_len();
    if l >= w {
        return s.clone();
    }
    let mut r = s.clone();
    r.append(spaces(w - l).as_str());
    r
}

/// The date column, composed from its already-formatted parts: a
/// timestamp younger than six months shows day, month (padded to five
/// characters) and hour:minute; an older one shows day, month (padded to
/// six) and the year.
pub open spec fn spec_format_date(
    day: Seq<char>,
    month: Seq<char>,
    hhmm: Seq<char>,
    year: Seq<char>,
    time_diff: int,
) -> Seq<char> {
    if time_diff < 15724800 {
        day + " "@ + spec_pad_right(month, 5) + " "@ + hhmm
    } else {
        day + " "@ + spec_pad_right(month, 6) + " "@ + year
    }
}

pub fn format_date_parts(
    day: &String,
    month: &String,
    hhmm: &String,
    year: &String,
    time_diff: i64,
) -> (r: String)
    ensures
        r@ == spec_format_date(day@, month@, hhmm@, year@, time_diff as int),
{
    let mut s = day.clone();
    s.append(" ");
    if time_diff < 15724800 {
        s.append(pad_right(month, 5).as_str());
        s.append(" ");
        s.append(hhmm.as_str());
    } else {
        s.append(pad_right(month, 6).as_str());
        s.append(" ");
        s.append(year.as_str());
    }
    s
}

/// Widths of the aligned columns of one listing.
pub struct ColumnWidths {
    pub perms: usize,
    pub nlinks: usize,
    pub owner: usize,
    pub group: usize,
    pub size: usize,
}

/// The size column's text for one entry.
pub open spec fn spec_size_string(size: u64, human: bool, si: bool) -> Seq<char> {
    if human {
        spec_human_readable(size, si)
    } else {
        spec_dec(size as nat)
    }
}

/// The column widths of one listing, folded over the entries: each
/// column is exactly as wide as the longest cell it must hold.
pub open spec fn model_widths(entries: Seq<FileEntry>, human: bool, si: bool) -> (
    nat,
    nat,
    nat,
    nat,
    nat,
)
    decreases entries.len(),
{
    if entries.len() == 0 {
        (0nat, 0nat, 0nat, 0nat, 0nat)
    } else {
        let w = model_widths(entries.drop_last(), human, si);
        let e = entries.last();
        (
            if e.permission_string@.len() > w.0 {
                e.permission_string@.len()
            } else {
                w.0
            },
            if spec_dec(e.nlinks as nat).len() > w.1 {
                spec_dec(e.nlinks as nat).len()
            } else {
                w.1
            },
            if e.owner@.len() > w.2 {
                e.owner@.len()
            } else {
                w.2
            },
            if e.group@.len() > w.3 {
                e.group@.len()
            } else {
                w.3
            },
            if spec_size_string(e.size, human, si).len() > w.4 {
                spec_size_string(e.size, human, si).len()
            } else {
                w.4
            },
        )
    }
}

impl ColumnWidths {
    /// The widths are exactly `model_widths` over the entries, so no cell
    /// is wider than its column. Returns the widths and the size strings
    /// the size width was computed from.
    pub fn compute(entries: &Vec<FileEntry>, human: bool, si: bool) -> (r: (
        ColumnWidths,
        Vec<String>,
    ))
        ensures
            r.1@.len() == entries@.len(),
            (r.0.perms as nat, r.0.nlinks as nat, r.0.owner as nat, r.0.group as nat, r.0.size
                as nat) == model_widths(entries@, human, si),
            forall|i: int|
                0 <= i < entries@.len() ==> r.1@[i]@ == spec_size_string(
                    entries@[i].size,
                    human,
                    si,
                ),
            forall|i: int|
                0 <= i < entries@.len() ==> (#[trigger] entries@[i]).permission_string@.len()
                    <= r.0.perms,
            forall|i: int|
                0 <= i < entries@.len() ==> spec_dec(
                    (#[trigger] entries@[i]).nlinks as nat,
                ).len() <= r.0.nlinks,
            forall|i: int|
                0 <= i < entries@.len() ==> (#[trigger] entries@[i]).owner@.len() <= r.0.owner,
            forall|i: int|
                0 <= i < entries@.len() ==> (#[trigger] entries@[i]).group@.len() <= r.0.group,
            forall|i: int| 0 <= i < entries@.len() ==> (#[trigger] r.1@[i])@.len() <= r.0.size,
            entries@.len() == 0 ==> r.0.perms == 0 && r.0.nlinks == 0 && r.0.owner == 0
                && r.0.group == 0 && r.0.size == 0,
    {
        let mut size_strings: Vec<String> = Vec::new();
        let mut perms: usize = 0;
        let mut nlinks: usize = 0;
        let mut owner: usize = 0;
        let mut group: usize = 0;
        let mut size_w: usize = 0;
        let mut i: usize = 0;
        proof {
            assert(entries@.take(0) =~= Seq::<FileEntry>::empty());
        }
        while i < entries.len()
            invariant
                i <= entries@.len(),
                size_strings@.len() == i,
                (perms as nat, nlinks as nat, owner as nat, group as nat, size_w as nat)
                    == model_widths(entries@.take(i as int), human, si),
                forall|j: int|
                    0 <= j < i ==> size_strings@[j]@ == spec_size_string(
                        entries@[j].size,
                        human,
                        si,
                    ),
                forall|j: int|
                    0 <= j < i ==> (#[trigger] entries@[j]).permission_string@.len() <= perms,
                forall|j: int|
                    0 <= j < i ==> spec_dec((#[trigger] entries@[j]).nlinks as nat).len()
                        <= nlinks,
                forall|j: int| 0 <= j < i ==> (#[trigger] entries@[j]).owner@.len() <= owner,
                forall|j: int| 0 <= j < i ==> (#[trigger] entries@[j]).group@.len() <= group,
                forall|j: int| 0 <= j < i ==> (#[trigger] size_strings@[j])@.len() <= size_w,
                i == 0 ==> perms == 0 && nlinks == 0 && owner == 0 && group == 0 && size_w == 0,
            decreases entries@.len() - i,
        {
            let e = &entries[i];
            let ss = if human {
                human_readable(e.size, si)
            } else {
                u64_to_dec(e.size)
            };
            let p = e.permission_string.as_str().unicode_len();
            if p > perms {
                perms = p;
            }
            let n = u64_to_dec(e.nlinks).as_str().unicode_len();
            if n > nlinks {
                nlinks = n;
            }
            let o = e.owner.as_str().unicode_len();
            if o > owner {
                owner = o;
            }
            let g = e.group.as_str().unicode_len();
            if g > group {
                group = g;
            }
            let s = ss.as_str().unicode_len();
            if s > size_w {
                size_w = s;
            }
            let ghost ssv = ss@;
            size_strings.push(ss);
            proof {
                assert(entries@.take(i + 1).drop_last() =~= entries@.take(i as int));
                assert(entries@.take(i + 1).last() == entries@[i as int]);
                assert(size_strings@[i as int]@ == ssv);
                assert(entries@[i as int].permission_string@.len() <= perms);
                assert(spec_dec(entries@[i as int].nlinks as nat).len() <= nlinks);
                assert(entries@[i as int].owner@.len() <= owner);
                assert(entries@[i as int].group@.len() <= group);
                assert forall|j: int| 0 <= j < i + 1 implies (#[trigger] size_strings@[j])@.len()
                    <= size_w by {
                    if j == i {
                        assert(size_strings@[j]@ == ssv);
                    }
                }
            }
            i += 1;
        }
        proof {
            assert(entries@.take(entries@.len() as int) =~= entries@);
        }
        (ColumnWidths { perms, nlinks, owner, group, size: size_w }, size_strings)
    }
}

/// One rendered listing line: the padded permission, link, owner, group,
/// size and date columns with their colors, the status marker when a
/// status map applies, the colored name, and the symlink target.
pub open spec fn spec_format_entry(
    e: FileEntry,
    perms_w: nat,
    nlinks_w: nat,
    owner_w: nat,
    group_w: nat,
    size_w: nat,
    size_str: Seq<char>,
    color: Option<Seq<char>>,
    vcs: Option<VcsStatus>,
    date_str: Seq<char>,
    now: int,
) -> Seq<char> {
    spec_pad_right(e.permission_string@, perms_w) + " "@ + spec_pad_left(
        spec_dec(e.nlinks as nat),
        nlinks_w,
    ) + " \u{1b}[38;5;241m"@ + spec_pad_left(e.owner@, owner_w) + "\u{1b}[0m"@
        + " \u{1b}[38;5;241m"@ + spec_pad_left(e.group@, group_w) + "\u{1b}[0m"@
        + " \u{1b}[38;5;"@ + spec_dec(spec_color_for_size(e.size) as nat) + "m"@ + spec_pad_left(
        size_str,
        size_w,
    ) + "\u{1b}[0m"@ + " \u{1b}[38;5;"@ + spec_dec(
        spec_color_for_age((now - e.mtime) as i64) as nat,
    ) + "m"@ + date_str + "\u{1b}[0m"@ + (match vcs {
        Option::Some(st) => spec_vcs_marker(st),
        Option::None => Seq::<char>::empty(),
    }) + " "@ + (match color {
        Option::Some(c) => "\u{1b}["@ + c + "m"@ + e.display_name@ + "\u{1b}[0m"@,
        Option::None => e.display_name@,
    }) + (match e.symlink_target {
        Option::Some(t) => " -> "@ + t@,
        Option::None => Seq::<char>::empty(),
    })
}

pub fn format_entry(
    entry: &FileEntry,
    widths: &ColumnWidths,
    size_str: &String,
    colors: &FileColors,
    vcs_status: Option<&VcsStatus>,
    date_str: &String,
    now: i64,
) -> (r: String)
    requires
        i64::MIN <= now as int - entry.mtime as int <= i64::MAX,
    ensures
        r@ == spec_format_entry(
            *entry,
            widths.perms as nat,
            widths.nlinks as nat,
            widths.owner as nat,
            widths.group as nat,
            widths.size as nat,
            size_str@,
            spec_color_for(*colors, *entry),
            (match vcs_status {
                Option::Some(st) => Option::Some(*st),
                Option::None => Option::None,
            }),
            date_str@,
            now as int,
        ),
{
    let mut out = pad_right(&entry.permission_string, widths.perms);
    out.append(" ");
    out.append(pad_left(&u64_to_dec(entry.nlinks), widths.nlinks).as_str());
    out.append(" \u{1b}[38;5;241m");
    out.append(pad_left(&entry.owner, widths.owner).as_str());
    out.append("\u{1b}[0m");
    out.append(" \u{1b}[38;5;241m");
    out.append(pad_left(&entry.group, widths.group).as_str());
    out.append("\u{1b}[0m");
    out.append(" \u{1b}[38;5;");
    out.append(u64_to_dec(color_for_size(entry.size) as u64).as_str());
    out.append("m");
    out.append(pad_left(size_str, widths.size).as_str());
    out.append("\u{1b}[0m");
    let time_diff = now - entry.mtime;
    out.append(" \u{1b}[38;5;");
    out.append(u64_to_dec(color_for_age(time_diff) as u64).as_str());
    out.append("m");
    out.append(date_str.as_str());
    out.append("\u{1b}[0m");
    match vcs_status {
        Some(st) => {
            out.append(format_vcs_marker(st).as_str());
        },
        None => {},
    }
    out.append(" ");
    match colors.color_for(entry) {
        Some(c) => {
            out.append("\u{1b}[");
            out.append(c.as_str());
            out.append("m");
            out.append(entry.display_name.as_str());
            out.append("\u{1b}[0m");
        },
        None => {
            out.append(entry.display_name.as_str());
        },
    }
    match &entry.symlink_target {
        Some(t) => {
            out.append(" -> ");
            out.append(t.as_str());
        },
        None => {},
    }
    out
}

/// The status shown for one entry of a listing inside a repository: its
/// mapping if the map has one, `Absent` otherwise.
pub open spec fn spec_entry_status(m: &StatusMap, name: Seq<char>) -> VcsStatus {
    match m.spec_get(name) {
        Option::Some(st) => st,
        Option::None => VcsStatus::Absent,
    }
}

/// The line rendered for entry `i` of a listing: `spec_format_entry` under
/// the listing's common column widths, with the status the map gives the
/// entry's name (no marker at all without a map).
pub open spec fn spec_rendered_line(
    entries: Seq<FileEntry>,
    i: int,
    colors: FileColors,
    vcs_map: Option<&StatusMap>,
    human: bool,
    si: bool,
    date_str: Seq<char>,
    now: int,
) -> Seq<char> {
    let w = model_widths(entries, human, si);
    spec_format_entry(
        entries[i],
        w.0,
        w.1,
        w.2,
        w.3,
        w.4,
        spec_size_string(entries[i].size, human, si),
        spec_color_for(colors, entries[i]),
        (match vcs_map {
            Option::Some(m) => Option::Some(spec_entry_status(m, entries[i].display_name@)),
            Option::None => Option::None,
        }),
        date_str,
        now,
    )
}

/// Render every entry into its listing line, using one set of column
/// widths for the whole listing. `date_strs[i]` is the already-formatted
/// date column of entry `i`.
pub fn render_entries(
    entries: &Vec<FileEntry>,
    colors: &FileColors,
    vcs_map: Option<&StatusMap>,
    human: bool,
    si: bool,
    date_strs: &Vec<String>,
    now: i64,
) -> (r: Vec<String>)
    requires
        date_strs@.len() == entries@.len(),
        forall|i: int|
            0 <= i < entries@.len() ==> i64::MIN <= now as int - (#[trigger] entries@[i]).mtime as int
                <= i64::MAX,
    ensures
        r@.len() == entries@.len(),
        forall|i: int|
            0 <= i < entries@.len() ==> (#[trigger] r@[i])@ == spec_rendered_line(
                entries@,
                i,
                *colors,
                vcs_map,
                human,
                si,
                date_strs@[i]@,
                now as int,
            ),
{
    let (widths, size_strings) = ColumnWidths::compute(entries, human, si);
    let mut out: Vec<String> = Vec::new();
    let mut i: usize = 0;
    while i < entries.len()
        invariant
            i <= entries@.len(),
            out@.len() == i,
            size_strings@.len() == entries@.len(),
            date_strs@.len() == entries@.len(),
            (widths.perms as nat, widths.nlinks as nat, widths.owner as nat, widths.group as nat,
            widths.size as nat) == model_widths(entries@, human, si),
            forall|j: int|
                0 <= j < entries@.len() ==> size_strings@[j]@ == spec_size_string(
                    (#[trigger] entries@[j]).size,
                    human,
                    si,
                ),
            forall|j: int|
                0 <= j < i ==> (#[trigger] out@[j])@ == spec_rendered_line(
                    entries@,
                    j,
                    *colors,
                    vcs_map,
                    human,
                    si,
                    date_strs@[j]@,
                    now as int,
                ),
            forall|j: int|
                0 <= j < entries@.len() ==> i64::MIN <= now as int - (#[trigger] entries@[j]).mtime as int
                    <= i64::MAX,
        decreases entries@.len() - i,
    {
        let entry = &entries[i];
        let line = match vcs_map {
            Some(m) => {
                let st = match m.get(&entry.display_name) {
                    Some(s) => s,
                    None => VcsStatus::Absent,
                };
                format_entry(entry, &widths, &size_strings[i], colors, Some(&st), &date_strs[i],
                now)
            },
            None => {
                format_entry(entry, &widths, &size_strings[i], colors, None, &date_strs[i], now)
            },
        };
        out.push(line);
        i += 1;
    }
    out
}

} // verus!
