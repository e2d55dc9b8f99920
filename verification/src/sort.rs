use vstd::prelude::*;
use vstd::string::StrSliceExecFns;
use vstd::utf8::encode_utf8;
use crate::cli::Args;
use crate::entry::FileEntry;

verus! {

/// The configurable primary ordering of a listing.
#[derive(Debug, Clone, Copy, PartialEq, Eq, Structural)]
pub enum SortKey {
    Name,
    Size,
    Mtime,
    Ctime,
    Atime,
    Unsorted,
}

/// The key the options ask for: the `--sort` word wins over the one-letter
/// flags, which are tried in a fixed order; the default is by name.
pub open spec fn spec_resolve_sort_key(args: Args) -> SortKey {
    match args.sort_word {
        Option::Some(w) => {
            if w@ == "none"@ {
                SortKey::Unsorted
            } else if w@ == "size"@ {
                SortKey::Size
            } else if w@ == "time"@ {
                SortKey::Mtime
            } else if w@ == "ctime"@ || w@ == "status"@ {
                SortKey::Ctime
            } else if w@ == "atime"@ || w@ == "access"@ || w@ == "use"@ {
                SortKey::Atime
            } else {
                SortKey::Name
            }
        },
        Option::None => {
            if args.unsorted {
                SortKey::Unsorted
            } else if args.sort_size {
                SortKey::Size
            } else if args.sort_time {
                SortKey::Mtime
            } else if args.sort_ctime {
                SortKey::Ctime
            } else if args.sort_atime {
                SortKey::Atime
            } else {
                SortKey::Name
            }
        },
    }
}

pub fn resolve_sort_key(args: &Args) -> (r: SortKey)
    ensures
        r == spec_resolve_sort_key(*args),
{
    match &args.sort_word {
        Some(w) => {
            if w.eq(&String::from_str("none")) {
                SortKey::Unsorted
            } else if w.eq(&String::from_str("size")) {
                SortKey::Size
            } else if w.eq(&String::from_str("time")) {
                SortKey::Mtime
            } else if w.eq(&String::from_str("ctime")) || w.eq(&String::from_str("status")) {
                SortKey::Ctime
            } else if w.eq(&String::from_str("atime")) || w.eq(&String::from_str("access"))
                || w.eq(&String::from_str("use")) {
                SortKey::Atime
            } else {
                SortKey::Name
            }
        },
        None => {
            if args.unsorted {
                SortKey::Unsorted
            } else if args.sort_size {
                SortKey::Size
            } else if args.sort_time {
                SortKey::Mtime
            } else if args.sort_ctime {
                SortKey::Ctime
            } else if args.sort_atime {
                SortKey::Atime
            } else {
                SortKey::Name
            }
        },
    }
}

/// The case-folded form of a string, as the platform's Unicode lowercase
/// mapping produces it.
pub uninterp spec fn lower_of(s: Seq<char>) -> Seq<char>;

/// Relies on str::to_lowercase: the lowercase form depends on the
/// characters alone.
#[verifier::external_body]
fn lowercase(s: &String) -> (r: String)
    ensures
        r@ == lower_of(s@),
{
    s.to_lowercase()
}

/// Lexicographic three-way comparison of byte strings.
pub open spec fn spec_bytes_cmp(a: Seq<u8>, b: Seq<u8>) -> int
    decreases a.len(),
{
    if a.len() == 0 && b.len() == 0 {
        0
    } else if a.len() == 0 {
        -1
    } else if b.len() == 0 {
        1
    } else if a[0] < b[0] {
        -1
    } else if a[0] > b[0] {
        1
    } else {
        spec_bytes_cmp(a.drop_first(), b.drop_first())
    }
}

pub proof fn lemma_bytes_cmp_antisym(a: Seq<u8>, b: Seq<u8>)
    ensures
        spec_bytes_cmp(a, b) == -spec_bytes_cmp(b, a),
    decreases a.len(),
{
    if a.len() > 0 && b.len() > 0 && a[0] == b[0] {
        lemma_bytes_cmp_antisym(a.drop_first(), b.drop_first());
    }
}

pub proof fn lemma_bytes_cmp_zero_eq(a: Seq<u8>, b: Seq<u8>)
    requires
        spec_bytes_cmp(a, b) == 0,
    ensures
        a == b,
    decreases a.len(),
{
    if a.len() > 0 && b.len() > 0 && a[0] == b[0] {
        lemma_bytes_cmp_zero_eq(a.drop_first(), b.drop_first());
        assert(a.drop_first().len() == b.drop_first().len());
        assert forall|i: int| 0 <= i < a.len() implies a[i] == b[i] by {
            if i > 0 {
                assert(a.drop_first()[i - 1] == b.drop_first()[i - 1]);
            }
        }
        assert(a =~= b);
    }
}

pub proof fn lemma_bytes_cmp_le_trans(a: Seq<u8>, b: Seq<u8>, c: Seq<u8>)
    requires
        spec_bytes_cmp(a, b) <= 0,
        spec_bytes_cmp(b, c) <= 0,
    ensures
        spec_bytes_cmp(a, c) <= 0,
    decreases a.len(),
{
    if a.len() == 0 {
    } else {
        assert(b.len() > 0);
        assert(c.len() > 0);
        if a[0] == b[0] && b[0] == c[0] {
            lemma_bytes_cmp_le_trans(a.drop_first(), b.drop_first(), c.drop_first());
        }
    }
}

fn bytes_cmp(a: &Vec<u8>, b: &Vec<u8>) -> (r: i8)
    ensures
        r as int == spec_bytes_cmp(a@, b@),
{
    let n = if a.len() < b.len() {
        a.len()
    } else {
        b.len()
    };
    let mut i: usize = 0;
    proof {
        assert(a@.skip(0) =~= a@);
        assert(b@.skip(0) =~= b@);
    }
    while i < n
        invariant
            i <= n,
            n == if a@.len() < b@.len() {
                a@.len()
            } else {
                b@.len()
            },
            spec_bytes_cmp(a@, b@) == spec_bytes_cmp(a@.skip(i as int), b@.skip(i as int)),
        decreases n - i,
    {
        proof {
            assert(a@.skip(i as int)[0] == a@[i as int]);
            assert(b@.skip(i as int)[0] == b@[i as int]);
            assert(a@.skip(i as int).drop_first() =~= a@.skip(i + 1));
            assert(b@.skip(i as int).drop_first() =~= b@.skip(i + 1));
        }
        if a[i] < b[i] {
            return -1;
        }
        if a[i] > b[i] {
            return 1;
        }
        i += 1;
    }
    proof {
        if a@.len() < b@.len() {
            assert(a@.skip(n as int) =~= Seq::<u8>::empty());
            assert(b@.skip(n as int).len() > 0);
        } else if a@.len() > b@.len() {
            assert(b@.skip(n as int) =~= Seq::<u8>::empty());
            assert(a@.skip(n as int).len() > 0);
        } else {
            assert(a@.skip(n as int) =~= Seq::<u8>::empty());
            assert(b@.skip(n as int) =~= Seq::<u8>::empty());
        }
    }
    if a.len() < b.len() {
        -1
    } else if a.len() > b.len() {
        1
    } else {
        0
    }
}

pub open spec fn spec_int_cmp(x: int, y: int) -> int {
    if x < y {
        -1
    } else if x > y {
        1
    } else {
        0
    }
}

/// The UTF-8 bytes that order a name.
pub open spec fn name_bytes(s: Seq<char>) -> Seq<u8> {
    encode_utf8(s)
}

/// The primary comparison of one sort key: name order is case-folded
/// ascending; size and the three times order descending (largest or
/// newest first).
pub open spec fn spec_key_primary(key: SortKey, a: FileEntry, b: FileEntry) -> int {
    match key {
        SortKey::Name => spec_bytes_cmp(
            name_bytes(lower_of(a.display_name@)),
            name_bytes(lower_of(b.display_name@)),
        ),
        SortKey::Size => spec_int_cmp(b.size as int, a.size as int),
        SortKey::Mtime => spec_int_cmp(b.mtime as int, a.mtime as int),
        SortKey::Ctime => spec_int_cmp(b.ctime as int, a.ctime as int),
        SortKey::Atime => spec_int_cmp(b.atime as int, a.atime as int),
        SortKey::Unsorted => 0,
    }
}

/// Three-way comparison under one sort key: the non-name keys break ties
/// by display name descending, case-sensitive.
pub open spec fn spec_key_cmp(key: SortKey, a: FileEntry, b: FileEntry) -> int {
    match key {
        SortKey::Name => spec_key_primary(key, a, b),
        SortKey::Unsorted => 0,
        _ => if spec_key_primary(key, a, b) != 0 {
            spec_key_primary(key, a, b)
        } else {
            spec_bytes_cmp(name_bytes(b.display_name@), name_bytes(a.display_name@))
        },
    }
}

/// Full three-way comparison of two entries: when grouping is on,
/// directories come before files regardless of the key; the key
/// comparison (tie-break included) is inverted by `reverse`, the grouping
/// decision is not.
pub open spec fn spec_entry_cmp(
    key: SortKey,
    reverse: bool,
    group_dirs: bool,
    a: FileEntry,
    b: FileEntry,
) -> int {
    if group_dirs && a.spec_is_dir() && !b.spec_is_dir() {
        -1
    } else if group_dirs && !a.spec_is_dir() && b.spec_is_dir() {
        1
    } else if key is Unsorted {
        0
    } else if reverse {
        -spec_key_cmp(key, a, b)
    } else {
        spec_key_cmp(key, a, b)
    }
}

pub open spec fn spec_entry_le(
    key: SortKey,
    reverse: bool,
    group_dirs: bool,
    a: FileEntry,
    b: FileEntry,
) -> bool {
    spec_entry_cmp(key, reverse, group_dirs, a, b) <= 0
}

pub proof fn lemma_key_cmp_antisym(key: SortKey, a: FileEntry, b: FileEntry)
    ensures
        spec_key_cmp(key, a, b) == -spec_key_cmp(key, b, a),
{
    match key {
        SortKey::Name => {
            lemma_bytes_cmp_antisym(
                name_bytes(lower_of(a.display_name@)),
                name_bytes(lower_of(b.display_name@)),
            );
        },
        SortKey::Unsorted => {},
        _ => {
            lemma_bytes_cmp_antisym(
                name_bytes(b.display_name@),
                name_bytes(a.display_name@),
            );
        },
    }
}

pub proof fn lemma_key_cmp_trans(key: SortKey, a: FileEntry, b: FileEntry, c: FileEntry)
    requires
        spec_key_cmp(key, a, b) <= 0,
        spec_key_cmp(key, b, c) <= 0,
    ensures
        spec_key_cmp(key, a, c) <= 0,
{
    match key {
        SortKey::Name => {
            let la = name_bytes(lower_of(a.display_name@));
            let lb = name_bytes(lower_of(b.display_name@));
            let lc = name_bytes(lower_of(c.display_name@));
            if spec_bytes_cmp(la, lb) == 0 {
                lemma_bytes_cmp_zero_eq(la, lb);
            } else if spec_bytes_cmp(lb, lc) == 0 {
                lemma_bytes_cmp_zero_eq(lb, lc);
            } else {
                lemma_bytes_cmp_le_trans(la, lb, lc);
            }
        },
        SortKey::Unsorted => {},
        _ => {
            let na = name_bytes(a.display_name@);
            let nb = name_bytes(b.display_name@);
            let nc = name_bytes(c.display_name@);
            if spec_key_primary(key, a, b) == 0 && spec_key_primary(key, b, c) == 0 {
                if spec_bytes_cmp(nb, na) == 0 {
                    lemma_bytes_cmp_zero_eq(nb, na);
                } else if spec_bytes_cmp(nc, nb) == 0 {
                    lemma_bytes_cmp_zero_eq(nc, nb);
                } else {
                    lemma_bytes_cmp_le_trans(nc, nb, na);
                }
            }
        },
    }
}

/// The entry comparison is a total preorder: every two entries compare,
/// and the at-or-before relation is transitive.
pub proof fn lemma_entry_cmp_total(
    key: SortKey,
    reverse: bool,
    group_dirs: bool,
    a: FileEntry,
    b: FileEntry,
)
    ensures
        spec_entry_cmp(key, reverse, group_dirs, a, b) == -spec_entry_cmp(
            key,
            reverse,
            group_dirs,
            b,
            a,
        ),
        spec_entry_le(key, reverse, group_dirs, a, b) || spec_entry_le(
            key,
            reverse,
            group_dirs,
            b,
            a,
        ),
{
    lemma_key_cmp_antisym(key, a, b);
}

pub proof fn lemma_entry_le_trans(
    key: SortKey,
    reverse: bool,
    group_dirs: bool,
    a: FileEntry,
    b: FileEntry,
    c: FileEntry,
)
    requires
        spec_entry_le(key, reverse, group_dirs, a, b),
        spec_entry_le(key, reverse, group_dirs, b, c),
    ensures
        spec_entry_le(key, reverse, group_dirs, a, c),
{
    let ad = a.spec_is_dir();
    let bd = b.spec_is_dir();
    let cd = c.spec_is_dir();
    if group_dirs && ad && !cd {
        // a comes first by grouping alone
    } else if group_dirs && !ad && cd {
        if bd {
            assert(spec_entry_cmp(key, reverse, group_dirs, a, b) == 1);
        } else {
            assert(spec_entry_cmp(key, reverse, group_dirs, b, c) == 1);
        }
    } else {
        // a and c fall in the same partition; b must too
        if group_dirs && ad && !bd {
            assert(spec_entry_cmp(key, reverse, group_dirs, b, c) == 1);
        } else if group_dirs && !ad && bd {
            assert(spec_entry_cmp(key, reverse, group_dirs, a, b) == 1);
        } else {
            if key is Unsorted {
            } else if reverse {
                lemma_key_cmp_antisym(key, a, b);
                lemma_key_cmp_antisym(key, b, c);
                lemma_key_cmp_antisym(key, a, c);
                lemma_key_cmp_trans(key, c, b, a);
            } else {
                lemma_key_cmp_trans(key, a, b, c);
            }
        }
    }
}

fn entry_lt(key: SortKey, reverse: bool, group_dirs: bool, a: &FileEntry, b: &FileEntry) -> (r:
    bool)
    ensures
        r == (spec_entry_cmp(key, reverse, group_dirs, *a, *b) < 0),
{
    if group_dirs {
        let a_dir = a.is_dir();
        let b_dir = b.is_dir();
        if a_dir && !b_dir {
            return true;
        }
        if !a_dir && b_dir {
            return false;
        }
    }
    let c: i8 = match key {
        SortKey::Unsorted => 0,
        SortKey::Name => {
            let la = lowercase(&a.display_name);
            let lb = lowercase(&b.display_name);
            bytes_cmp(&la.as_str().as_bytes_vec(), &lb.as_str().as_bytes_vec())
        },
        SortKey::Size => {
            let p: i8 = if b.size < a.size {
                -1
            } else if b.size > a.size {
                1
            } else {
                0
            };
            if p != 0 {
                p
            } else {
                bytes_cmp(
                    &b.display_name.as_str().as_bytes_vec(),
                    &a.display_name.as_str().as_bytes_vec(),
                )
            }
        },
        SortKey::Mtime => {
            let p: i8 = if b.mtime < a.mtime {
                -1
            } else if b.mtime > a.mtime {
                1
            } else {
                0
            };
            if p != 0 {
                p
            } else {
                bytes_cmp(
                    &b.display_name.as_str().as_bytes_vec(),
                    &a.display_name.as_str().as_bytes_vec(),
                )
            }
        },
        SortKey::Ctime => {
            let p: i8 = if b.ctime < a.ctime {
                -1
            } else if b.ctime > a.ctime {
                1
            } else {
                0
            };
            if p != 0 {
                p
            } else {
                bytes_cmp(
                    &b.display_name.as_str().as_bytes_vec(),
                    &a.display_name.as_str().as_bytes_vec(),
                )
            }
        },
        SortKey::Atime => {
            let p: i8 = if b.atime < a.atime {
                -1
            } else if b.atime > a.atime {
                1
            } else {
                0
            };
            if p != 0 {
                p
            } else {
                bytes_cmp(
                    &b.display_name.as_str().as_bytes_vec(),
                    &a.display_name.as_str().as_bytes_vec(),
                )
            }
        },
    };
    if matches!(key, SortKey::Unsorted) {
        return false;
    }
    if reverse {
        c > 0
    } else {
        c < 0
    }
}

/// Every two entries stand in order.
pub open spec fn spec_sorted_entries(
    s: Seq<FileEntry>,
    key: SortKey,
    reverse: bool,
    group_dirs: bool,
) -> bool {
    forall|k: int, l: int|
        0 <= k < l < s.len() ==> spec_entry_le(key, reverse, group_dirs, s[k], s[l])
}

proof fn lemma_to_multiset_insert(s: Seq<FileEntry>, p: int, x: FileEntry)
    requires
        0 <= p <= s.len(),
    ensures
        s.insert(p, x).to_multiset() =~= s.to_multiset().insert(x),
{
    broadcast use vstd::seq_lib::group_to_multiset_ensures;

    let t = s.insert(p, x);
    assert(t.remove(p) =~= s);
    assert(t[p] == x);
    assert(t.remove(p).to_multiset() =~= t.to_multiset().remove(x));
    assert(t.contains(x)) by {
        assert(t[p] == x);
    }
    assert(t.to_multiset().count(x) > 0);
    assert forall|y: FileEntry| s.to_multiset().insert(x).count(y) == t.to_multiset().count(
        y,
    ) by {
        assert(s.to_multiset().count(y) == t.to_multiset().remove(x).count(y));
    }
}

/// `p` says where each output position came from: a bijection on the
/// positions under which the output is the input reordered, and entries
/// that compare equal keep their input order (stability).
pub open spec fn spec_stable_perm(
    p: Seq<int>,
    before: Seq<FileEntry>,
    after: Seq<FileEntry>,
    key: SortKey,
    reverse: bool,
    group_dirs: bool,
) -> bool {
    &&& p.len() == before.len()
    &&& after.len() == before.len()
    &&& (forall|k: int| 0 <= k < p.len() ==> 0 <= #[trigger] p[k] < before.len())
    &&& (forall|k: int, l: int| 0 <= k < l < p.len() ==> p[k] != p[l])
    &&& (forall|k: int| 0 <= k < p.len() ==> after[k] == before[#[trigger] p[k]])
    &&& (forall|k: int, l: int|
        0 <= k < l < p.len() && spec_entry_cmp(key, reverse, group_dirs, after[k], after[l]) == 0
            ==> p[k] < p[l])
}

/// Order the entries by the chosen key. Unsorted without grouping leaves
/// the list as it came; otherwise the result is a reordering of the input
/// (the same entries, as a multiset) that is sorted under the entry
/// comparison, and the reordering is stable: entries that compare equal
/// keep their input order.
pub fn sort_entries(entries: &mut Vec<FileEntry>, key: SortKey, reverse: bool, group_dirs: bool)
    ensures
        final(entries)@.to_multiset() == old(entries)@.to_multiset(),
        spec_sorted_entries(final(entries)@, key, reverse, group_dirs),
        (key is Unsorted && !group_dirs) ==> final(entries)@ == old(entries)@,
        exists|p: Seq<int>|
            spec_stable_perm(p, old(entries)@, final(entries)@, key, reverse, group_dirs),
{
    if matches!(key, SortKey::Unsorted) && !group_dirs {
        proof {
            assert forall|k: int, l: int|
                0 <= k < l < entries@.len() implies spec_entry_le(key, reverse, group_dirs,
            entries@[k], entries@[l]) by {}
            let idp = Seq::new(entries@.len(), |k: int| k);
            assert(spec_stable_perm(idp, entries@, entries@, key, reverse, group_dirs));
        }
        return ;
    }
    let ghost orig = entries@;
    let ghost mut perm: Seq<int> = Seq::new(orig.len(), |k: int| k);
    let mut i: usize = 1;
    while i < entries.len()
        invariant
            1 <= i,
            i <= entries@.len() || entries@.len() == 0,
            entries@.len() == orig.len(),
            entries@.to_multiset() == orig.to_multiset(),
            forall|k: int, l: int|
                0 <= k < l < i ==> spec_entry_le(key, reverse, group_dirs, entries@[k],
                entries@[l]),
            perm.len() == orig.len(),
            forall|k: int| 0 <= k < perm.len() ==> 0 <= #[trigger] perm[k] < orig.len(),
            forall|k: int, l: int| 0 <= k < l < perm.len() ==> perm[k] != perm[l],
            forall|k: int| 0 <= k < perm.len() ==> entries@[k] == orig[#[trigger] perm[k]],
            forall|k: int| i <= k < perm.len() ==> #[trigger] perm[k] == k,
            forall|k: int, l: int|
                0 <= k < l < i && spec_entry_cmp(key, reverse, group_dirs, entries@[k],
                entries@[l]) == 0 ==> perm[k] < perm[l],
        decreases entries@.len() - i,
    {
        let ghost s = entries@;
        let mut p: usize = i;
        while p > 0 && entry_lt(key, reverse, group_dirs, &entries[i], &entries[p - 1])
            invariant
                p <= i < s.len(),
                s == entries@,
                forall|k: int|
                    p <= k < i ==> spec_entry_cmp(key, reverse, group_dirs, s[i as int], s[k])
                        < 0,
            decreases p,
        {
            p -= 1;
        }
        let x = entries.remove(i);
        entries.insert(p, x);
        proof {
            broadcast use vstd::seq_lib::group_to_multiset_ensures;

            let t = s.remove(i as int).insert(p as int, s[i as int]);
            assert(entries@ == t);
            // the multiset is unchanged
            assert(s.remove(i as int).to_multiset() =~= s.to_multiset().remove(s[i as int]));
            lemma_to_multiset_insert(s.remove(i as int), p as int, s[i as int]);
            assert(s.contains(s[i as int]));
            assert(s.to_multiset().count(s[i as int]) > 0);
            assert(t.to_multiset() =~= s.to_multiset());
            // the sorted prefix grew by one
            assert forall|k: int, l: int|
                0 <= k < l < i + 1 implies spec_entry_le(key, reverse, group_dirs, t[k],
            t[l]) by {
                if l < p {
                    assert(t[k] == s[k] && t[l] == s[l]);
                } else if l == p {
                    // t[l] is the inserted element; the scan stopped at p,
                    // so everything before p is at or before it
                    assert(t[k] == s[k]);
                    lemma_entry_cmp_total(key, reverse, group_dirs, s[i as int], s[p - 1]);
                    if k < p - 1 {
                        lemma_entry_le_trans(key, reverse, group_dirs, s[k], s[p - 1],
                        s[i as int]);
                    }
                } else {
                    // t[l] came from s, possibly shifted one place
                    let sl = if l <= i { s[l - 1] } else { s[l] };
                    assert(t[l] == sl);
                    if k < p {
                        assert(t[k] == s[k]);
                        assert(spec_entry_le(key, reverse, group_dirs, s[k], sl));
                    } else if k == p {
                        assert(t[k] == s[i as int]);
                        assert(spec_entry_cmp(key, reverse, group_dirs, s[i as int], s[l - 1])
                            < 0);
                    } else {
                        assert(t[k] == s[k - 1]);
                        assert(spec_entry_le(key, reverse, group_dirs, s[k - 1], s[l - 1]));
                    }
                }
            }
            // the permutation witness moves with the entry
            let pold = perm;
            perm = pold.remove(i as int).insert(p as int, pold[i as int]);
            assert(pold[i as int] == i);
            // everything already placed came from before position i
            assert forall|k: int| 0 <= k < i implies pold[k] < i by {
                if pold[k] >= i {
                    assert(pold[pold[k]] == pold[k]);
                    assert(pold[k] != pold[pold[k]]);
                }
            }
            assert forall|k: int| 0 <= k < perm.len() implies entries@[k] == orig[
                #[trigger] perm[k]
            ] && 0 <= perm[k] < orig.len() by {
                if k < p {
                    assert(perm[k] == pold[k] && t[k] == s[k]);
                } else if k == p {
                    assert(perm[k] == i && t[k] == s[i as int]);
                } else if k <= i {
                    assert(perm[k] == pold[k - 1] && t[k] == s[k - 1]);
                } else {
                    assert(perm[k] == pold[k] && t[k] == s[k]);
                }
            }
            assert forall|k: int, l: int| 0 <= k < l < perm.len() implies perm[k] != perm[
                l
            ] by {
                let ko = if k == p {
                    i as int
                } else if k < p || k > i {
                    k
                } else {
                    k - 1
                };
                let lo = if l == p {
                    i as int
                } else if l < p || l > i {
                    l
                } else {
                    l - 1
                };
                assert(perm[k] == pold[ko] && perm[l] == pold[lo]);
                assert(ko != lo);
                if ko < lo {
                    assert(pold[ko] != pold[lo]);
                } else {
                    assert(pold[lo] != pold[ko]);
                }
            }
            assert forall|k: int| i + 1 <= k < perm.len() implies #[trigger] perm[k] == k by {
                assert(perm[k] == pold[k]);
            }
            assert forall|k: int, l: int|
                0 <= k < l < i + 1 && spec_entry_cmp(key, reverse, group_dirs, entries@[k],
            entries@[l]) == 0 implies perm[k] < perm[l] by {
                if l < p {
                    assert(perm[k] == pold[k] && perm[l] == pold[l]);
                    assert(t[k] == s[k] && t[l] == s[l]);
                } else if l == p {
                    // the inserted entry came from position i, later than
                    // everything already placed
                    assert(perm[k] == pold[k] && perm[l] == i);
                    assert(pold[k] < i);
                } else {
                    if k < p {
                        assert(perm[k] == pold[k] && perm[l] == pold[l - 1]);
                        assert(t[k] == s[k] && t[l] == s[l - 1]);
                        assert(k < l - 1);
                    } else if k == p {
                        // the scan placed the new entry strictly before
                        // these, so they cannot compare equal to it
                        assert(t[k] == s[i as int] && t[l] == s[l - 1]);
                        assert(spec_entry_cmp(key, reverse, group_dirs, s[i as int], s[l - 1])
                            < 0);
                    } else {
                        assert(perm[k] == pold[k - 1] && perm[l] == pold[l - 1]);
                        assert(t[k] == s[k - 1] && t[l] == s[l - 1]);
                    }
                }
            }
        }
        i += 1;
    }
    proof {
        if entries@.len() == 0 {
            assert(spec_sorted_entries(entries@, key, reverse, group_dirs));
        }
        assert(spec_stable_perm(perm, orig, entries@, key, reverse, group_dirs));
    }
}

} // verus!
