use vstd::prelude::*;
use vstd::string::StrSliceExecFns;

verus! {

/// Listing options, as the command line hands them over.
pub struct Args {
    pub all: bool,
    pub almost_all: bool,
    pub human: bool,
    pub si: bool,
    pub directory: bool,
    pub no_directory: bool,
    pub reverse: bool,
    pub sort_size: bool,
    pub sort_time: bool,
    pub sort_ctime: bool,
    pub sort_atime: bool,
    pub unsorted: bool,
    pub sort_word: Option<String>,
    pub no_vcs: bool,
    pub group_dirs: bool,
    pub help: bool,
    pub paths: Vec<String>,
}

impl Args {
    /// The only rejected combination: directories-only together with
    /// no-directories.
    pub fn validate(&self) -> (r: Result<(), String>)
        ensures
            (r is Err) == (self.directory && self.no_directory),
            r is Err ==> r->Err_0@
                == "-d/--directory and -n/--no-directory cannot be used together"@,
    {
        if self.directory && self.no_directory {
            Err(String::from_str("-d/--directory and -n/--no-directory cannot be used together"))
        } else {
            Ok(())
        }
    }
}

/// Whether a directory entry stays in the listing: a hidden name (one
/// starting with a dot) needs one of the all flags, directories-only
/// drops files, and no-directories drops directories.
pub open spec fn spec_keep_entry(name: Seq<char>, is_dir: bool, args: Args) -> bool {
    if name.len() > 0 && name[0] == '.' && !args.all && !args.almost_all {
        false
    } else if args.directory && !is_dir {
        false
    } else if args.no_directory && is_dir {
        false
    } else {
        true
    }
}

pub fn keep_entry(name: &String, is_dir: bool, args: &Args) -> (r: bool)
    ensures
        r == spec_keep_entry(name@, is_dir, *args),
{
    let hidden = if name.as_str().unicode_len() > 0 {
        name.as_str().get_char(0) == '.'
    } else {
        false
    };
    if hidden && !args.all && !args.almost_all {
        return false;
    }
    if args.directory && !is_dir {
        return false;
    }
    if args.no_directory && is_dir {
        return false;
    }
    true
}

/// One target path with whether it names a directory on disk.
pub open spec fn targets_items(paths: Seq<Seq<char>>, dir_flags: Seq<bool>) -> Seq<
    (Seq<char>, bool),
> {
    Seq::new(paths.len(), |i: int| (paths[i], dir_flags[i]))
}

/// Effect of one path argument on the (directories, file arguments)
/// split: a directory is appended to the directory list; anything else
/// becomes a file argument, and `.` is put in front of the directory list
/// once so the file arguments have a listing to live in.
pub open spec fn model_target_step(
    acc: (Seq<Seq<char>>, Seq<Seq<char>>),
    p: Seq<char>,
    is_dir: bool,
) -> (Seq<Seq<char>>, Seq<Seq<char>>) {
    if is_dir {
        (acc.0.push(p), acc.1)
    } else {
        let dirs = if acc.0.len() > 0 && acc.0[0] == "."@ {
            acc.0
        } else {
            seq!["."@] + acc.0
        };
        (dirs, acc.1.push(p))
    }
}

pub open spec fn model_target_fold(
    acc: (Seq<Seq<char>>, Seq<Seq<char>>),
    items: Seq<(Seq<char>, bool)>,
) -> (Seq<Seq<char>>, Seq<Seq<char>>)
    decreases items.len(),
{
    if items.len() == 0 {
        acc
    } else {
        model_target_step(model_target_fold(acc, items.drop_last()), items.last().0,
        items.last().1)
    }
}

/// The (directories, file arguments) split of the command line: no paths
/// means the current directory; with directories-only every path is a
/// file argument of the current directory; otherwise the paths fold as
/// `model_target_step` says.
pub open spec fn spec_resolve_targets(
    paths: Seq<Seq<char>>,
    dir_flags: Seq<bool>,
    directory: bool,
) -> (Seq<Seq<char>>, Seq<Seq<char>>) {
    if paths.len() == 0 {
        (seq!["."@], Seq::<Seq<char>>::empty())
    } else if !directory {
        let folded = model_target_fold(
            (Seq::<Seq<char>>::empty(), Seq::<Seq<char>>::empty()),
            targets_items(paths, dir_flags),
        );
        if folded.0.len() == 0 && folded.1.len() > 0 {
            (folded.0.push("."@), folded.1)
        } else {
            folded
        }
    } else {
        (seq!["."@], paths)
    }
}

/// Split the target paths into directories to list and explicit file
/// arguments. `dir_flags[i]` says whether `paths[i]` is a directory on
/// disk.
pub fn resolve_targets(paths: &Vec<String>, dir_flags: &Vec<bool>, directory: bool) -> (r: (
    Vec<String>,
    Vec<String>,
))
    requires
        paths@.len() == dir_flags@.len(),
    ensures
        (r.0.deep_view(), r.1.deep_view()) == spec_resolve_targets(
            paths.deep_view(),
            dir_flags@,
            directory,
        ),
{
    let ghost pv = paths.deep_view();
    let ghost items = targets_items(pv, dir_flags@);
    let mut dirs: Vec<String> = Vec::new();
    let mut file_args: Vec<String> = Vec::new();
    if paths.len() == 0 {
        dirs.push(String::from_str("."));
        proof {
            assert(dirs.deep_view() =~= seq!["."@]);
            assert(file_args.deep_view() =~= Seq::<Seq<char>>::empty());
        }
        return (dirs, file_args);
    }
    if directory {
        dirs.push(String::from_str("."));
        let mut i: usize = 0;
        while i < paths.len()
            invariant
                i <= paths@.len(),
                pv == paths.deep_view(),
                file_args.deep_view() =~= pv.take(i as int),
                dirs.deep_view() =~= seq!["."@],
            decreases paths.len() - i,
        {
            let ghost fa0 = file_args.deep_view();
            let ghost va0 = file_args@;
            let cloned_path = paths[i].clone();
            file_args.push(cloned_path);
            proof {
                assert(fa0.len() == i);
                let fv = file_args.deep_view();
                assert(fv[i as int] == file_args@[i as int]@);
                assert forall|j: int| 0 <= j < i implies fv[j] == pv[j] by {
                    assert(fv[j] == file_args@[j]@);
                    assert(file_args@[j] == va0[j]);
                    assert(fa0[j] == pv.take(i as int)[j]);
                }
                assert(fv =~= pv.take(i + 1));
            }
            i += 1;
        }
        proof {
            assert(pv.take(paths@.len() as int) =~= pv);
        }
        return (dirs, file_args);
    }
    let dot = String::from_str(".");
    proof {
        assert(items.take(0) =~= Seq::<(Seq<char>, bool)>::empty());
    }
    let mut i: usize = 0;
    while i < paths.len()
        invariant
            i <= paths@.len(),
            paths@.len() == dir_flags@.len(),
            pv == paths.deep_view(),
            items == targets_items(pv, dir_flags@),
            dot@ == "."@,
            (dirs.deep_view(), file_args.deep_view()) == model_target_fold(
                (Seq::<Seq<char>>::empty(), Seq::<Seq<char>>::empty()),
                items.take(i as int),
            ),
        decreases paths.len() - i,
    {
        let ghost acc = (dirs.deep_view(), file_args.deep_view());
        if dir_flags[i] {
            dirs.push(paths[i].clone());
            proof {
                assert(dirs.deep_view() =~= acc.0.push(pv[i as int]));
            }
        } else {
            let needs_dot = if dirs.len() == 0 {
                true
            } else {
                !dirs[0].eq(&dot)
            };
            if needs_dot {
                dirs.insert(0, String::from_str("."));
                proof {
                    assert(dirs.deep_view() =~= seq!["."@] + acc.0);
                }
            }
            file_args.push(paths[i].clone());
            proof {
                assert(file_args.deep_view() =~= acc.1.push(pv[i as int]));
            }
        }
        proof {
            assert(items.take(i + 1).drop_last() =~= items.take(i as int));
            assert(items.take(i + 1).last() == items[i as int]);
            assert((dirs.deep_view(), file_args.deep_view()) == model_target_step(acc,
            items[i as int].0, items[i as int].1));
        }
        i += 1;
    }
    proof {
        assert(items.take(paths@.len() as int) =~= items);
    }
    if dirs.len() == 0 && file_args.len() > 0 {
        dirs.push(String::from_str("."));
    }
    (dirs, file_args)
}

} // verus!

