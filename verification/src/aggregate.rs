use vstd::prelude::*;
use crate::status::{
    RawPathStatus, VcsStatus, classify, spec_classify, spec_status_priority, status_priority,
};
use crate::status_map::StatusMap;

verus! {

/// One path as the status source reports it: its components relative to
/// the repository working directory, plus its raw status flags.
pub struct ReportedPath {
    pub components: Vec<String>,
    pub flags: RawPathStatus,
}

/// The reported paths as (component sequence, flags) pairs.
pub open spec fn snapshot_view(s: Seq<ReportedPath>) -> Seq<(Seq<Seq<char>>, RawPathStatus)> {
    s.map_values(|r: ReportedPath| (r.components.deep_view(), r.flags))
}

/// `prefix` is a component-wise prefix of `path`.
pub open spec fn spec_starts_with(path: Seq<Seq<char>>, prefix: Seq<Seq<char>>) -> bool {
    prefix.len() <= path.len() && forall|i: int| 0 <= i < prefix.len() ==> path[i] == prefix[i]
}

fn starts_with(path: &Vec<String>, prefix: &Vec<String>) -> (r: bool)
    ensures
        r == spec_starts_with(path.deep_view(), prefix.deep_view()),
{
    if prefix.len() > path.len() {
        return false;
    }
    let mut i: usize = 0;
    while i < prefix.len()
        invariant
            i <= prefix.len() <= path.len(),
            forall|j: int| 0 <= j < i ==> path.deep_view()[j] == prefix.deep_view()[j],
        decreases prefix.len() - i,
    {
        if !path[i].eq(&prefix[i]) {
            assert(path.deep_view()[i as int] != prefix.deep_view()[i as int]);
            return false;
        }
        i += 1;
    }
    true
}

/// Directory-level equivalent of a file status found below the first
/// component: ignores stay ignored, untracked contents mark the directory
/// untracked, and any other change marks it changed.
pub open spec fn spec_remap_deep(s: VcsStatus) -> VcsStatus {
    match s {
        VcsStatus::Ignored => VcsStatus::Ignored,
        VcsStatus::Untracked => VcsStatus::DirUntracked,
        _ => VcsStatus::DirChanged,
    }
}

#[verifier::when_used_as_spec(spec_remap_deep)]
pub fn remap_deep(s: VcsStatus) -> (r: VcsStatus)
    ensures
        r == spec_remap_deep(s),
{
    match s {
        VcsStatus::Ignored => VcsStatus::Ignored,
        VcsStatus::Untracked => VcsStatus::DirUntracked,
        _ => VcsStatus::DirChanged,
    }
}

/// Directory-level remap of an aggregated winner: the untracked family
/// collapses to `DirUntracked`, the changed family to `DirChanged`, and
/// everything else passes through.
pub open spec fn spec_remap_aggregate(s: VcsStatus) -> VcsStatus {
    match s {
        VcsStatus::Untracked | VcsStatus::DirEmptyUntracked => VcsStatus::DirUntracked,
        VcsStatus::WorkTreeChanged | VcsStatus::BothChanged | VcsStatus::Staged => {
            VcsStatus::DirChanged
        },
        _ => s,
    }
}

#[verifier::when_used_as_spec(spec_remap_aggregate)]
pub fn remap_aggregate(s: VcsStatus) -> (r: VcsStatus)
    ensures
        r == spec_remap_aggregate(s),
{
    match s {
        VcsStatus::Untracked | VcsStatus::DirEmptyUntracked => VcsStatus::DirUntracked,
        VcsStatus::WorkTreeChanged | VcsStatus::BothChanged | VcsStatus::Staged => {
            VcsStatus::DirChanged
        },
        _ => s,
    }
}

/// Effect of one reported path on the name-to-status mapping (relative to
/// `prefix`, the listed directory): paths outside the prefix and the
/// prefix itself are discarded; a depth-one path records its classified
/// status directly; a deeper path records its directory-level remap under
/// its first component, but only when that outranks the recorded status.
pub open spec fn model_record(
    m: Map<Seq<char>, VcsStatus>,
    path: Seq<Seq<char>>,
    flags: RawPathStatus,
    prefix: Seq<Seq<char>>,
) -> Map<Seq<char>, VcsStatus> {
    if !spec_starts_with(path, prefix) || path.len() == prefix.len() {
        m
    } else {
        let name = path[prefix.len() as int];
        let st = spec_classify(flags);
        if path.len() - prefix.len() > 1 {
            let dir_st = spec_remap_deep(st);
            if !m.dom().contains(name) || spec_status_priority(dir_st) > spec_status_priority(
                m[name],
            ) {
                m.insert(name, dir_st)
            } else {
                m
            }
        } else {
            m.insert(name, st)
        }
    }
}

/// Fold of `model_record` over a whole snapshot, in snapshot order.
pub open spec fn model_apply_snapshot(
    m: Map<Seq<char>, VcsStatus>,
    snapshot: Seq<(Seq<Seq<char>>, RawPathStatus)>,
    prefix: Seq<Seq<char>>,
) -> Map<Seq<char>, VcsStatus>
    decreases snapshot.len(),
{
    if snapshot.len() == 0 {
        m
    } else {
        model_record(
            model_apply_snapshot(m, snapshot.drop_last(), prefix),
            snapshot.last().0,
            snapshot.last().1,
            prefix,
        )
    }
}

impl StatusMap {
    /// Name-to-status mapping the entries denote.
    pub open spec fn map_view(&self) -> Map<Seq<char>, VcsStatus> {
        Map::new(
            |n: Seq<char>| self.spec_get(n) is Some,
            |n: Seq<char>| self.spec_get(n)->Some_0,
        )
    }
}

/// Build the initial status map from the status-source snapshot: every
/// reported path is reduced to its first component under `root_prefix`
/// (the listed directory, relative to the repository working directory),
/// as `model_record` describes, in snapshot order.
pub fn build_initial_map(snapshot: &Vec<ReportedPath>, root_prefix: &Vec<String>) -> (r: StatusMap)
    ensures
        r.wf(),
        r.map_view() == model_apply_snapshot(
            Map::<Seq<char>, VcsStatus>::empty(),
            snapshot_view(snapshot@),
            root_prefix.deep_view(),
        ),
{
    let ghost prefix = root_prefix.deep_view();
    let ghost svw = snapshot_view(snapshot@);
    let mut map = StatusMap::new();
    proof {
        assert(map.map_view() =~= Map::<Seq<char>, VcsStatus>::empty());
        assert(svw.take(0) =~= Seq::<(Seq<Seq<char>>, RawPathStatus)>::empty());
    }
    let mut i: usize = 0;
    while i < snapshot.len()
        invariant
            i <= snapshot.len(),
            map.wf(),
            svw == snapshot_view(snapshot@),
            prefix == root_prefix.deep_view(),
            map.map_view() == model_apply_snapshot(
                Map::<Seq<char>, VcsStatus>::empty(),
                svw.take(i as int),
                prefix,
            ),
        decreases snapshot.len() - i,
    {
        let ghost m0 = map.map_view();
        let rp = &snapshot[i];
        assert(svw[i as int].0 == rp.components.deep_view());
        assert(svw[i as int].1 == rp.flags);
        if starts_with(&rp.components, root_prefix) && rp.components.len() > root_prefix.len() {
            let name = rp.components[root_prefix.len()].clone();
            assert(name@ == rp.components.deep_view()[root_prefix.len() as int]);
            let st = classify(&rp.flags);
            if rp.components.len() - root_prefix.len() > 1 {
                map.upgrade_if_outranks(name, remap_deep(st));
            } else {
                map.set(name, st);
            }
            proof {
                assert(map.map_view() =~= model_record(m0, svw[i as int].0, svw[i as int].1,
                prefix));
            }
        } else {
            proof {
                assert(map.map_view() =~= model_record(m0, svw[i as int].0, svw[i as int].1,
                prefix));
            }
        }
        proof {
            assert(svw.take(i + 1).drop_last() =~= svw.take(i as int));
            assert(svw.take(i + 1).last() == svw[i as int]);
        }
        i += 1;
    }
    proof {
        assert(svw.take(snapshot@.len() as int) =~= svw);
    }
    map
}

/// Recording a deep path never lowers the rank already held by its first
/// component: an `Ignored` ancestor can rise to `DirChanged`, never the
/// reverse.
pub proof fn lemma_deep_record_monotone(
    m: Map<Seq<char>, VcsStatus>,
    path: Seq<Seq<char>>,
    flags: RawPathStatus,
    prefix: Seq<Seq<char>>,
    n: Seq<char>,
)
    requires
        spec_starts_with(path, prefix),
        path.len() > prefix.len() + 1,
        m.dom().contains(n),
    ensures
        model_record(m, path, flags, prefix).dom().contains(n),
        spec_status_priority(model_record(m, path, flags, prefix)[n]) >= spec_status_priority(
            m[n],
        ),
{
}

/// A reported path lies strictly under `prefix` with `name` as its first
/// component.
pub open spec fn spec_under_name(
    path: Seq<Seq<char>>,
    prefix: Seq<Seq<char>>,
    name: Seq<char>,
) -> bool {
    spec_starts_with(path, prefix) && path.len() > prefix.len() && path[prefix.len() as int]
        == name
}

/// A first component all of whose reported paths are deep and ignored
/// resolves to `Ignored`: recording any number of such paths, in any
/// order, gives the name `Ignored` when at least one is reported, and
/// leaves it absent otherwise.
pub proof fn lemma_all_ignored_deep_paths(
    m: Map<Seq<char>, VcsStatus>,
    snapshot: Seq<(Seq<Seq<char>>, RawPathStatus)>,
    prefix: Seq<Seq<char>>,
    name: Seq<char>,
)
    requires
        !m.dom().contains(name),
        forall|i: int|
            0 <= i < snapshot.len() && spec_under_name(#[trigger] snapshot[i].0, prefix, name)
                ==> snapshot[i].0.len() > prefix.len() + 1 && spec_classify(snapshot[i].1)
                == VcsStatus::Ignored,
    ensures
        model_apply_snapshot(m, snapshot, prefix).dom().contains(name) <==> exists|i: int|
            0 <= i < snapshot.len() && spec_under_name(#[trigger] snapshot[i].0, prefix, name),
        model_apply_snapshot(m, snapshot, prefix).dom().contains(name)
            ==> model_apply_snapshot(m, snapshot, prefix)[name] == VcsStatus::Ignored,
    decreases snapshot.len(),
{
    if snapshot.len() > 0 {
        let shorter = snapshot.drop_last();
        assert forall|i: int|
            0 <= i < shorter.len() && spec_under_name(
                #[trigger] shorter[i].0,
                prefix,
                name,
            ) implies shorter[i].0.len() > prefix.len() + 1 && spec_classify(shorter[i].1)
            == VcsStatus::Ignored by {
            assert(shorter[i] == snapshot[i]);
        }
        lemma_all_ignored_deep_paths(m, shorter, prefix, name);
        let m1 = model_apply_snapshot(m, shorter, prefix);
        let last = snapshot.last();
        assert(snapshot[snapshot.len() - 1] == last);
        if spec_under_name(last.0, prefix, name) {
            assert(last.0.len() > prefix.len() + 1 && spec_classify(last.1)
                == VcsStatus::Ignored);
            assert(spec_remap_deep(spec_classify(last.1)) == VcsStatus::Ignored);
        } else {
            if exists|i: int|
                0 <= i < snapshot.len() && spec_under_name(
                    #[trigger] snapshot[i].0,
                    prefix,
                    name,
                ) {
                let w = choose|i: int|
                    0 <= i < snapshot.len() && spec_under_name(
                        #[trigger] snapshot[i].0,
                        prefix,
                        name,
                    );
                assert(w < snapshot.len() - 1);
                assert(shorter[w] == snapshot[w]);
                assert(spec_under_name(shorter[w].0, prefix, name));
            }
            if exists|i: int|
                0 <= i < shorter.len() && spec_under_name(#[trigger] shorter[i].0, prefix, name) {
                let w = choose|i: int|
                    0 <= i < shorter.len() && spec_under_name(
                        #[trigger] shorter[i].0,
                        prefix,
                        name,
                    );
                assert(shorter[w] == snapshot[w]);
                assert(spec_under_name(snapshot[w].0, prefix, name));
            }
        }
    }
}

/// The clean backfill never lowers a recorded rank: a name upgrades from
/// `Ignored` to `Clean` or to `DirChanged`, and from `Clean` to
/// `DirChanged`, never downward. `ig` holding only names recorded as
/// `Ignored` is how the backfill is entered.
pub proof fn lemma_backfill_monotone(
    m: Map<Seq<char>, VcsStatus>,
    ig: Set<Seq<char>>,
    items: Seq<(Seq<Seq<char>>, bool, Option<RawPathStatus>)>,
    prefix: Seq<Seq<char>>,
    n: Seq<char>,
)
    requires
        m.dom().contains(n),
        ig.contains(n) ==> m[n] == VcsStatus::Ignored,
    ensures
        model_backfill(m, ig, items, prefix).dom().contains(n),
        spec_status_priority(model_backfill(m, ig, items, prefix)[n]) >= spec_status_priority(
            m[n],
        ),
        ig.contains(n) ==> (model_backfill(m, ig, items, prefix)[n] == VcsStatus::Ignored
            || model_backfill(m, ig, items, prefix)[n] == VcsStatus::Clean
            || model_backfill(m, ig, items, prefix)[n] == VcsStatus::DirChanged),
    decreases items.len(),
{
    if items.len() > 0 {
        lemma_backfill_monotone(m, ig, items.drop_last(), prefix, n);
    }
}

/// The clean backfill never touches a name none of the tracked paths
/// starts with: its entry, or its absence, stays exactly as it was.
pub proof fn lemma_backfill_frame(
    m: Map<Seq<char>, VcsStatus>,
    ig: Set<Seq<char>>,
    items: Seq<(Seq<Seq<char>>, bool, Option<RawPathStatus>)>,
    prefix: Seq<Seq<char>>,
    name: Seq<char>,
)
    requires
        forall|i: int|
            0 <= i < items.len() ==> !spec_under_name(#[trigger] items[i].0, prefix, name),
    ensures
        model_backfill(m, ig, items, prefix).dom().contains(name) == m.dom().contains(name),
        m.dom().contains(name) ==> model_backfill(m, ig, items, prefix)[name] == m[name],
    decreases items.len(),
{
    if items.len() > 0 {
        let shorter = items.drop_last();
        assert forall|i: int|
            0 <= i < shorter.len() implies !spec_under_name(
            #[trigger] shorter[i].0,
            prefix,
            name,
        ) by {
            assert(shorter[i] == items[i]);
        }
        lemma_backfill_frame(m, ig, shorter, prefix, name);
        assert(items[items.len() - 1] == items.last());
        assert(!spec_under_name(items.last().0, prefix, name));
    }
}

/// Ignored-root propagation never overwrites: a name already recorded
/// keeps its status.
pub proof fn lemma_mark_ignored_preserves(
    m: Map<Seq<char>, VcsStatus>,
    names: Seq<Seq<char>>,
    n: Seq<char>,
)
    requires
        m.dom().contains(n),
    ensures
        model_mark_ignored(m, names).dom().contains(n),
        model_mark_ignored(m, names)[n] == m[n],
    decreases names.len(),
{
    if names.len() > 0 {
        lemma_mark_ignored_preserves(m, names.drop_last(), n);
    }
}

/// Empty-directory detection never overwrites: a name already recorded
/// keeps its status.
pub proof fn lemma_mark_empty_preserves(
    m: Map<Seq<char>, VcsStatus>,
    dirs: Seq<(Seq<char>, bool)>,
    n: Seq<char>,
)
    requires
        m.dom().contains(n),
    ensures
        model_mark_empty(m, dirs).dom().contains(n),
        model_mark_empty(m, dirs)[n] == m[n],
    decreases dirs.len(),
{
    if dirs.len() > 0 {
        lemma_mark_empty_preserves(m, dirs.drop_last(), n);
    }
}

/// One step of the aggregate scan: skip the synthetic entries, otherwise
/// keep whichever of the current best and the entry ranks strictly higher
/// (the earlier one on a tie).
pub open spec fn spec_best_step(
    acc: Option<VcsStatus>,
    e: (Seq<char>, VcsStatus),
) -> Option<VcsStatus> {
    if e.0 == "."@ || e.0 == ".."@ {
        acc
    } else {
        match acc {
            Option::None => Option::Some(e.1),
            Option::Some(b) => if spec_status_priority(e.1) > spec_status_priority(b) {
                Option::Some(e.1)
            } else {
                Option::Some(b)
            },
        }
    }
}

pub open spec fn spec_fold_best(
    acc: Option<VcsStatus>,
    s: Seq<(Seq<char>, VcsStatus)>,
) -> Option<VcsStatus>
    decreases s.len(),
{
    if s.len() == 0 {
        acc
    } else {
        spec_fold_best(spec_best_step(acc, s[0]), s.drop_first())
    }
}

/// Aggregate status over all recorded entries other than `.` and `..`:
/// the highest-ranked status (first seen on a tie), remapped to its
/// directory-level equivalent; `Clean` when there is nothing to scan.
pub open spec fn spec_aggregate_entries(s: Seq<(Seq<char>, VcsStatus)>) -> VcsStatus {
    match spec_fold_best(Option::None, s) {
        Option::None => VcsStatus::Clean,
        Option::Some(b) => spec_remap_aggregate(b),
    }
}

/// The aggregate scan really picks a maximum: starting from any
/// accumulator (`Option::None` for a whole map), the winner is at or
/// above the rank of every entry other than `.` and `..`, and unless it
/// is the accumulator handed in, it is one of those entries' statuses.
pub proof fn lemma_fold_best_is_max(acc: Option<VcsStatus>, s: Seq<(Seq<char>, VcsStatus)>)
    ensures
        spec_fold_best(acc, s) is None ==> acc is None,
        acc is Some ==> spec_fold_best(acc, s) is Some && spec_status_priority(
            spec_fold_best(acc, s)->Some_0,
        ) >= spec_status_priority(acc->Some_0),
        forall|i: int|
            0 <= i < s.len() && s[i].0 != "."@ && s[i].0 != ".."@ ==> spec_fold_best(acc, s)
                is Some && spec_status_priority(#[trigger] s[i].1) <= spec_status_priority(
                spec_fold_best(acc, s)->Some_0,
            ),
        spec_fold_best(acc, s) is Some ==> (acc is Some && spec_fold_best(acc, s)->Some_0
            == acc->Some_0) || exists|i: int|
            0 <= i < s.len() && s[i].0 != "."@ && s[i].0 != ".."@ && (#[trigger] s[i].1)
                == spec_fold_best(acc, s)->Some_0,
    decreases s.len(),
{
    if s.len() > 0 {
        let acc1 = spec_best_step(acc, s[0]);
        lemma_fold_best_is_max(acc1, s.drop_first());
        assert(spec_fold_best(acc, s) == spec_fold_best(acc1, s.drop_first()));
        assert forall|i: int|
            0 <= i < s.len() && s[i].0 != "."@ && s[i].0 != ".."@ implies spec_fold_best(acc, s)
            is Some && spec_status_priority(#[trigger] s[i].1) <= spec_status_priority(
            spec_fold_best(acc, s)->Some_0,
        ) by {
            if i == 0 {
                assert(acc1 is Some);
                assert(spec_status_priority(s[0].1) <= spec_status_priority(acc1->Some_0));
            } else {
                assert(s.drop_first()[i - 1] == s[i]);
                assert(s.drop_first()[i - 1].0 == s[i].0);
                assert(s.drop_first()[i - 1].1 == s[i].1);
                assert(spec_status_priority(s.drop_first()[i - 1].1) <= spec_status_priority(
                    spec_fold_best(acc1, s.drop_first())->Some_0,
                ));
            }
        }
        if spec_fold_best(acc, s) is Some {
            let b = spec_fold_best(acc, s)->Some_0;
            if !(acc is Some && b == acc->Some_0) {
                if acc1 is Some && b == acc1->Some_0 && !(acc is Some && acc1->Some_0
                    == acc->Some_0) {
                    // the winner entered at the head entry
                    assert(s[0].0 != "."@ && s[0].0 != ".."@ && s[0].1 == b);
                } else {
                    // the winner entered somewhere in the tail
                    let j = choose|j: int|
                        0 <= j < s.drop_first().len() && s.drop_first()[j].0 != "."@
                            && s.drop_first()[j].0 != ".."@ && s.drop_first()[j].1 == b;
                    assert(s[j + 1].1 == b && s[j + 1].0 != "."@ && s[j + 1].0 != ".."@);
                }
            }
        }
    }
}

pub fn aggregate_entries_status(map: &StatusMap) -> (r: VcsStatus)
    ensures
        r == spec_aggregate_entries(map.entries_seq()),
{
    let dot = String::from_str(".");
    let dotdot = String::from_str("..");
    let ghost s = map.entries_seq();
    let mut best: Option<VcsStatus> = None;
    let mut i: usize = 0;
    proof {
        assert(s.skip(0) =~= s);
    }
    while i < map.len()
        invariant
            i <= s.len(),
            s == map.entries_seq(),
            dot@ == "."@,
            dotdot@ == ".."@,
            spec_fold_best(best, s.skip(i as int)) == spec_fold_best(Option::None, s),
        decreases s.len() - i,
    {
        let name = map.name_at(i);
        let st = map.status_at(i);
        assert(s.skip(i as int)[0] == s[i as int]);
        assert(s.skip(i as int).drop_first() =~= s.skip(i as int + 1));
        if !name.eq(&dot) && !name.eq(&dotdot) {
            best = match best {
                None => Some(st),
                Some(b) => {
                    if status_priority(&st) > status_priority(&b) {
                        Some(st)
                    } else {
                        Some(b)
                    }
                },
            };
        }
        i += 1;
    }
    assert(s.skip(s.len() as int) =~= Seq::<(Seq<char>, VcsStatus)>::empty());
    match best {
        Some(b) => remap_aggregate(b),
        None => VcsStatus::Clean,
    }
}

/// One entry of the repository's last committed tree: its components
/// relative to the working directory, and whether it is a file (blob).
pub struct TrackedPath {
    pub components: Vec<String>,
    pub is_blob: bool,
}

/// The tree_paths entries paired with the single-file query results the
/// caller obtained for them.
pub open spec fn backfill_items(
    tree_paths: Seq<TrackedPath>,
    statuses: Seq<Option<RawPathStatus>>,
) -> Seq<(Seq<Seq<char>>, bool, Option<RawPathStatus>)> {
    Seq::new(tree_paths.len(), |i: int| (tree_paths[i].components.deep_view(), tree_paths[i].is_blob,
    statuses[i]))
}

/// Names recorded as `Ignored` in a mapping.
pub open spec fn spec_ignored_names(m: Map<Seq<char>, VcsStatus>) -> Set<Seq<char>> {
    Set::new(|n: Seq<char>| m.dom().contains(n) && m[n] == VcsStatus::Ignored)
}

/// Effect of one tree_paths path on the mapping during the clean backfill.
/// `ig` is the set of names recorded as `Ignored` when the backfill began.
/// A tree_paths file below a nominally ignored first component upgrades it to
/// `Clean` (only from `Ignored`) or to `DirChanged` when its own fresh
/// status shows a change; any other tree_paths path marks an absent first
/// component `Clean`.
pub open spec fn model_backfill_step(
    m: Map<Seq<char>, VcsStatus>,
    ig: Set<Seq<char>>,
    path: Seq<Seq<char>>,
    is_blob: bool,
    q: Option<RawPathStatus>,
    prefix: Seq<Seq<char>>,
) -> Map<Seq<char>, VcsStatus> {
    if !spec_starts_with(path, prefix) || path.len() == prefix.len() {
        m
    } else {
        let name = path[prefix.len() as int];
        if ig.contains(name) {
            if is_blob && q is Some {
                let st = spec_classify(q->Some_0);
                if st == VcsStatus::Clean {
                    if m.dom().contains(name) && m[name] == VcsStatus::Ignored {
                        m.insert(name, VcsStatus::Clean)
                    } else {
                        m
                    }
                } else if st == VcsStatus::Ignored || st == VcsStatus::Untracked {
                    m
                } else {
                    m.insert(name, VcsStatus::DirChanged)
                }
            } else {
                m
            }
        } else {
            if m.dom().contains(name) {
                m
            } else {
                m.insert(name, VcsStatus::Clean)
            }
        }
    }
}

/// Fold of `model_backfill_step` over the tree_paths entries, in tree order.
pub open spec fn model_backfill(
    m: Map<Seq<char>, VcsStatus>,
    ig: Set<Seq<char>>,
    items: Seq<(Seq<Seq<char>>, bool, Option<RawPathStatus>)>,
    prefix: Seq<Seq<char>>,
) -> Map<Seq<char>, VcsStatus>
    decreases items.len(),
{
    if items.len() == 0 {
        m
    } else {
        model_backfill_step(
            model_backfill(m, ig, items.drop_last(), prefix),
            ig,
            items.last().0,
            items.last().1,
            items.last().2,
            prefix,
        )
    }
}

/// The clean backfill never downgrades: a first component recorded as
/// `DirChanged` before the backfill is still `DirChanged` after it.
pub proof fn lemma_backfill_never_downgrades(
    m: Map<Seq<char>, VcsStatus>,
    ig: Set<Seq<char>>,
    items: Seq<(Seq<Seq<char>>, bool, Option<RawPathStatus>)>,
    prefix: Seq<Seq<char>>,
    n: Seq<char>,
)
    requires
        m.dom().contains(n),
        m[n] == VcsStatus::DirChanged,
    ensures
        model_backfill(m, ig, items, prefix).dom().contains(n),
        model_backfill(m, ig, items, prefix)[n] == VcsStatus::DirChanged,
    decreases items.len(),
{
    if items.len() > 0 {
        lemma_backfill_never_downgrades(m, ig, items.drop_last(), prefix, n);
    }
}

fn contains_string(v: &Vec<String>, name: &String) -> (r: bool)
    ensures
        r == v.deep_view().contains(name@),
{
    let mut i: usize = 0;
    while i < v.len()
        invariant
            i <= v.len(),
            forall|j: int| 0 <= j < i ==> v.deep_view()[j] != name@,
        decreases v.len() - i,
    {
        if v[i].eq(name) {
            assert(v.deep_view()[i as int] == name@);
            return true;
        }
        i += 1;
    }
    false
}

/// Which tree_paths entries call for a fresh single-file status query: files
/// of the committed tree whose first component is currently recorded as
/// `Ignored`.
pub open spec fn spec_needs_query(
    m: Map<Seq<char>, VcsStatus>,
    path: Seq<Seq<char>>,
    is_blob: bool,
    prefix: Seq<Seq<char>>,
) -> bool {
    spec_starts_with(path, prefix) && path.len() > prefix.len() && is_blob
        && spec_ignored_names(m).contains(path[prefix.len() as int])
}

pub fn backfill_plan(map: &StatusMap, tree_paths: &Vec<TrackedPath>, root_prefix: &Vec<String>) -> (r:
    Vec<bool>)
    requires
        map.wf(),
    ensures
        r@.len() == tree_paths@.len(),
        forall|i: int|
            0 <= i < tree_paths@.len() ==> r@[i] == spec_needs_query(
                map.map_view(),
                tree_paths@[i].components.deep_view(),
                tree_paths@[i].is_blob,
                root_prefix.deep_view(),
            ),
{
    let ghost mv = map.map_view();
    let mut r: Vec<bool> = Vec::new();
    let mut i: usize = 0;
    while i < tree_paths.len()
        invariant
            i <= tree_paths@.len(),
            r@.len() == i,
            map.wf(),
            mv == map.map_view(),
            forall|j: int|
                0 <= j < i ==> r@[j] == spec_needs_query(
                    mv,
                    tree_paths@[j].components.deep_view(),
                    tree_paths@[j].is_blob,
                    root_prefix.deep_view(),
                ),
        decreases tree_paths.len() - i,
    {
        let t = &tree_paths[i];
        let mut needs = false;
        if t.is_blob && starts_with(&t.components, root_prefix) && t.components.len()
            > root_prefix.len() {
            let name = &t.components[root_prefix.len()];
            match map.get(name) {
                Some(VcsStatus::Ignored) => {
                    needs = true;
                },
                _ => {},
            }
            assert(name@ == t.components.deep_view()[root_prefix.deep_view().len() as int]);
        }
        r.push(needs);
        i += 1;
    }
    r
}

/// Collect the names currently recorded as `Ignored`.
fn ignored_name_list(map: &StatusMap) -> (r: Vec<String>)
    requires
        map.wf(),
    ensures
        forall|n: Seq<char>| r.deep_view().contains(n) == spec_ignored_names(
            map.map_view(),
        ).contains(n),
{
    let ghost s = map.entries_seq();
    let mut r: Vec<String> = Vec::new();
    let mut i: usize = 0;
    while i < map.len()
        invariant
            i <= s.len(),
            s == map.entries_seq(),
            map.wf(),
            forall|k: int|
                0 <= k < r.deep_view().len() ==> crate::status_map::seq_get(s, r.deep_view()[k])
                    == Option::Some(VcsStatus::Ignored),
            forall|j: int|
                0 <= j < i && s[j].1 == VcsStatus::Ignored ==> r.deep_view().contains(s[j].0),
        decreases s.len() - i,
    {
        let st = map.status_at(i);
        let is_ignored = match st {
            VcsStatus::Ignored => true,
            _ => false,
        };
        if is_ignored {
            let ghost r0 = r.deep_view();
            r.push(map.name_at(i).clone());
            proof {
                assert forall|l: int| 0 <= l < i as int implies s[l].0 != s[i as int].0 by {}
                crate::status_map::lemma_seq_get_index(s, s[i as int].0, i as int);
                assert(r.deep_view() =~= r0.push(s[i as int].0));
                assert(r.deep_view()[r0.len() as int] == s[i as int].0);
                assert forall|j: int|
                    0 <= j < i + 1 && s[j].1 == VcsStatus::Ignored implies r.deep_view().contains(
                    s[j].0) by {
                    if j < i {
                        let k = choose|k: int| 0 <= k < r0.len() && r0[k] == s[j].0;
                        assert(r.deep_view()[k] == s[j].0);
                    }
                }
            }
        }
        i += 1;
    }
    proof {
        assert forall|n: Seq<char>| r.deep_view().contains(n) == spec_ignored_names(
            map.map_view(),
        ).contains(n) by {
            if r.deep_view().contains(n) {
                let k = choose|k: int| 0 <= k < r.deep_view().len() && r.deep_view()[k] == n;
                assert(crate::status_map::seq_get(s, n) == Option::Some(VcsStatus::Ignored));
            }
            if spec_ignored_names(map.map_view()).contains(n) {
                crate::status_map::lemma_seq_get_some_index(s, n);
                let j = choose|j: int|
                    0 <= j < s.len() && s[j].0 == n && s[j].1 == crate::status_map::seq_get(
                        s,
                        n,
                    )->Some_0;
                assert(r.deep_view().contains(s[j].0));
            }
        }
    }
    r
}

/// Clean backfill over the committed tree (the tree_paths paths, in tree
/// order): `statuses[i]` is the fresh single-file status obtained for
/// `tree_paths[i]` where `backfill_plan` asked for one (`None` when it was
/// not queried or the query failed, which contributes nothing).
pub fn apply_backfill(
    map: &mut StatusMap,
    tree_paths: &Vec<TrackedPath>,
    statuses: &Vec<Option<RawPathStatus>>,
    root_prefix: &Vec<String>,
)
    requires
        old(map).wf(),
        statuses@.len() == tree_paths@.len(),
    ensures
        final(map).wf(),
        final(map).map_view() == model_backfill(
            old(map).map_view(),
            spec_ignored_names(old(map).map_view()),
            backfill_items(tree_paths@, statuses@),
            root_prefix.deep_view(),
        ),
        forall|n: Seq<char>|
            old(map).spec_get(n) == Option::Some(VcsStatus::DirChanged) ==> final(map).spec_get(n)
                == Option::Some(VcsStatus::DirChanged),
{
    let ghost m0 = map.map_view();
    let ghost ig = spec_ignored_names(m0);
    let ghost items = backfill_items(tree_paths@, statuses@);
    let ghost prefix = root_prefix.deep_view();
    let ignored_names = ignored_name_list(map);
    proof {
        assert(items.take(0) =~= Seq::<(Seq<Seq<char>>, bool, Option<RawPathStatus>)>::empty());
    }
    let mut i: usize = 0;
    while i < tree_paths.len()
        invariant
            i <= tree_paths@.len(),
            statuses@.len() == tree_paths@.len(),
            map.wf(),
            items == backfill_items(tree_paths@, statuses@),
            prefix == root_prefix.deep_view(),
            forall|n: Seq<char>| ignored_names.deep_view().contains(n) == ig.contains(n),
            map.map_view() == model_backfill(m0, ig, items.take(i as int), prefix),
        decreases tree_paths.len() - i,
    {
        let ghost mcur = map.map_view();
        let t = &tree_paths[i];
        assert(items[i as int].0 == t.components.deep_view());
        if starts_with(&t.components, root_prefix) && t.components.len() > root_prefix.len() {
            let name = t.components[root_prefix.len()].clone();
            assert(name@ == t.components.deep_view()[prefix.len() as int]);
            if contains_string(&ignored_names, &name) {
                if t.is_blob {
                    match statuses[i] {
                        Some(f) => {
                            let st = classify(&f);
                            match st {
                                VcsStatus::Clean => {
                                    let cur = map.get(&name);
                                    match cur {
                                        Some(VcsStatus::Ignored) => {
                                            map.set(name, VcsStatus::Clean);
                                        },
                                        _ => {},
                                    }
                                },
                                VcsStatus::Ignored | VcsStatus::Untracked => {},
                                _ => {
                                    map.set(name, VcsStatus::DirChanged);
                                },
                            }
                        },
                        None => {},
                    }
                }
            } else {
                map.or_insert(name, VcsStatus::Clean);
            }
        }
        proof {
            assert(map.map_view() =~= model_backfill_step(mcur, ig, items[i as int].0,
            items[i as int].1, items[i as int].2, prefix));
            assert(items.take(i + 1).drop_last() =~= items.take(i as int));
            assert(items.take(i + 1).last() == items[i as int]);
        }
        i += 1;
    }
    proof {
        assert(items.take(tree_paths@.len() as int) =~= items);
        assert forall|n: Seq<char>|
            old(map).spec_get(n) == Option::Some(VcsStatus::DirChanged) implies map.spec_get(n)
            == Option::Some(VcsStatus::DirChanged) by {
            lemma_backfill_never_downgrades(m0, ig, items, prefix, n);
        }
    }
}

/// Names inserted as `Ignored` when the listed directory is itself
/// ignored: every direct child not yet recorded becomes `Ignored`.
pub open spec fn model_mark_ignored(
    m: Map<Seq<char>, VcsStatus>,
    names: Seq<Seq<char>>,
) -> Map<Seq<char>, VcsStatus>
    decreases names.len(),
{
    if names.len() == 0 {
        m
    } else {
        let m1 = model_mark_ignored(m, names.drop_last());
        if m1.dom().contains(names.last()) {
            m1
        } else {
            m1.insert(names.last(), VcsStatus::Ignored)
        }
    }
}

pub fn mark_ignored_children(map: &mut StatusMap, child_names: &Vec<String>)
    requires
        old(map).wf(),
    ensures
        final(map).wf(),
        final(map).map_view() == model_mark_ignored(old(map).map_view(), child_names.deep_view()),
{
    let ghost m0 = map.map_view();
    let ghost names = child_names.deep_view();
    proof {
        assert(names.take(0) =~= Seq::<Seq<char>>::empty());
    }
    let mut i: usize = 0;
    while i < child_names.len()
        invariant
            i <= child_names@.len(),
            map.wf(),
            names == child_names.deep_view(),
            map.map_view() == model_mark_ignored(m0, names.take(i as int)),
        decreases child_names.len() - i,
    {
        let ghost mcur = map.map_view();
        let name = child_names[i].clone();
        assert(name@ == names[i as int]);
        map.or_insert(name, VcsStatus::Ignored);
        proof {
            assert(names.take(i + 1).drop_last() =~= names.take(i as int));
            assert(names.take(i + 1).last() == names[i as int]);
            if mcur.dom().contains(names[i as int]) {
                assert(map.map_view() =~= mcur);
            } else {
                assert(map.map_view() =~= mcur.insert(names[i as int], VcsStatus::Ignored));
            }
        }
        i += 1;
    }
    proof {
        assert(names.take(child_names@.len() as int) =~= names);
    }
}

/// A direct subdirectory of the listed directory, with whether an ignore
/// rule matches it.
pub struct SubdirInfo {
    pub name: String,
    pub is_ignored: bool,
}

pub open spec fn subdirs_view(s: Seq<SubdirInfo>) -> Seq<(Seq<char>, bool)> {
    s.map_values(|d: SubdirInfo| (d.name@, d.is_ignored))
}

/// Empty-directory detection: the status source never mentions a
/// directory with no tree_paths or untracked descendants, so a subdirectory
/// still absent from the mapping becomes `Ignored` when it is itself
/// ignored and `DirEmptyUntracked` otherwise.
pub open spec fn model_mark_empty(
    m: Map<Seq<char>, VcsStatus>,
    dirs: Seq<(Seq<char>, bool)>,
) -> Map<Seq<char>, VcsStatus>
    decreases dirs.len(),
{
    if dirs.len() == 0 {
        m
    } else {
        let m1 = model_mark_empty(m, dirs.drop_last());
        let name = dirs.last().0;
        if m1.dom().contains(name) {
            m1
        } else {
            m1.insert(
                name,
                if dirs.last().1 {
                    VcsStatus::Ignored
                } else {
                    VcsStatus::DirEmptyUntracked
                },
            )
        }
    }
}

/// A subdirectory the status source never mentioned resolves to `Ignored`
/// exactly when it is itself ignored, and to `DirEmptyUntracked` otherwise.
pub proof fn lemma_empty_dir_detection(
    m: Map<Seq<char>, VcsStatus>,
    name: Seq<char>,
    is_ignored: bool,
)
    requires
        !m.dom().contains(name),
    ensures
        model_mark_empty(m, seq![(name, is_ignored)])[name] == (if is_ignored {
            VcsStatus::Ignored
        } else {
            VcsStatus::DirEmptyUntracked
        }),
{
    let dirs = seq![(name, is_ignored)];
    assert(dirs.drop_last() =~= Seq::<(Seq<char>, bool)>::empty());
    assert(dirs.last() == (name, is_ignored));
    assert(model_mark_empty(m, dirs.drop_last()) == m);
}

pub fn mark_empty_subdirs(map: &mut StatusMap, subdirs: &Vec<SubdirInfo>)
    requires
        old(map).wf(),
    ensures
        final(map).wf(),
        final(map).map_view() == model_mark_empty(old(map).map_view(), subdirs_view(subdirs@)),
{
    let ghost m0 = map.map_view();
    let ghost dirs = subdirs_view(subdirs@);
    proof {
        assert(dirs.take(0) =~= Seq::<(Seq<char>, bool)>::empty());
    }
    let mut i: usize = 0;
    while i < subdirs.len()
        invariant
            i <= subdirs@.len(),
            map.wf(),
            dirs == subdirs_view(subdirs@),
            map.map_view() == model_mark_empty(m0, dirs.take(i as int)),
        decreases subdirs.len() - i,
    {
        let ghost mcur = map.map_view();
        let d = &subdirs[i];
        let name = d.name.clone();
        assert(name@ == dirs[i as int].0);
        let st = if d.is_ignored {
            VcsStatus::Ignored
        } else {
            VcsStatus::DirEmptyUntracked
        };
        map.or_insert(name, st);
        proof {
            assert(dirs.take(i + 1).drop_last() =~= dirs.take(i as int));
            assert(dirs.take(i + 1).last() == dirs[i as int]);
            if mcur.dom().contains(dirs[i as int].0) {
                assert(map.map_view() =~= mcur);
            } else {
                assert(map.map_view() =~= mcur.insert(dirs[i as int].0, st));
            }
        }
        i += 1;
    }
    proof {
        assert(dirs.take(subdirs@.len() as int) =~= dirs);
    }
}

/// One reported path's contribution to the aggregate status of an
/// arbitrary target directory (used for the synthetic `..` entry): paths
/// under the target are classified, deep ones remapped, and the
/// highest-ranked result kept (the earlier one on a tie), so that
/// `Ignored` wins when it is all there is under the target.
pub open spec fn spec_dir_best_step(
    best: Option<VcsStatus>,
    path: Seq<Seq<char>>,
    flags: RawPathStatus,
    prefix: Seq<Seq<char>>,
) -> Option<VcsStatus> {
    if !spec_starts_with(path, prefix) || path.len() == prefix.len() {
        best
    } else {
        let st = spec_classify(flags);
        let eff = if path.len() - prefix.len() > 1 {
            spec_remap_deep(st)
        } else {
            st
        };
        match best {
            Option::None => Option::Some(eff),
            Option::Some(b) => if spec_status_priority(eff) > spec_status_priority(b) {
                Option::Some(eff)
            } else {
                Option::Some(b)
            },
        }
    }
}

pub open spec fn spec_dir_best(
    best: Option<VcsStatus>,
    s: Seq<(Seq<Seq<char>>, RawPathStatus)>,
    prefix: Seq<Seq<char>>,
) -> Option<VcsStatus>
    decreases s.len(),
{
    if s.len() == 0 {
        best
    } else {
        spec_dir_best_step(spec_dir_best(best, s.drop_last(), prefix), s.last().0, s.last().1,
        prefix)
    }
}

/// Aggregate status of the directory at `prefix`, computed from the full
/// snapshot alone: the best contribution over all reported paths, then
/// remapped to its directory-level equivalent; `Clean` only when nothing
/// at all is reported under the directory.
pub open spec fn spec_dir_status_from(
    s: Seq<(Seq<Seq<char>>, RawPathStatus)>,
    prefix: Seq<Seq<char>>,
) -> VcsStatus {
    match spec_dir_best(Option::None, s, prefix) {
        Option::None => VcsStatus::Clean,
        Option::Some(b) => spec_remap_aggregate(b),
    }
}

pub fn compute_dir_status_from_statuses(
    snapshot: &Vec<ReportedPath>,
    target_prefix: &Vec<String>,
) -> (r: VcsStatus)
    ensures
        r == spec_dir_status_from(snapshot_view(snapshot@), target_prefix.deep_view()),
{
    let ghost svw = snapshot_view(snapshot@);
    let ghost prefix = target_prefix.deep_view();
    proof {
        assert(svw.take(0) =~= Seq::<(Seq<Seq<char>>, RawPathStatus)>::empty());
    }
    let mut best: Option<VcsStatus> = None;
    let mut i: usize = 0;
    while i < snapshot.len()
        invariant
            i <= snapshot@.len(),
            svw == snapshot_view(snapshot@),
            prefix == target_prefix.deep_view(),
            best == spec_dir_best(Option::None, svw.take(i as int), prefix),
        decreases snapshot.len() - i,
    {
        let rp = &snapshot[i];
        assert(svw[i as int].0 == rp.components.deep_view());
        if starts_with(&rp.components, target_prefix) && rp.components.len()
            > target_prefix.len() {
            let st = classify(&rp.flags);
            let eff = if rp.components.len() - target_prefix.len() > 1 {
                remap_deep(st)
            } else {
                st
            };
            best = match best {
                None => Some(eff),
                Some(b) => {
                    if status_priority(&eff) > status_priority(&b) {
                        Some(eff)
                    } else {
                        Some(b)
                    }
                },
            };
        }
        proof {
            assert(svw.take(i + 1).drop_last() =~= svw.take(i as int));
            assert(svw.take(i + 1).last() == svw[i as int]);
        }
        i += 1;
    }
    proof {
        assert(svw.take(snapshot@.len() as int) =~= svw);
    }
    match best {
        Some(b) => remap_aggregate(b),
        None => VcsStatus::Clean,
    }
}

/// Some entry other than `.` and `..` is recorded.
pub open spec fn spec_has_content(s: Seq<(Seq<char>, VcsStatus)>) -> bool {
    exists|i: int| 0 <= i < s.len() && s[i].0 != "."@ && s[i].0 != ".."@
}

fn has_content(map: &StatusMap) -> (r: bool)
    ensures
        r == spec_has_content(map.entries_seq()),
{
    let dot = String::from_str(".");
    let dotdot = String::from_str("..");
    let ghost s = map.entries_seq();
    let mut i: usize = 0;
    while i < map.len()
        invariant
            i <= s.len(),
            s == map.entries_seq(),
            dot@ == "."@,
            dotdot@ == ".."@,
            forall|j: int| 0 <= j < i ==> s[j].0 == "."@ || s[j].0 == ".."@,
        decreases s.len() - i,
    {
        let name = map.name_at(i);
        if !name.eq(&dot) && !name.eq(&dotdot) {
            assert(s[i as int].0 != "."@ && s[i as int].0 != ".."@);
            return true;
        }
        i += 1;
    }
    false
}

/// Status of the synthetic `.` entry: the aggregate of the real entries
/// when there are any, else `Clean` at the repository root, `Ignored` in
/// an ignored directory, `DirEmptyUntracked` otherwise.
pub open spec fn spec_dot_status(
    s: Seq<(Seq<char>, VcsStatus)>,
    is_repo_root: bool,
    dir_is_ignored: bool,
) -> VcsStatus {
    if spec_has_content(s) {
        spec_aggregate_entries(s)
    } else if is_repo_root {
        VcsStatus::Clean
    } else if dir_is_ignored {
        VcsStatus::Ignored
    } else {
        VcsStatus::DirEmptyUntracked
    }
}

/// Status of the synthetic `..` entry: `Ignored` when the parent itself
/// is, else the parent directory's aggregate over the same snapshot.
pub open spec fn spec_dotdot_status(
    parent_ignored: bool,
    s: Seq<(Seq<Seq<char>>, RawPathStatus)>,
    parent_prefix: Seq<Seq<char>>,
) -> VcsStatus {
    if parent_ignored {
        VcsStatus::Ignored
    } else {
        spec_dir_status_from(s, parent_prefix)
    }
}

/// Add the synthetic `.` and `..` entries when "show all" mode asks for
/// them (and neither almost-all nor no-directory applies). `.` gets the
/// aggregate of the entries recorded so far; `..` is added only below the
/// repository root, from the parent's slice of the same snapshot. Neither
/// overwrites an existing entry, and no other entry changes.
pub fn add_synthetic_entries(
    map: &mut StatusMap,
    show_all: bool,
    almost_all: bool,
    no_directory: bool,
    is_repo_root: bool,
    dir_is_ignored: bool,
    parent_ignored: bool,
    snapshot: &Vec<ReportedPath>,
    parent_prefix: &Vec<String>,
)
    requires
        old(map).wf(),
    ensures
        final(map).wf(),
        !(show_all && !almost_all && !no_directory) ==> forall|n: Seq<char>|
            final(map).spec_get(n) == old(map).spec_get(n),
        (show_all && !almost_all && !no_directory) ==> {
            &&& final(map).spec_get("."@) == (if old(map).spec_get("."@) is Some {
                old(map).spec_get("."@)
            } else {
                Option::Some(
                    spec_dot_status(old(map).entries_seq(), is_repo_root, dir_is_ignored),
                )
            })
            &&& (!is_repo_root ==> final(map).spec_get(".."@) == (if old(map).spec_get(".."@)
                is Some {
                old(map).spec_get(".."@)
            } else {
                Option::Some(
                    spec_dotdot_status(
                        parent_ignored,
                        snapshot_view(snapshot@),
                        parent_prefix.deep_view(),
                    ),
                )
            }))
            &&& (is_repo_root ==> final(map).spec_get(".."@) == old(map).spec_get(".."@))
            &&& forall|n: Seq<char>|
                n != "."@ && n != ".."@ ==> final(map).spec_get(n) == old(map).spec_get(n)
        },
{
    if !(show_all && !almost_all && !no_directory) {
        return ;
    }
    proof {
        reveal_strlit(".");
        reveal_strlit("..");
        assert("."@.len() == 1);
        assert(".."@.len() == 2);
        assert("."@ != ".."@);
    }
    let dot_st = if has_content(map) {
        aggregate_entries_status(map)
    } else if is_repo_root {
        VcsStatus::Clean
    } else if dir_is_ignored {
        VcsStatus::Ignored
    } else {
        VcsStatus::DirEmptyUntracked
    };
    map.or_insert(String::from_str("."), dot_st);
    if !is_repo_root {
        let dd_st = if parent_ignored {
            VcsStatus::Ignored
        } else {
            compute_dir_status_from_statuses(snapshot, parent_prefix)
        };
        map.or_insert(String::from_str(".."), dd_st);
    }
}

} // verus!
