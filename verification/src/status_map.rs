use vstd::prelude::*;
use crate::status::{VcsStatus, spec_status_priority, status_priority};

verus! {

/// Per-listing association of entry display names with statuses, kept in
/// insertion order. Keys are unique; absence of a name means the entry is
/// outside any repository.
pub struct StatusMap {
    entries: Vec<(String, VcsStatus)>,
}

/// Status recorded for `name` in `s`: the first pair carrying that name,
/// scanning from the front.
pub open spec fn seq_get(s: Seq<(Seq<char>, VcsStatus)>, name: Seq<char>) -> Option<VcsStatus>
    decreases s.len(),
{
    if s.len() == 0 {
        Option::None
    } else if s[0].0 == name {
        Option::Some(s[0].1)
    } else {
        seq_get(s.drop_first(), name)
    }
}

pub proof fn lemma_seq_get_index(s: Seq<(Seq<char>, VcsStatus)>, name: Seq<char>, i: int)
    requires
        0 <= i < s.len(),
        s[i].0 == name,
        forall|j: int| 0 <= j < i ==> s[j].0 != name,
    ensures
        seq_get(s, name) == Option::Some(s[i].1),
    decreases i,
{
    if i > 0 {
        lemma_seq_get_index(s.drop_first(), name, i - 1);
    }
}

pub proof fn lemma_seq_get_absent(s: Seq<(Seq<char>, VcsStatus)>, name: Seq<char>)
    requires
        forall|j: int| 0 <= j < s.len() ==> s[j].0 != name,
    ensures
        seq_get(s, name) == Option::None::<VcsStatus>,
    decreases s.len(),
{
    if s.len() > 0 {
        lemma_seq_get_absent(s.drop_first(), name);
    }
}

pub proof fn lemma_seq_get_some_index(s: Seq<(Seq<char>, VcsStatus)>, name: Seq<char>)
    requires
        seq_get(s, name) is Some,
    ensures
        exists|i: int|
            0 <= i < s.len() && s[i].0 == name && s[i].1 == seq_get(s, name)->Some_0,
    decreases s.len(),
{
    if s.len() > 0 {
        if s[0].0 == name {
            assert(s[0].0 == name && s[0].1 == seq_get(s, name)->Some_0);
        } else {
            lemma_seq_get_some_index(s.drop_first(), name);
            let j = choose|j: int|
                0 <= j < s.drop_first().len() && s.drop_first()[j].0 == name
                    && s.drop_first()[j].1 == seq_get(s.drop_first(), name)->Some_0;
            assert(s[j + 1].0 == name && s[j + 1].1 == seq_get(s, name)->Some_0);
        }
    }
}

pub proof fn lemma_seq_get_update_value(
    s: Seq<(Seq<char>, VcsStatus)>,
    i: int,
    v: VcsStatus,
    n: Seq<char>,
)
    requires
        0 <= i < s.len(),
        n != s[i].0,
    ensures
        seq_get(s.update(i, (s[i].0, v)), n) == seq_get(s, n),
    decreases i,
{
    let t = s.update(i, (s[i].0, v));
    if i == 0 {
        assert(t.drop_first() =~= s.drop_first());
    } else {
        if s[0].0 != n {
            assert(t.drop_first() =~= s.drop_first().update(i - 1, (s[i].0, v)));
            lemma_seq_get_update_value(s.drop_first(), i - 1, v, n);
        }
    }
}

pub proof fn lemma_seq_get_push(
    s: Seq<(Seq<char>, VcsStatus)>,
    p: (Seq<char>, VcsStatus),
    n: Seq<char>,
)
    ensures
        seq_get(s.push(p), n) == (if seq_get(s, n) is Some {
            seq_get(s, n)
        } else if p.0 == n {
            Option::Some(p.1)
        } else {
            Option::None::<VcsStatus>
        }),
    decreases s.len(),
{
    if s.len() == 0 {
        assert(s.push(p).drop_first() =~= Seq::<(Seq<char>, VcsStatus)>::empty());
    } else {
        assert(s.push(p)[0] == s[0]);
        if s[0].0 != n {
            assert(s.push(p).drop_first() =~= s.drop_first().push(p));
            lemma_seq_get_push(s.drop_first(), p, n);
        }
    }
}

impl StatusMap {
    /// The recorded (name, status) pairs, in insertion order.
    pub closed spec fn entries_seq(&self) -> Seq<(Seq<char>, VcsStatus)> {
        Seq::new(self.entries@.len(), |i: int| (self.entries@[i].0@, self.entries@[i].1))
    }

    /// No name is recorded twice.
    pub open spec fn wf(&self) -> bool {
        forall|i: int, j: int|
            0 <= i < j < self.entries_seq().len() ==> self.entries_seq()[i].0
                != self.entries_seq()[j].0
    }

    /// The status recorded for `name`, if any.
    pub open spec fn spec_get(&self, name: Seq<char>) -> Option<VcsStatus> {
        seq_get(self.entries_seq(), name)
    }

    pub fn new() -> (r: StatusMap)
        ensures
            r.wf(),
            r.entries_seq() =~= Seq::<(Seq<char>, VcsStatus)>::empty(),
    {
        StatusMap { entries: Vec::new() }
    }

    pub fn len(&self) -> (r: usize)
        ensures
            r == self.entries_seq().len(),
    {
        self.entries.len()
    }

    pub fn name_at(&self, i: usize) -> (r: &String)
        requires
            i < self.entries_seq().len(),
        ensures
            r@ == self.entries_seq()[i as int].0,
    {
        &self.entries[i].0
    }

    pub fn status_at(&self, i: usize) -> (r: VcsStatus)
        requires
            i < self.entries_seq().len(),
        ensures
            r == self.entries_seq()[i as int].1,
    {
        self.entries[i].1
    }

    fn find_index(&self, name: &String) -> (r: Option<usize>)
        ensures
            match r {
                Some(i) => i < self.entries_seq().len() && self.entries_seq()[i as int].0 == name@
                    && forall|j: int| 0 <= j < i ==> self.entries_seq()[j].0 != name@,
                None => forall|j: int|
                    0 <= j < self.entries_seq().len() ==> self.entries_seq()[j].0 != name@,
            },
    {
        let mut i: usize = 0;
        while i < self.entries.len()
            invariant
                i <= self.entries.len(),
                forall|j: int| 0 <= j < i ==> self.entries_seq()[j].0 != name@,
            decreases self.entries.len() - i,
        {
            if self.entries[i].0 == *name {
                return Some(i);
            }
            i += 1;
        }
        None
    }

    pub fn get(&self, name: &String) -> (r: Option<VcsStatus>)
        ensures
            r == self.spec_get(name@),
    {
        match self.find_index(name) {
            Some(i) => {
                proof {
                    lemma_seq_get_index(self.entries_seq(), name@, i as int);
                }
                Some(self.entries[i].1)
            },
            None => {
                proof {
                    lemma_seq_get_absent(self.entries_seq(), name@);
                }
                None
            },
        }
    }

    pub fn contains_key(&self, name: &String) -> (r: bool)
        ensures
            r == (self.spec_get(name@) is Some),
    {
        self.get(name).is_some()
    }

    /// Record `status` for `name`, overwriting any earlier entry.
    pub fn set(&mut self, name: String, status: VcsStatus)
        requires
            old(self).wf(),
        ensures
            final(self).wf(),
            final(self).spec_get(name@) == Option::Some(status),
            forall|n: Seq<char>| n != name@ ==> final(self).spec_get(n) == old(self).spec_get(n),
    {
        let ghost s0 = self.entries_seq();
        match self.find_index(&name) {
            Some(i) => {
                self.entries.set(i, (name, status));
                proof {
                    let s1 = self.entries_seq();
                    assert(s1 =~= s0.update(i as int, (s0[i as int].0, status)));
                    lemma_seq_get_index(s1, s0[i as int].0, i as int);
                    assert forall|n: Seq<char>| n != s0[i as int].0 implies seq_get(s1, n)
                        == seq_get(s0, n) by {
                        lemma_seq_get_update_value(s0, i as int, status, n);
                    }
                }
            },
            None => {
                let ghost nv = name@;
                self.entries.push((name, status));
                proof {
                    let s1 = self.entries_seq();
                    assert(s1 =~= s0.push((nv, status)));
                    lemma_seq_get_absent(s0, nv);
                    assert forall|n: Seq<char>| true implies seq_get(s1, n) == (if seq_get(s0, n)
                        is Some {
                        seq_get(s0, n)
                    } else if nv == n {
                        Option::Some(status)
                    } else {
                        Option::None::<VcsStatus>
                    }) by {
                        lemma_seq_get_push(s0, (nv, status), n);
                    }
                }
            },
        }
    }

    /// Record `status` for `name` only when the name has no entry yet.
    pub fn or_insert(&mut self, name: String, status: VcsStatus)
        requires
            old(self).wf(),
        ensures
            final(self).wf(),
            final(self).spec_get(name@) == (if old(self).spec_get(name@) is Some {
                old(self).spec_get(name@)
            } else {
                Option::Some(status)
            }),
            forall|n: Seq<char>| n != name@ ==> final(self).spec_get(n) == old(self).spec_get(n),
    {
        let present = self.contains_key(&name);
        if !present {
            self.set(name, status);
        }
    }

    /// Record `status` for `name` when the name is absent or `status`
    /// strictly outranks the recorded entry; a tie keeps the entry.
    pub fn upgrade_if_outranks(&mut self, name: String, status: VcsStatus)
        requires
            old(self).wf(),
        ensures
            final(self).wf(),
            final(self).spec_get(name@) == (match old(self).spec_get(name@) {
                Option::None => Option::Some(status),
                Option::Some(e) => if spec_status_priority(status) > spec_status_priority(e) {
                    Option::Some(status)
                } else {
                    Option::Some(e)
                },
            }),
            forall|n: Seq<char>| n != name@ ==> final(self).spec_get(n) == old(self).spec_get(n),
    {
        match self.get(&name) {
            None => {
                self.set(name, status);
            },
            Some(existing) => {
                if status_priority(&status) > status_priority(&existing) {
                    self.set(name, status);
                }
            },
        }
    }
}

} // verus!
