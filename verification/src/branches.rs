//! Numbers for the branches of a module.
//!
//! A branch is known by the names of its two ends, so that every section of the
//! output that mentions a branch uses the same number for it.

use vstd::prelude::*;

use crate::model::{Branch, BranchKind, Node};

verus! {

/// The ends of a branch by name: the second one is empty where there is none.
pub type Ends = (Seq<char>, Seq<char>);

/// The ends of a branch from a first name and, where there is one, a second name.
pub open spec fn ends(hi: Seq<char>, lo: Option<Seq<char>>) -> Ends {
    match lo {
        Some(lo) => (hi, lo),
        None => (hi, Seq::empty()),
    }
}

/// The names of the ends of a named branch.
pub open spec fn hi_lo(branch: Branch) -> (Seq<char>, Option<Seq<char>>) {
    match branch.kind {
        BranchKind::Nodes(hi, lo) => (hi.name@, Some(lo.name@)),
        BranchKind::NodeGnd(hi) => (hi.name@, None),
        BranchKind::PortFlow(port) => (port.name@, None),
    }
}

/// The ends of a named branch.
pub open spec fn branch_ends(branch: Branch) -> Ends {
    ends(hi_lo(branch).0, hi_lo(branch).1)
}

/// The name of a node, where there is one.
pub open spec fn opt_name(node: Option<Node>) -> Option<Seq<char>> {
    match node {
        Some(node) => Some(node.name@),
        None => None,
    }
}

/// The name of a borrowed node, where there is one.
pub open spec fn opt_ref_name(node: Option<&Node>) -> Option<Seq<char>> {
    match node {
        Some(node) => Some(node.name@),
        None => None,
    }
}

/// The known branches once `key` has been asked for.
pub open spec fn registered(known: Seq<Ends>, key: Ends) -> Seq<Ends> {
    if known.contains(key) {
        known
    } else {
        known.push(key)
    }
}

/// The number that is given out for `key`.
pub open spec fn branch_id(known: Seq<Ends>, key: Ends) -> int {
    registered(known, key).index_of(key)
}

/// The branches that have a number. The number of a branch is its place in the
/// order in which the branches were first asked for.
#[derive(Debug)]
pub struct BranchReg {
    known: Vec<(String, String)>,
}

impl View for BranchReg {
    type V = Seq<Ends>;

    closed spec fn view(&self) -> Seq<Ends> {
        Seq::new(self.known@.len(), |i: int| (self.known@[i].0@, self.known@[i].1@))
    }
}

impl BranchReg {
    /// No branch is listed twice.
    pub open spec fn wf(&self) -> bool {
        self@.no_duplicates()
    }

    /// A registry without branches.
    pub fn new() -> (res: Self)
        ensures
            res.wf(),
            res@ == Seq::<Ends>::empty(),
    {
        let res = BranchReg { known: Vec::new() };
        assert(res@ =~= Seq::<Ends>::empty());
        res
    }

    /// The number of branches that have a number.
    pub fn len(&self) -> (res: usize)
        ensures
            res == self@.len(),
    {
        self.known.len()
    }

    /// Looks a branch up.
    fn find(&self, hi: &String, lo: &String) -> (res: Option<usize>)
        requires
            self.wf(),
        ensures
            match res {
                Some(i) => i < self@.len() && self@[i as int] == (hi@, lo@),
                None => !self@.contains((hi@, lo@)),
            },
    {
        let mut i: usize = 0;
        while i < self.known.len()
            invariant
                i <= self@.len(),
                self@.len() == self.known@.len(),
                forall|j: int| 0 <= j < i ==> #[trigger] self@[j] != (hi@, lo@),
            decreases self.known.len() - i,
        {
            let entry = &self.known[i];
            assert(self@[i as int] == (entry.0@, entry.1@));
            if entry.0 == *hi && entry.1 == *lo {
                return Some(i);
            }
            i += 1;
        }
        None
    }

    /// Returns the number of a branch; one that has none yet gets the next one.
    fn id(&mut self, hi: String, lo: String) -> (res: u32)
        requires
            old(self).wf(),
            registered(old(self)@, (hi@, lo@)).len() <= u32::MAX,
        ensures
            final(self).wf(),
            final(self)@ == registered(old(self)@, (hi@, lo@)),
            res == branch_id(old(self)@, (hi@, lo@)),
    {
        let ghost key = (hi@, lo@);
        match self.find(&hi, &lo) {
            Some(i) => {
                assert(self@.contains(self@[i as int]));
                i as u32
            },
            None => {
                let i: usize = self.known.len();
                self.known.push((hi, lo));
                assert(self@ =~= old(self)@.push(key));
                assert(self@[i as int] == key);
                assert(self@.contains(key));
                i as u32
            },
        }
    }

    /// Whether the branch between the given ends has a number or can still get one.
    pub fn admits(&self, hi: &String, lo: &String) -> (res: bool)
        requires
            self.wf(),
        ensures
            res == (registered(self@, (hi@, lo@)).len() <= u32::MAX),
    {
        let count: u64 = self.known.len() as u64;
        if count < u32::MAX as u64 {
            return true;
        }
        match self.find(hi, lo) {
            Some(i) => {
                assert(self@.contains(self@[i as int]));
                count == u32::MAX as u64
            },
            None => false,
        }
    }

    /// Returns the number of a named branch.
    pub fn named_id(&mut self, branch: &Branch) -> (res: u32)
        requires
            old(self).wf(),
            registered(old(self)@, branch_ends(*branch)).len() <= u32::MAX,
        ensures
            final(self).wf(),
            final(self)@ == registered(old(self)@, branch_ends(*branch)),
            res == branch_id(old(self)@, branch_ends(*branch)),
    {
        let (hi, lo) = branch_hi_lo(branch);
        match lo {
            Some(lo) => self.id(hi, lo),
            None => self.id(hi, String::new()),
        }
    }

    /// Returns the number of the branch between two nodes, or between a node and ground.
    pub fn unnamed_id(&mut self, hi: &Node, lo: Option<&Node>) -> (res: u32)
        requires
            old(self).wf(),
            registered(old(self)@, ends(hi.name@, opt_ref_name(lo))).len() <= u32::MAX,
        ensures
            final(self).wf(),
            final(self)@ == registered(old(self)@, ends(hi.name@, opt_ref_name(lo))),
            res == branch_id(old(self)@, ends(hi.name@, opt_ref_name(lo))),
    {
        match lo {
            Some(lo) => self.id(hi.name.clone(), lo.name.clone()),
            None => self.id(hi.name.clone(), String::new()),
        }
    }
}

/// Returns the names of the ends of a named branch.
pub fn branch_hi_lo(branch: &Branch) -> (res: (String, Option<String>))
    ensures
        res.0@ == hi_lo(*branch).0,
        match res.1 {
            Some(lo) => hi_lo(*branch).1 == Some(lo@),
            None => hi_lo(*branch).1 is None,
        },
{
    match &branch.kind {
        BranchKind::Nodes(hi, lo) => (hi.name.clone(), Some(lo.name.clone())),
        BranchKind::NodeGnd(hi) => (hi.name.clone(), None),
        BranchKind::PortFlow(port) => (port.name.clone(), None),
    }
}

/// Asking for a branch keeps the numbers of all known branches, and no branch
/// is ever listed twice.
pub proof fn law_registering_keeps_numbers(known: Seq<Ends>, key: Ends)
    requires
        known.no_duplicates(),
    ensures
        registered(known, key).no_duplicates(),
        known.is_prefix_of(registered(known, key)),
        registered(known, key).contains(key),
        registered(known, key).len() <= known.len() + 1,
{
    if !known.contains(key) {
        let later = known.push(key);
        assert(later[known.len() as int] == key);
        assert(known =~= later.take(known.len() as int));
    }
}

/// A branch that has a number keeps it: whenever it is asked for again, after
/// any number of other branches have been added, the same number comes back and
/// nothing is added.
pub proof fn law_number_is_kept(known: Seq<Ends>, later: Seq<Ends>, key: Ends)
    requires
        later.no_duplicates(),
        registered(known, key).is_prefix_of(later),
    ensures
        branch_id(later, key) == branch_id(known, key),
        registered(later, key) == later,
{
    let now = registered(known, key);
    if !known.contains(key) {
        assert(now[known.len() as int] == key);
    }
    assert(now.contains(key));
    let i = now.index_of(key);
    assert(now[i] == key);
    assert(later[i] == key);
    assert(later.contains(key));
    let j = later.index_of(key);
    assert(later[j] == key);
}

/// Two branches with different ends have different numbers.
pub proof fn law_numbers_tell_branches_apart(known: Seq<Ends>, one: Ends, other: Ends)
    requires
        known.no_duplicates(),
        one != other,
    ensures
        branch_id(known, one) != branch_id(registered(known, one), other),
{
    law_registering_keeps_numbers(known, one);
    let next = registered(known, one);
    law_registering_keeps_numbers(next, other);
    law_number_is_kept(known, registered(next, other), one);
    let last = registered(next, other);
    assert(last.contains(other));
    assert(last[last.index_of(other)] == other);
    assert(last.contains(one));
    assert(last[last.index_of(one)] == one);
}

/// Of the branches that have a number, two have the same number only if they have
/// the same ends.
pub proof fn law_number_belongs_to_one_branch(known: Seq<Ends>, one: Ends, other: Ends)
    requires
        known.contains(one),
        known.contains(other),
    ensures
        branch_id(known, one) == branch_id(known, other) <==> one == other,
        0 <= branch_id(known, one) < known.len(),
        known[branch_id(known, one)] == one,
{
    assert(known[known.index_of(one)] == one);
    assert(known[known.index_of(other)] == other);
}

/// The number of a branch is its place among the branches that have a number, once it
/// has one: its place so far where it had one, and else the next one.
pub proof fn law_number_is_a_place(known: Seq<Ends>, key: Ends)
    ensures
        0 <= branch_id(known, key) <= known.len(),
        known.contains(key) ==> registered(known, key) == known && known[branch_id(known, key)]
            == key,
        !known.contains(key) ==> registered(known, key) == known.push(key) && branch_id(known, key)
            == known.len(),
{
    if known.contains(key) {
        assert(known[known.index_of(key)] == key);
    } else {
        let later = known.push(key);
        assert(later[known.len() as int] == key);
        assert(later.contains(key));
        let i = later.index_of(key);
        assert(later[i] == key);
        if i < known.len() {
            assert(known[i] == key);
        }
    }
}

/// A named branch is known by the names of its ends alone. One to ground and one for
/// the flow into a terminal have an empty second end.
pub proof fn law_ends_of_named_branches(branch: Branch)
    ensures
        branch.kind matches BranchKind::Nodes(hi, lo) ==> branch_ends(branch) == (
            hi.name@,
            lo.name@,
        ) && hi_lo(branch) == (hi.name@, Some(lo.name@)),
        branch.kind matches BranchKind::NodeGnd(hi) ==> branch_ends(branch) == (
            hi.name@,
            Seq::<char>::empty(),
        ) && hi_lo(branch) == (hi.name@, None::<Seq<char>>),
        branch.kind matches BranchKind::PortFlow(port) ==> branch_ends(branch) == (
            port.name@,
            Seq::<char>::empty(),
        ) && hi_lo(branch) == (port.name@, None::<Seq<char>>),
{
}

/// An unnamed branch is known by the names of its ends; to ground, the second is empty.
pub proof fn law_ends_of_unnamed_branches(hi: Node, lo: Node)
    ensures
        ends(hi.name@, opt_ref_name(Some(&lo))) == (hi.name@, lo.name@),
        ends(hi.name@, opt_ref_name(None)) == (hi.name@, Seq::<char>::empty()),
{
}

} // verus!
