//! The devices that are tried while pairing.

use vstd::prelude::*;
use vstd::string::*;

use crate::discovery::{Addr4, FoundPeer};
use crate::text::same_text;

verus! {

/// An address that is tried.
#[derive(Debug)]
struct Target {
    addr: Addr4,
    name: String,
    announced: bool,
}

/// An address that is tried.
pub struct TargetView {
    pub addr: Addr4,
    pub name: Seq<char>,
    pub announced: bool,
}

/// The addresses that are tried, and those that were woken up.
#[derive(Debug)]
pub struct Targets {
    entries: Vec<Target>,
    warmed: Vec<u32>,
}

/// An attempt to connect.
#[derive(Debug)]
pub struct Attempt {
    pub addr: Addr4,
    pub name: String,
    /// Whether this is the first attempt at this address.
    pub announce: bool,
    /// Whether the machine is to be woken up first.
    pub warm: bool,
}

impl Target {
    closed spec fn view(&self) -> TargetView {
        TargetView { addr: self.addr, name: self.name@, announced: self.announced }
    }
}

/// Whether one of the targets has this address.
pub open spec fn has_addr(targets: Seq<TargetView>, addr: Addr4) -> bool {
    exists|i: int| 0 <= i < targets.len() && (#[trigger] targets[i]).addr == addr
}

/// Whether no two targets have the same address.
pub open spec fn distinct_addrs(targets: Seq<TargetView>) -> bool {
    forall|i: int, j: int|
        0 <= i < j < targets.len() ==> (#[trigger] targets[i]).addr != (#[trigger] targets[j]).addr
}

/// The targets with one more, unless its address is among them.
pub open spec fn with_target(targets: Seq<TargetView>, addr: Addr4, name: Seq<char>) -> Seq<
    TargetView,
> {
    if has_addr(targets, addr) {
        targets
    } else {
        targets.push(TargetView { addr, name, announced: false })
    }
}

/// The targets after all of them were tried.
pub open spec fn all_announced(targets: Seq<TargetView>) -> Seq<TargetView> {
    targets.map_values(|t: TargetView| TargetView { announced: true, ..t })
}

/// Whether the machine of the target at a place is to be woken up: it is tried
/// for the first time, and neither was woken up before nor for an earlier
/// target.
pub open spec fn to_warm(targets: Seq<TargetView>, warmed: Set<u32>, i: int) -> bool {
    &&& !targets[i].announced
    &&& !warmed.contains(targets[i].addr.ip)
    &&& forall|j: int|
        0 <= j < i ==> targets[j].announced || (#[trigger] targets[j]).addr.ip
            != targets[i].addr.ip
}

impl Targets {
    pub closed spec fn view(&self) -> Seq<TargetView> {
        self.entries@.map_values(|t: Target| t.view())
    }

    /// The machines that were woken up.
    pub closed spec fn woken(&self) -> Set<u32> {
        Set::new(|ip: u32| self.warmed@.contains(ip))
    }

    #[verifier::type_invariant]
    spec fn one_each(&self) -> bool {
        distinct_addrs(self.view())
    }

    /// No target yet.
    pub fn new() -> (r: Self)
        ensures
            r.view() == Seq::<TargetView>::empty(),
            r.woken() == Set::<u32>::empty(),
    {
        let r = Targets { entries: Vec::new(), warmed: Vec::new() };
        assert(r.view() =~= Seq::<TargetView>::empty());
        assert(r.woken() =~= Set::<u32>::empty());
        r
    }

    /// Adds a target, unless there is one with its address. So the first name
    /// of an address stays.
    pub fn insert(&mut self, addr: Addr4, name: &str)
        ensures
            final(self).view() == with_target(old(self).view(), addr, name@),
            final(self).woken() == old(self).woken(),
    {
        proof {
            use_type_invariant(&*self);
        }
        let ghost before = self.view();
        let mut i: usize = 0;
        while i < self.entries.len()
            invariant
                i <= self.entries@.len(),
                self.view() == before,
                self.woken() == old(self).woken(),
                distinct_addrs(before),
                before == old(self).view(),
                forall|j: int| 0 <= j < i ==> (#[trigger] before[j]).addr != addr,
            decreases self.entries@.len() - i,
        {
            assert(before[i as int] == self.entries@[i as int].view());
            if self.entries[i].addr == addr {
                assert(has_addr(before, addr));
                return;
            }
            i += 1;
        }
        assert(before.len() == self.entries@.len());
        assert(!has_addr(before, addr));
        let ghost warmed = self.warmed@;
        let mut entries: Vec<Target> = Vec::new();
        std::mem::swap(&mut entries, &mut self.entries);
        entries.push(Target { addr, name: name.to_string(), announced: false });
        let ghost after = entries@.map_values(|t: Target| t.view());
        assert(after =~= with_target(before, addr, name@));
        assert forall|i: int, j: int| 0 <= i < j < after.len() implies (#[trigger] after[i]).addr
            != (#[trigger] after[j]).addr by {
            assert(after[i] == before[i]);
            if j < before.len() {
                assert(after[j] == before[j]);
            }
        }
        self.entries = entries;
        assert(self.woken() =~= old(self).woken());
    }

    /// Adds a device that was found, unless it is this one.
    pub fn insert_found(&mut self, our_id: &str, found: &FoundPeer)
        ensures
            final(self).view() == (if found.device_id@ == our_id@ {
                old(self).view()
            } else {
                with_target(old(self).view(), found.addr, found.name@)
            }),
            final(self).woken() == old(self).woken(),
    {
        if !same_text(found.device_id.as_str(), our_id) {
            self.insert(found.addr, found.name.as_str());
        }
    }

    /// The attempts of one round: one for each target, in the order in which
    /// they were added.
    pub fn round(&mut self) -> (r: Vec<Attempt>)
        ensures
            final(self).view() == all_announced(old(self).view()),
            r@.len() == old(self).view().len(),
            forall|i: int|
                0 <= i < r@.len() ==> {
                    &&& (#[trigger] r@[i]).addr == old(self).view()[i].addr
                    &&& r@[i].name@ == old(self).view()[i].name
                    &&& r@[i].announce == !old(self).view()[i].announced
                    &&& r@[i].warm == to_warm(old(self).view(), old(self).woken(), i)
                },
            forall|ip: u32| #[trigger]
                final(self).woken().contains(ip) <==> old(self).woken().contains(ip) || exists|
                    i: int,
                |
                    0 <= i < r@.len() && (#[trigger] r@[i]).announce && r@[i].addr.ip == ip,
    {
        proof {
            use_type_invariant(&*self);
        }
        let ghost before = self.view();
        let ghost woken = self.woken();
        let mut waiting: Vec<Target> = Vec::new();
        std::mem::swap(&mut waiting, &mut self.entries);
        let mut warmed: Vec<u32> = Vec::new();
        std::mem::swap(&mut warmed, &mut self.warmed);
        let mut entries: Vec<Target> = Vec::new();
        let mut out: Vec<Attempt> = Vec::new();
        let ghost earlier = warmed@;
        let mut i: usize = 0;
        while i < waiting.len()
            invariant
                i <= waiting@.len(),
                before == waiting@.map_values(|t: Target| t.view()),
                woken == Set::new(|ip: u32| earlier.contains(ip)),
                entries@.len() == i,
                out@.len() == i,
                forall|j: int|
                    0 <= j < i ==> (#[trigger] entries@[j]).view() == (TargetView {
                        announced: true,
                        ..before[j]
                    }),
                forall|j: int|
                    0 <= j < i ==> {
                        &&& (#[trigger] out@[j]).addr == before[j].addr
                        &&& out@[j].name@ == before[j].name
                        &&& out@[j].announce == !before[j].announced
                        &&& out@[j].warm == to_warm(before, woken, j)
                    },
                forall|ip: u32| #[trigger]
                    warmed@.contains(ip) <==> earlier.contains(ip) || exists|j: int|
                        0 <= j < i && (#[trigger] out@[j]).announce && out@[j].addr.ip == ip,
            decreases waiting@.len() - i,
        {
            let addr = waiting[i].addr;
            let announce = !waiting[i].announced;
            assert(before[i as int] == waiting@[i as int].view());
            let known = holds(&warmed, addr.ip);
            let warm = announce && !known;
            proof {
                if announce && !known {
                    assert forall|j: int| 0 <= j < i implies before[j].announced || (
                    #[trigger] before[j]).addr.ip != addr.ip by {
                        if !before[j].announced && before[j].addr.ip == addr.ip {
                            assert(out@[j].announce && out@[j].addr.ip == addr.ip);
                        }
                    }
                }
                if announce && known && !woken.contains(addr.ip) {
                    let j = choose|j: int|
                        0 <= j < i && (#[trigger] out@[j]).announce && out@[j].addr.ip == addr.ip;
                    assert(!before[j].announced && before[j].addr.ip == addr.ip);
                }
                assert(warm == to_warm(before, woken, i as int));
            }
            let ghost listed = warmed@;
            let ghost tried = out@;
            if warm {
                warmed.push(addr.ip);
            }
            out.push(Attempt { addr, name: waiting[i].name.clone(), announce, warm });
            entries.push(Target { addr, name: waiting[i].name.clone(), announced: true });
            proof {
                assert forall|ip: u32| #[trigger]
                    warmed@.contains(ip) <==> earlier.contains(ip) || exists|j: int|
                        0 <= j < i + 1 && (#[trigger] out@[j]).announce && out@[j].addr.ip
                            == ip by {
                    if listed.contains(ip) {
                        let k = choose|k: int| 0 <= k < listed.len() && listed[k] == ip;
                        assert(warmed@[k] == ip);
                        if !earlier.contains(ip) {
                            let j = choose|j: int|
                                0 <= j < i && (#[trigger] tried[j]).announce && tried[j].addr.ip
                                    == ip;
                            assert(out@[j].announce && out@[j].addr.ip == ip);
                        }
                    }
                    if warm && ip == addr.ip {
                        assert(warmed@[listed.len() as int] == ip);
                        assert(out@[i as int].announce && out@[i as int].addr.ip == ip);
                    }
                    if exists|j: int|
                        0 <= j < i + 1 && (#[trigger] out@[j]).announce && out@[j].addr.ip
                            == ip {
                        let j = choose|j: int|
                            0 <= j < i + 1 && (#[trigger] out@[j]).announce && out@[j].addr.ip
                                == ip;
                        if j < i {
                            assert(tried[j].announce && tried[j].addr.ip == ip);
                            assert(listed.contains(ip));
                        } else {
                            assert(listed.contains(ip) || warm);
                        }
                    }
                    if warmed@.contains(ip) && !listed.contains(ip) {
                        assert(warm && ip == addr.ip);
                    }
                }
            }
            i += 1;
        }
        let ghost after = entries@.map_values(|t: Target| t.view());
        assert(after =~= all_announced(before));
        assert forall|i: int, j: int| 0 <= i < j < after.len() implies (#[trigger] after[i]).addr
            != (#[trigger] after[j]).addr by {
            assert(before[i].addr != before[j].addr);
        }
        self.entries = entries;
        self.warmed = warmed;
        out
    }
}

/// Whether a number is among others.
fn holds(numbers: &Vec<u32>, n: u32) -> (r: bool)
    ensures
        r == numbers@.contains(n),
{
    let mut i: usize = 0;
    while i < numbers.len()
        invariant
            i <= numbers@.len(),
            forall|j: int| 0 <= j < i ==> numbers@[j] != n,
        decreases numbers@.len() - i,
    {
        if numbers[i] == n {
            return true;
        }
        i += 1;
    }
    false
}

/// A target is announced in the first round after it was added, and in no
/// later one.
pub proof fn targets_are_announced_once(
    targets: Seq<TargetView>,
    addr: Addr4,
    name: Seq<char>,
    i: int,
)
    requires
        0 <= i < with_target(targets, addr, name).len(),
    ensures
        all_announced(with_target(targets, addr, name))[i].announced,
        i == targets.len() ==> !with_target(targets, addr, name)[i].announced,
        all_announced(all_announced(targets)) == all_announced(targets),
{
    assert(all_announced(all_announced(targets)) =~= all_announced(targets));
}

/// Adding a target keeps the others as they are and in their order. It adds one
/// exactly where none has the same address and port, and a target that is there
/// keeps its first name.
pub proof fn targets_are_kept(
    targets: Seq<TargetView>,
    addr: Addr4,
    name: Seq<char>,
    i: int,
)
    ensures
        0 <= i < targets.len() ==> with_target(targets, addr, name)[i] == targets[i],
        0 <= i < targets.len() && targets[i].addr == addr ==> with_target(targets, addr, name)
            == targets,
        (forall|j: int| 0 <= j < targets.len() ==> (#[trigger] targets[j]).addr.ip != addr.ip
            || targets[j].addr.port != addr.port) ==> with_target(targets, addr, name)
            == targets.push(TargetView { addr, name, announced: false }),
        distinct_addrs(targets) ==> distinct_addrs(with_target(targets, addr, name)),
{
    let after = with_target(targets, addr, name);
    if has_addr(targets, addr) {
        let j = choose|j: int| 0 <= j < targets.len() && (#[trigger] targets[j]).addr == addr;
        assert(targets[j].addr == addr);
    } else {
        assert(after[targets.len() as int].addr == addr);
    }
}

/// A round keeps the addresses and the names.
pub proof fn rounds_keep_the_targets(targets: Seq<TargetView>, i: int)
    requires
        0 <= i < targets.len(),
    ensures
        all_announced(targets).len() == targets.len(),
        all_announced(targets)[i].addr == targets[i].addr,
        all_announced(targets)[i].name == targets[i].name,
{
}

/// A machine is woken up at most once in a round, and never again later. It is
/// where it is tried for the first time and was not woken up before.
pub proof fn machines_are_woken_once(targets: Seq<TargetView>, warmed: Set<u32>, i: int, j: int)
    requires
        0 <= i < j < targets.len(),
    ensures
        to_warm(targets, warmed, i) && to_warm(targets, warmed, j) ==> targets[i].addr.ip
            != targets[j].addr.ip,
        warmed.contains(targets[i].addr.ip) ==> !to_warm(targets, warmed, i),
        targets[i].announced ==> !to_warm(targets, warmed, i),
        !targets[0].announced && !warmed.contains(targets[0].addr.ip) ==> to_warm(
            targets,
            warmed,
            0,
        ),
        !targets[j].announced && !warmed.contains(targets[j].addr.ip) && !to_warm(
            targets,
            warmed,
            j,
        ) ==> exists|k: int|
            0 <= k < j && !(#[trigger] targets[k]).announced && targets[k].addr.ip
                == targets[j].addr.ip,
{
}

} // verus!
