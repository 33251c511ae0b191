//! Launching the game: the links that start it, and the book of the
//! instances that are running. Starting and watching processes is not done
//! here: the caller starts them and reports what it saw.

use vstd::prelude::*;
use vstd::string::StringExecFns;
use crate::accounts::{position_of, find_account, lemma_position_of};
use crate::error::VaultError;
use crate::profiles::{Profile, ProfileView, views};
use crate::text::{decimal, push_decimal};

verus! {

/// A running instance of the game and the account it runs for.
#[derive(Debug, Clone)]
pub struct ActiveInstance {
    pub pid: u32,
    pub account_id: String,
    pub username: String,
    pub place_id: u64,
    /// When the instance was started, in seconds since 1970.
    pub started_at: u64,
}

/// An instance as mathematics sees it.
pub struct ActiveInstanceView {
    pub pid: u32,
    pub account_id: Seq<char>,
    pub username: Seq<char>,
    pub place_id: u64,
    pub started_at: u64,
}

impl View for ActiveInstance {
    type V = ActiveInstanceView;

    open spec fn view(&self) -> ActiveInstanceView {
        ActiveInstanceView {
            pid: self.pid,
            account_id: self.account_id@,
            username: self.username@,
            place_id: self.place_id,
            started_at: self.started_at,
        }
    }
}

/// What to start: the game at its menu, or the game at a link.
#[derive(Debug, Clone)]
pub enum LaunchTarget {
    Menu,
    Link(String),
}

/// The link that starts a place, on a given server if one is named.
pub open spec fn deep_link(place_id: u64, job_id: Option<Seq<char>>) -> Seq<char> {
    match job_id {
        Some(job) => "roblox://experiences/start?placeId="@ + decimal(place_id as nat)
            + "&gameInstanceId="@ + job,
        None => "roblox://experiences/start?placeId="@ + decimal(place_id as nat),
    }
}

/// The link that starts a private server of a place.
pub open spec fn vip_deep_link(place_id: u64, link_code: Seq<char>) -> Seq<char> {
    "roblox://placeId="@ + decimal(place_id as nat) + "&linkCode="@ + link_code
}

/// A server id as a sequence of characters.
pub open spec fn job_view(job_id: Option<&str>) -> Option<Seq<char>> {
    match job_id {
        Some(job) => Some(job@),
        None => None,
    }
}

/// Whether an instance with the process id `pid` is in the list.
pub open spec fn has_pid(instances: Seq<ActiveInstanceView>, pid: u32) -> bool {
    exists|i: int| 0 <= i < instances.len() && (#[trigger] instances[i]).pid == pid
}

/// No two instances of the list have the same process id.
pub open spec fn distinct_pids(instances: Seq<ActiveInstanceView>) -> bool {
    forall|i: int, j: int|
        0 <= i < j < instances.len() ==> (#[trigger] instances[i]).pid != (
        #[trigger] instances[j]).pid
}

/// The instances of the list whose process id is not `pid`, in order.
pub open spec fn without_pid(instances: Seq<ActiveInstanceView>, pid: u32) -> Seq<
    ActiveInstanceView,
>
    decreases instances.len(),
{
    if instances.len() == 0 {
        Seq::empty()
    } else if instances.last().pid == pid {
        without_pid(instances.drop_last(), pid)
    } else {
        without_pid(instances.drop_last(), pid).push(instances.last())
    }
}

/// The instances of the list whose process id is among `pids`, in order.
pub open spec fn with_pids(instances: Seq<ActiveInstanceView>, pids: Seq<u32>) -> Seq<
    ActiveInstanceView,
>
    decreases instances.len(),
{
    if instances.len() == 0 {
        Seq::empty()
    } else if pids.contains(instances.last().pid) {
        with_pids(instances.drop_last(), pids).push(instances.last())
    } else {
        with_pids(instances.drop_last(), pids)
    }
}

/// The instances of the list whose process id is not among `pids`, in order.
pub open spec fn without_pids(instances: Seq<ActiveInstanceView>, pids: Seq<u32>) -> Seq<
    ActiveInstanceView,
>
    decreases instances.len(),
{
    if instances.len() == 0 {
        Seq::empty()
    } else if pids.contains(instances.last().pid) {
        without_pids(instances.drop_last(), pids)
    } else {
        without_pids(instances.drop_last(), pids).push(instances.last())
    }
}

/// The instances of a list, each as its view.
pub open spec fn instance_views(instances: Seq<ActiveInstance>) -> Seq<ActiveInstanceView> {
    Seq::new(instances.len(), |i: int| instances[i]@)
}

/// The list with the account that has the identifier `id` marked as played
/// at `now_ms`; the list as it is if no account has it.
pub open spec fn played(accounts: Seq<ProfileView>, id: Seq<char>, now_ms: u64) -> Seq<ProfileView> {
    match position_of(accounts, id) {
        Some(i) => accounts.update(i, ProfileView { last_played_at: now_ms, ..accounts[i] }),
        None => accounts,
    }
}

/// The first process id of `after` that is not in `before`.
pub open spec fn first_new(before: Seq<u32>, after: Seq<u32>) -> Option<u32>
    decreases after.len(),
{
    if after.len() == 0 {
        None
    } else if !before.contains(after[0]) {
        Some(after[0])
    } else {
        first_new(before, after.skip(1))
    }
}

/// The greatest of `pids`.
pub open spec fn greatest(pids: Seq<u32>) -> Option<u32>
    decreases pids.len(),
{
    if pids.len() == 0 {
        None
    } else {
        match greatest(pids.drop_last()) {
            Some(m) => Some(if pids.last() > m { pids.last() } else { m }),
            None => Some(pids.last()),
        }
    }
}

/// Removing a process id keeps the others distinct, and the id is gone.
pub proof fn lemma_without_pid(instances: Seq<ActiveInstanceView>, pid: u32)
    ensures
        !has_pid(without_pid(instances, pid), pid),
        forall|other: u32|
            other != pid ==> (#[trigger] has_pid(without_pid(instances, pid), other) <==> has_pid(
                instances,
                other,
            )),
        distinct_pids(instances) ==> distinct_pids(without_pid(instances, pid)),
        without_pid(instances, pid).len() <= instances.len(),
    decreases instances.len(),
{
    let rest = without_pid(instances, pid);
    if instances.len() > 0 {
        let front = instances.drop_last();
        let front_rest = without_pid(front, pid);
        let last = instances.last();
        lemma_without_pid(front, pid);
        if has_pid(rest, pid) {
            let i = choose|i: int| 0 <= i < rest.len() && (#[trigger] rest[i]).pid == pid;
            if i < front_rest.len() {
                assert(front_rest[i] == rest[i]);
            }
        }
        assert forall|other: u32| other != pid implies (has_pid(rest, other) <==> has_pid(
            instances,
            other,
        )) by {
            if has_pid(rest, other) {
                let i = choose|i: int| 0 <= i < rest.len() && (#[trigger] rest[i]).pid == other;
                if i < front_rest.len() {
                    assert(front_rest[i] == rest[i]);
                    assert(has_pid(front_rest, other));
                    let j = choose|j: int| 0 <= j < front.len() && (#[trigger] front[j]).pid == other;
                    assert(instances[j] == front[j]);
                } else {
                    assert(instances[instances.len() - 1].pid == other);
                }
            }
            if has_pid(instances, other) {
                let j = choose|j: int|
                    0 <= j < instances.len() && (#[trigger] instances[j]).pid == other;
                if j < front.len() {
                    assert(front[j] == instances[j]);
                    assert(has_pid(front, other));
                    assert(has_pid(front_rest, other));
                    let i = choose|i: int|
                        0 <= i < front_rest.len() && (#[trigger] front_rest[i]).pid == other;
                    assert(rest[i] == front_rest[i]);
                } else {
                    assert(rest[rest.len() - 1].pid == other);
                }
            }
        }
        if distinct_pids(instances) {
            assert(distinct_pids(front)) by {
                assert forall|i: int, j: int| 0 <= i < j < front.len() implies (
                #[trigger] front[i]).pid != (#[trigger] front[j]).pid by {
                    assert(instances[i] == front[i]);
                    assert(instances[j] == front[j]);
                }
            }
            if last.pid != pid {
                assert forall|i: int, j: int| 0 <= i < j < rest.len() implies (
                #[trigger] rest[i]).pid != (#[trigger] rest[j]).pid by {
                    assert(rest[i] == front_rest[i]);
                    if j < front_rest.len() {
                        assert(rest[j] == front_rest[j]);
                    } else {
                        assert(has_pid(front_rest, rest[i].pid));
                        assert(has_pid(front, rest[i].pid));
                        let k = choose|k: int|
                            0 <= k < front.len() && (#[trigger] front[k]).pid == rest[i].pid;
                        assert(instances[k] == front[k]);
                    }
                }
            }
        }
    }
}

/// The book of running instances: at most one instance for a process id.
#[derive(Debug)]
pub struct LauncherState {
    instances: Vec<ActiveInstance>,
}

impl View for LauncherState {
    type V = Seq<ActiveInstanceView>;

    closed spec fn view(&self) -> Seq<ActiveInstanceView> {
        instance_views(self.instances@)
    }
}

/// A copy of an instance.
fn copy_instance(instance: &ActiveInstance) -> (copy: ActiveInstance)
    ensures
        copy@ == instance@,
{
    ActiveInstance {
        pid: instance.pid,
        account_id: instance.account_id.clone(),
        username: instance.username.clone(),
        place_id: instance.place_id,
        started_at: instance.started_at,
    }
}

impl LauncherState {
    /// The rule of the book: no process id twice.
    #[verifier::type_invariant]
    spec fn in_order(self) -> bool {
        distinct_pids(instance_views(self.instances@))
    }

    /// An empty book.
    pub fn new() -> (state: Self)
        ensures
            state@.len() == 0,
    {
        LauncherState { instances: Vec::new() }
    }

    /// The instances of the book other than that of the process `pid`.
    fn others(&self, pid: u32) -> (kept: Vec<ActiveInstance>)
        ensures
            instance_views(kept@) == without_pid(self@, pid),
            distinct_pids(instance_views(kept@)),
            !has_pid(instance_views(kept@), pid),
    {
        let ghost all = self@;
        let mut kept: Vec<ActiveInstance> = Vec::new();
        let mut i: usize = 0;
        proof {
            use_type_invariant(self);
            assert(all.take(0) =~= Seq::<ActiveInstanceView>::empty());
            assert(instance_views(kept@) =~= Seq::<ActiveInstanceView>::empty());
        }
        while i < self.instances.len()
            invariant
                i <= self.instances@.len(),
                all == instance_views(self.instances@),
                instance_views(kept@) == without_pid(all.take(i as int), pid),
            decreases self.instances@.len() - i,
        {
            proof {
                assert(all.take(i + 1).drop_last() =~= all.take(i as int));
                assert(all.take(i + 1).last() == all[i as int]);
            }
            if self.instances[i].pid != pid {
                let ghost before = instance_views(kept@);
                kept.push(copy_instance(&self.instances[i]));
                proof {
                    assert(instance_views(kept@) =~= before.push(all[i as int]));
                }
            }
            i = i + 1;
        }
        proof {
            assert(all.take(all.len() as int) =~= all);
            lemma_without_pid(all, pid);
        }
        kept
    }

    /// Takes the instance with the process id `pid` out of the book, if it
    /// is there.
    pub fn remove(&mut self, pid: u32)
        ensures
            final(self)@ == without_pid(old(self)@, pid),
            !has_pid(final(self)@, pid),
    {
        let kept: Vec<ActiveInstance> = self.others(pid);
        self.instances = kept;
    }

    /// Enters `instance` into the book, in place of any instance that had
    /// its process id.
    pub fn track(&mut self, instance: ActiveInstance)
        ensures
            final(self)@ == without_pid(old(self)@, instance.pid).push(instance@),
    {
        let ghost entry = instance@;
        let mut kept: Vec<ActiveInstance> = self.others(instance.pid);
        let ghost before = instance_views(kept@);
        kept.push(instance);
        proof {
            let after = instance_views(kept@);
            assert(after =~= before.push(entry));
            assert forall|i: int, j: int| 0 <= i < j < after.len() implies (#[trigger] after[i]).pid
                != (#[trigger] after[j]).pid by {
                assert(after[i] == before[i]);
                if j < before.len() {
                    assert(after[j] == before[j]);
                }
            }
        }
        self.instances = kept;
    }

    /// The process ids of the instances in the book, in order.
    pub fn pids(&self) -> (pids: Vec<u32>)
        ensures
            pids@.len() == self@.len(),
            forall|i: int| 0 <= i < pids@.len() ==> pids@[i] == (#[trigger] self@[i]).pid,
    {
        let mut pids: Vec<u32> = Vec::new();
        let mut i: usize = 0;
        while i < self.instances.len()
            invariant
                i <= self.instances@.len(),
                pids@.len() == i,
                forall|j: int| 0 <= j < i ==> pids@[j] == (#[trigger] self@[j]).pid,
            decreases self.instances@.len() - i,
        {
            pids.push(self.instances[i].pid);
            i = i + 1;
        }
        pids
    }

    /// The instances in the book, in order. No two of them have the same
    /// process id.
    pub fn instances(&self) -> (list: Vec<ActiveInstance>)
        ensures
            instance_views(list@) == self@,
            distinct_pids(self@),
    {
        let mut list: Vec<ActiveInstance> = Vec::new();
        let mut i: usize = 0;
        proof {
            use_type_invariant(self);
        }
        while i < self.instances.len()
            invariant
                i <= self.instances@.len(),
                list@.len() == i,
                forall|j: int| 0 <= j < i ==> list@[j]@ == self.instances@[j]@,
            decreases self.instances@.len() - i,
        {
            list.push(copy_instance(&self.instances[i]));
            i = i + 1;
        }
        proof {
            assert(instance_views(list@) =~= self@);
        }
        list
    }

    /// Takes the instances whose process has ended out of the book and
    /// hands them back, in order.
    pub fn remove_dead(&mut self, dead: &[u32]) -> (gone: Vec<ActiveInstance>)
        ensures
            final(self)@ == without_pids(old(self)@, dead@),
            instance_views(gone@) == with_pids(old(self)@, dead@),
    {
        let ghost all = self@;
        let mut kept: Vec<ActiveInstance> = Vec::new();
        let mut gone: Vec<ActiveInstance> = Vec::new();
        let mut i: usize = 0;
        proof {
            use_type_invariant(&*self);
            assert(all.take(0) =~= Seq::<ActiveInstanceView>::empty());
            assert(instance_views(kept@) =~= Seq::<ActiveInstanceView>::empty());
            assert(instance_views(gone@) =~= Seq::<ActiveInstanceView>::empty());
        }
        while i < self.instances.len()
            invariant
                i <= self.instances@.len(),
                all == instance_views(self.instances@),
                instance_views(kept@) == without_pids(all.take(i as int), dead@),
                instance_views(gone@) == with_pids(all.take(i as int), dead@),
            decreases self.instances@.len() - i,
        {
            proof {
                assert(all.take(i + 1).drop_last() =~= all.take(i as int));
                assert(all.take(i + 1).last() == all[i as int]);
            }
            if contains_pid(dead, self.instances[i].pid) {
                let ghost before = instance_views(gone@);
                gone.push(copy_instance(&self.instances[i]));
                proof {
                    assert(instance_views(gone@) =~= before.push(all[i as int]));
                }
            } else {
                let ghost before = instance_views(kept@);
                kept.push(copy_instance(&self.instances[i]));
                proof {
                    assert(instance_views(kept@) =~= before.push(all[i as int]));
                }
            }
            i = i + 1;
        }
        proof {
            assert(all.take(all.len() as int) =~= all);
            lemma_without_pids_distinct(all, dead@);
        }
        self.instances = kept;
        gone
    }
}

impl Default for LauncherState {
    fn default() -> (state: Self)
        ensures
            state@.len() == 0,
    {
        LauncherState { instances: Vec::new() }
    }
}

/// Every instance that is left after a removal was there before, in the
/// same order, so distinct process ids stay distinct.
proof fn lemma_without_pids_distinct(instances: Seq<ActiveInstanceView>, pids: Seq<u32>)
    ensures
        forall|other: u32| #[trigger]
            has_pid(without_pids(instances, pids), other) ==> has_pid(instances, other),
        distinct_pids(instances) ==> distinct_pids(without_pids(instances, pids)),
    decreases instances.len(),
{
    let rest = without_pids(instances, pids);
    if instances.len() > 0 {
        let front = instances.drop_last();
        let front_rest = without_pids(front, pids);
        lemma_without_pids_distinct(front, pids);
        assert forall|other: u32| has_pid(rest, other) implies has_pid(instances, other) by {
            let i = choose|i: int| 0 <= i < rest.len() && (#[trigger] rest[i]).pid == other;
            if i < front_rest.len() {
                assert(front_rest[i] == rest[i]);
                assert(has_pid(front_rest, other));
                let j = choose|j: int| 0 <= j < front.len() && (#[trigger] front[j]).pid == other;
                assert(instances[j] == front[j]);
            } else {
                assert(instances[instances.len() - 1].pid == other);
            }
        }
        if distinct_pids(instances) {
            assert(distinct_pids(front)) by {
                assert forall|i: int, j: int| 0 <= i < j < front.len() implies (
                #[trigger] front[i]).pid != (#[trigger] front[j]).pid by {
                    assert(instances[i] == front[i]);
                    assert(instances[j] == front[j]);
                }
            }
            if !pids.contains(instances.last().pid) {
                assert forall|i: int, j: int| 0 <= i < j < rest.len() implies (
                #[trigger] rest[i]).pid != (#[trigger] rest[j]).pid by {
                    assert(rest[i] == front_rest[i]);
                    if j < front_rest.len() {
                        assert(rest[j] == front_rest[j]);
                    } else {
                        assert(has_pid(front_rest, rest[i].pid));
                        let k = choose|k: int|
                            0 <= k < front.len() && (#[trigger] front[k]).pid == rest[i].pid;
                        assert(instances[k] == front[k]);
                    }
                }
            }
        }
    }
}

/// Whether `pid` is among `pids`.
pub fn contains_pid(pids: &[u32], pid: u32) -> (found: bool)
    ensures
        found == pids@.contains(pid),
{
    let mut i: usize = 0;
    while i < pids.len()
        invariant
            i <= pids@.len(),
            forall|j: int| 0 <= j < i ==> pids@[j] != pid,
        decreases pids@.len() - i,
    {
        if pids[i] == pid {
            return true;
        }
        i = i + 1;
    }
    false
}

/// The process that appeared: the first process id of `after` that is not
/// in `before`.
pub fn find_new_pid(before: &[u32], after: &[u32]) -> (pid: Option<u32>)
    ensures
        pid == first_new(before@, after@),
{
    let mut i: usize = 0;
    proof {
        assert(after@.skip(0) =~= after@);
    }
    while i < after.len()
        invariant
            i <= after@.len(),
            first_new(before@, after@) == first_new(before@, after@.skip(i as int)),
        decreases after@.len() - i,
    {
        proof {
            assert(after@.skip(i as int).skip(1) =~= after@.skip(i + 1));
        }
        if !contains_pid(before, after[i]) {
            return Some(after[i]);
        }
        i = i + 1;
    }
    None
}

/// The greatest of `pids`: the process started last, where ids grow.
pub fn latest_pid(pids: &[u32]) -> (pid: Option<u32>)
    ensures
        pid == greatest(pids@),
{
    let mut best: Option<u32> = None;
    let mut i: usize = 0;
    proof {
        assert(pids@.take(0) =~= Seq::<u32>::empty());
    }
    while i < pids.len()
        invariant
            i <= pids@.len(),
            best == greatest(pids@.take(i as int)),
        decreases pids@.len() - i,
    {
        proof {
            assert(pids@.take(i + 1).drop_last() =~= pids@.take(i as int));
            assert(pids@.take(i + 1).last() == pids@[i as int]);
        }
        best = match best {
            Some(m) => Some(if pids[i] > m { pids[i] } else { m }),
            None => Some(pids[i]),
        };
        i = i + 1;
    }
    proof {
        assert(pids@.take(pids@.len() as int) =~= pids@);
    }
    best
}

/// The link that starts the place `place_id`, on the server `job_id` if one
/// is named.
pub fn build_deep_link(place_id: u64, job_id: Option<&str>) -> (link: String)
    ensures
        link@ == deep_link(place_id, job_view(job_id)),
{
    let mut link: String = String::from_str("roblox://experiences/start?placeId=");
    push_decimal(&mut link, place_id);
    match job_id {
        Some(job) => {
            link.append("&gameInstanceId=");
            link.append(job);
        },
        None => {},
    }
    link
}

/// The link that starts the private server `link_code` of the place
/// `place_id`.
pub fn build_vip_deep_link(place_id: u64, link_code: &str) -> (link: String)
    ensures
        link@ == vip_deep_link(place_id, link_code@),
{
    let mut link: String = String::from_str("roblox://placeId=");
    push_decimal(&mut link, place_id);
    link.append("&linkCode=");
    link.append(link_code);
    link
}

/// What to start for a place: the menu for place 0, else the link of the
/// place.
pub fn launch_target(place_id: u64, job_id: Option<&str>) -> (target: LaunchTarget)
    ensures
        match target {
            LaunchTarget::Menu => place_id == 0,
            LaunchTarget::Link(link) => place_id != 0 && link@ == deep_link(
                place_id,
                job_view(job_id),
            ),
        },
{
    if place_id == 0 {
        LaunchTarget::Menu
    } else {
        LaunchTarget::Link(build_deep_link(place_id, job_id))
    }
}

/// The account to launch: a copy of the first account with the identifier
/// `account_id`.
pub fn select_account(accounts: &Vec<Profile>, account_id: &str) -> (r: Result<
    Profile,
    VaultError,
>)
    ensures
        match r {
            Ok(account) => position_of(views(accounts@), account_id@) matches Some(i)
                && account@ == views(accounts@)[i],
            Err(e) => e == VaultError::AccountNotFound && position_of(
                views(accounts@),
                account_id@,
            ) is None,
        },
{
    match find_account(accounts, account_id) {
        Some(i) => {
            proof {
                lemma_position_of(views(accounts@), account_id@);
            }
            Ok(accounts[i].duplicate())
        },
        None => Err(VaultError::AccountNotFound),
    }
}

/// Marks the account with the identifier `account_id` as played at
/// `now_ms`.
pub fn mark_played(accounts: Vec<Profile>, account_id: &str, now_ms: u64) -> (list: Vec<Profile>)
    ensures
        views(list@) == played(views(accounts@), account_id@, now_ms),
{
    match find_account(&accounts, account_id) {
        None => accounts,
        Some(i) => {
            proof {
                lemma_position_of(views(accounts@), account_id@);
            }
            let mut marked: Profile = accounts[i].duplicate();
            marked.last_played_at = now_ms;
            let ghost before = views(accounts@);
            let mut list: Vec<Profile> = accounts;
            list.set(i, marked);
            proof {
                assert(views(list@) =~= before.update(
                    i as int,
                    ProfileView { last_played_at: now_ms, ..before[i as int] },
                ));
            }
            list
        },
    }
}

/// The entry for the process `pid` that runs the game for `account`,
/// started at `now_ms` milliseconds since 1970.
pub fn new_instance(pid: u32, account: &Profile, place_id: u64, now_ms: u64) -> (instance:
    ActiveInstance)
    ensures
        instance@ == (ActiveInstanceView {
            pid,
            account_id: account@.id,
            username: account@.username,
            place_id,
            started_at: now_ms / 1000,
        }),
{
    ActiveInstance {
        pid,
        account_id: account.id.clone(),
        username: account.username.clone(),
        place_id,
        started_at: now_ms / 1000,
    }
}

} // verus!
