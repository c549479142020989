//! Time-windowed reservations of edges and nodes.
//!
//! A robot may reserve a resource for a window of time; another robot's
//! overlapping request for the same resource is refused. Windows are
//! half-open: one that ends when another starts does not overlap it.

use vstd::prelude::*;

use crate::ids::{EdgeId, NodeId, RobotId};

verus! {

/// A point of simulation time, by its place in time order: of two points
/// the earlier has the smaller key. Reservations only compare times.
#[derive(Clone, Copy, Debug, PartialEq, Eq, Structural)]
pub struct TimePoint(pub u64);

/// The key of time zero. Keys below it stand for earlier (negative) times.
pub open spec fn zero_key() -> u64 {
    0x8000_0000_0000_0000u64
}

impl TimePoint {
    /// The point of time zero.
    pub fn zero() -> (r: Self)
        ensures
            r.0 == zero_key(),
    {
        TimePoint(0x8000_0000_0000_0000u64)
    }
}

/// A resource that can be reserved.
#[derive(Clone, Copy, Debug, PartialEq, Eq, Structural, Hash)]
pub enum ReservableResource {
    /// An edge between two nodes.
    Edge(EdgeId),
    /// A node of the map.
    Node(NodeId),
}

/// A robot's hold on a resource from `start_time` until `end_time`.
#[derive(Clone, Copy, Debug, PartialEq, Eq, Structural)]
pub struct Reservation {
    pub robot_id: RobotId,
    pub resource: ReservableResource,
    pub start_time: TimePoint,
    pub end_time: TimePoint,
}

/// A reservation overlaps the window from `start` to `end`: it starts
/// before the window ends and ends after the window starts.
pub open spec fn overlaps_window(r: Reservation, start: TimePoint, end: TimePoint) -> bool {
    r.start_time.0 < end.0 && r.end_time.0 > start.0
}

impl Reservation {
    /// A reservation of `resource` by `robot_id` from `start_time` to `end_time`.
    pub fn new(
        robot_id: RobotId,
        resource: ReservableResource,
        start_time: TimePoint,
        end_time: TimePoint,
    ) -> (r: Self)
        ensures
            r == (Reservation { robot_id, resource, start_time, end_time }),
    {
        Reservation { robot_id, resource, start_time, end_time }
    }

    /// Whether this reservation overlaps the window from `start` to `end`.
    pub fn overlaps(&self, start: TimePoint, end: TimePoint) -> (r: bool)
        ensures
            r == overlaps_window(*self, start, end),
    {
        self.start_time.0 < end.0 && self.end_time.0 > start.0
    }
}

/// The reservation that stands in the way of a request.
#[derive(Clone, Copy, Debug, PartialEq, Eq, Structural)]
pub struct ReservationConflict {
    pub resource: ReservableResource,
    pub conflicting_robot: RobotId,
    pub conflict_start: TimePoint,
    pub conflict_end: TimePoint,
}

/// Reservation `r` stands in the way of `robot` holding `resource` from
/// `start` to `end`: same resource, another robot, overlapping windows.
pub open spec fn blocks(
    r: Reservation,
    resource: ReservableResource,
    robot: RobotId,
    start: TimePoint,
    end: TimePoint,
) -> bool {
    r.resource == resource && r.robot_id != robot && overlaps_window(r, start, end)
}

/// Some reservation of `s` stands in the way of the request.
pub open spec fn any_blocks(
    s: Seq<Reservation>,
    resource: ReservableResource,
    robot: RobotId,
    start: TimePoint,
    end: TimePoint,
) -> bool {
    exists|i: int| 0 <= i < s.len() && blocks(#[trigger] s[i], resource, robot, start, end)
}

/// The conflict that reservation `r` makes.
pub open spec fn conflict_with(r: Reservation) -> ReservationConflict {
    ReservationConflict {
        resource: r.resource,
        conflicting_robot: r.robot_id,
        conflict_start: r.start_time,
        conflict_end: r.end_time,
    }
}

/// No two robots hold overlapping windows on the same resource.
pub open spec fn exclusive(s: Seq<Reservation>) -> bool {
    forall|i: int, j: int|
        0 <= i < s.len() && 0 <= j < s.len() && s[i].resource == s[j].resource && s[i].robot_id
            != s[j].robot_id ==> !overlaps_window(#[trigger] s[i], s[j].start_time, #[trigger] s[j].end_time)
}

/// The reservations of `s` that are not `robot`'s.
pub open spec fn not_of_robot(s: Seq<Reservation>, robot: RobotId) -> Seq<Reservation> {
    s.filter(|r: Reservation| r.robot_id != robot)
}

/// The reservations of `s` that are `robot`'s.
pub open spec fn of_robot(s: Seq<Reservation>, robot: RobotId) -> Seq<Reservation> {
    s.filter(|r: Reservation| r.robot_id == robot)
}

/// The reservations of `s` other than `robot`'s on `resource`.
pub open spec fn released_from(
    s: Seq<Reservation>,
    resource: ReservableResource,
    robot: RobotId,
) -> Seq<Reservation> {
    s.filter(|r: Reservation| !(r.resource == resource && r.robot_id == robot))
}

/// The reservations of `s` that end after `now`.
pub open spec fn unexpired(s: Seq<Reservation>, now: TimePoint) -> Seq<Reservation> {
    s.filter(|r: Reservation| r.end_time.0 > now.0)
}

/// The reservations of `s` that stand in the way of the request.
pub open spec fn blocking(
    s: Seq<Reservation>,
    resource: ReservableResource,
    robot: RobotId,
    start: TimePoint,
    end: TimePoint,
) -> Seq<Reservation> {
    s.filter(|r: Reservation| blocks(r, resource, robot, start, end))
}

/// Keeps the reservations for edges and nodes. When disabled, every request
/// is granted and nothing is recorded.
#[derive(Clone, Debug)]
pub struct ReservationManager {
    reservations: Vec<Reservation>,
    pub enabled: bool,
}

proof fn lemma_filter_subset(s: Seq<Reservation>, pred: spec_fn(Reservation) -> bool)
    ensures
        forall|i: int|
            0 <= i < s.filter(pred).len() ==> exists|j: int|
                0 <= j < s.len() && s[j] == #[trigger] s.filter(pred)[i],
        forall|i: int| 0 <= i < s.filter(pred).len() ==> pred(#[trigger] s.filter(pred)[i]),
    decreases s.len(),
{
    reveal(Seq::filter);
    if s.len() > 0 {
        lemma_filter_subset(s.drop_last(), pred);
        let sub = s.drop_last().filter(pred);
        assert forall|i: int| 0 <= i < s.filter(pred).len() implies exists|j: int|
            0 <= j < s.len() && s[j] == #[trigger] s.filter(pred)[i] by {
            if i < sub.len() {
                let j = choose|j: int| 0 <= j < s.drop_last().len() && s.drop_last()[j] == sub[i];
                assert(s[j] == s.filter(pred)[i]);
            } else {
                assert(s[s.len() - 1] == s.filter(pred)[i]);
            }
        }
    }
}

proof fn lemma_filter_keeps_exclusive(s: Seq<Reservation>, pred: spec_fn(Reservation) -> bool)
    requires
        exclusive(s),
    ensures
        exclusive(s.filter(pred)),
{
    lemma_filter_subset(s, pred);
    let f = s.filter(pred);
    assert forall|i: int, j: int|
        0 <= i < f.len() && 0 <= j < f.len() && f[i].resource == f[j].resource && f[i].robot_id
            != f[j].robot_id implies !overlaps_window(#[trigger] f[i], f[j].start_time, #[trigger] f[j].end_time) by {
        let a = choose|a: int| 0 <= a < s.len() && s[a] == f[i];
        let b = choose|b: int| 0 <= b < s.len() && s[b] == f[j];
        assert(!overlaps_window(s[a], s[b].start_time, s[b].end_time));
    }
}

fn filter_reservations_by_robot(v: &Vec<Reservation>, robot: RobotId, keep_robot: bool) -> (r: Vec<
    Reservation,
>)
    ensures
        keep_robot ==> r@ == of_robot(v@, robot),
        !keep_robot ==> r@ == not_of_robot(v@, robot),
{
    let mut out: Vec<Reservation> = Vec::new();
    let mut i: usize = 0;
    while i < v.len()
        invariant
            i <= v@.len(),
            keep_robot ==> out@ == of_robot(v@.subrange(0, i as int), robot),
            !keep_robot ==> out@ == not_of_robot(v@.subrange(0, i as int), robot),
        decreases v@.len() - i,
    {
        let ghost prefix = v@.subrange(0, i + 1);
        assert(prefix.drop_last() =~= v@.subrange(0, i as int));
        assert(prefix.last() == v@[i as int]);
        proof {
            reveal(Seq::filter);
        }
        let x = v[i];
        if (x.robot_id == robot) == keep_robot {
            out.push(x);
        }
        assert(keep_robot ==> out@ =~= of_robot(prefix, robot));
        assert(!keep_robot ==> out@ =~= not_of_robot(prefix, robot));
        i = i + 1;
    }
    assert(v@.subrange(0, v@.len() as int) =~= v@);
    out
}

impl ReservationManager {
    /// The reservations held, in the order they were made.
    pub closed spec fn held(&self) -> Seq<Reservation> {
        self.reservations@
    }

    /// Whether conflicting requests are refused.
    pub closed spec fn is_enabled(&self) -> bool {
        self.enabled
    }

    /// A manager with no reservations that grants every request.
    pub fn new() -> (r: Self)
        ensures
            !r.is_enabled(),
            r.held().len() == 0,
    {
        ReservationManager { reservations: Vec::new(), enabled: false }
    }

    /// A manager with no reservations that refuses conflicting requests.
    pub fn new_enabled() -> (r: Self)
        ensures
            r.is_enabled(),
            r.held().len() == 0,
    {
        ReservationManager { reservations: Vec::new(), enabled: true }
    }

    fn first_blocking(
        &self,
        resource: &ReservableResource,
        robot: RobotId,
        start: TimePoint,
        end: TimePoint,
    ) -> (r: Option<usize>)
        ensures
            match r {
                Some(i) => i < self.held().len() && blocks(
                    self.held()[i as int],
                    *resource,
                    robot,
                    start,
                    end,
                ) && forall|j: int|
                    0 <= j < i ==> !blocks(#[trigger] self.held()[j], *resource, robot, start, end),
                None => !any_blocks(self.held(), *resource, robot, start, end),
            },
    {
        let mut i: usize = 0;
        while i < self.reservations.len()
            invariant
                i <= self.reservations@.len(),
                forall|j: int|
                    0 <= j < i ==> !blocks(
                        #[trigger] self.reservations@[j],
                        *resource,
                        robot,
                        start,
                        end,
                    ),
            decreases self.reservations@.len() - i,
        {
            let r = &self.reservations[i];
            if r.resource == *resource && r.robot_id != robot && r.overlaps(start, end) {
                return Some(i);
            }
            i = i + 1;
        }
        None
    }

    /// Whether `robot` may hold `resource` from `start` to `end`: always when
    /// disabled, otherwise when no other robot's reservation of the resource
    /// overlaps the window.
    pub fn can_reserve(
        &self,
        resource: &ReservableResource,
        robot: RobotId,
        start: TimePoint,
        end: TimePoint,
    ) -> (r: bool)
        ensures
            r == (!self.is_enabled() || !any_blocks(self.held(), *resource, robot, start, end)),
    {
        if !self.enabled {
            return true;
        }
        self.first_blocking(resource, robot, start, end).is_none()
    }

    /// Reserves `resource` for `robot` from `start` to `end`. When disabled
    /// this grants the request and records nothing. Otherwise the first
    /// reservation, in the order made, by which another robot holds the
    /// resource in an overlapping window is returned as the conflict and
    /// nothing changes; with none, the reservation is recorded. No two robots
    /// ever come to hold overlapping windows on one resource.
    pub fn reserve(
        &mut self,
        resource: ReservableResource,
        robot: RobotId,
        start: TimePoint,
        end: TimePoint,
    ) -> (r: Result<(), ReservationConflict>)
        ensures
            final(self).is_enabled() == old(self).is_enabled(),
            !old(self).is_enabled() ==> r is Ok && final(self).held() == old(self).held(),
            old(self).is_enabled() && !any_blocks(old(self).held(), resource, robot, start, end) ==> {
                &&& r is Ok
                &&& final(self).held() == old(self).held().push(
                    Reservation { robot_id: robot, resource, start_time: start, end_time: end },
                )
            },
            old(self).is_enabled() && any_blocks(old(self).held(), resource, robot, start, end) ==> {
                &&& final(self).held() == old(self).held()
                &&& exists|i: int|
                    0 <= i < old(self).held().len() && blocks(
                        #[trigger] old(self).held()[i],
                        resource,
                        robot,
                        start,
                        end,
                    ) && (forall|j: int|
                        0 <= j < i ==> !blocks(
                            #[trigger] old(self).held()[j],
                            resource,
                            robot,
                            start,
                            end,
                        )) && r == Err::<(), ReservationConflict>(
                        conflict_with(old(self).held()[i]),
                    )
            },
            exclusive(old(self).held()) ==> exclusive(final(self).held()),
    {
        if !self.enabled {
            return Ok(());
        }
        match self.first_blocking(&resource, robot, start, end) {
            Some(i) => {
                let c = self.reservations[i];
                Err(
                    ReservationConflict {
                        resource: c.resource,
                        conflicting_robot: c.robot_id,
                        conflict_start: c.start_time,
                        conflict_end: c.end_time,
                    },
                )
            },
            None => {
                let ghost before = self.reservations@;
                let new_res = Reservation::new(robot, resource, start, end);
                self.reservations.push(new_res);
                proof {
                    if exclusive(before) {
                        let s = self.reservations@;
                        assert forall|i: int, j: int|
                            0 <= i < s.len() && 0 <= j < s.len() && s[i].resource
                                == s[j].resource && s[i].robot_id != s[j].robot_id implies !overlaps_window(
                            #[trigger] s[i],
                            s[j].start_time,
                            #[trigger] s[j].end_time,
                        ) by {
                            if i == s.len() - 1 && j < s.len() - 1 {
                                assert(!blocks(before[j], resource, robot, start, end));
                            } else if j == s.len() - 1 && i < s.len() - 1 {
                                assert(!blocks(before[i], resource, robot, start, end));
                            } else if i < s.len() - 1 && j < s.len() - 1 {
                                assert(before[i] == s[i] && before[j] == s[j]);
                            }
                        }
                    }
                }
                Ok(())
            },
        }
    }

    /// Drops every reservation `robot` holds.
    pub fn release_all(&mut self, robot: RobotId)
        ensures
            final(self).held() == not_of_robot(old(self).held(), robot),
            final(self).is_enabled() == old(self).is_enabled(),
            exclusive(old(self).held()) ==> exclusive(final(self).held()),
    {
        let ghost before = self.reservations@;
        self.reservations = filter_reservations_by_robot(&self.reservations, robot, false);
        proof {
            if exclusive(before) {
                lemma_filter_keeps_exclusive(before, |r: Reservation| r.robot_id != robot);
            }
        }
    }

    /// Drops the reservations `robot` holds on `resource`.
    pub fn release(&mut self, resource: &ReservableResource, robot: RobotId)
        ensures
            final(self).held() == released_from(old(self).held(), *resource, robot),
            final(self).is_enabled() == old(self).is_enabled(),
            exclusive(old(self).held()) ==> exclusive(final(self).held()),
    {
        let ghost before = self.reservations@;
        let mut out: Vec<Reservation> = Vec::new();
        let mut i: usize = 0;
        while i < self.reservations.len()
            invariant
                i <= self.reservations@.len(),
                self.reservations@ == before,
                out@ == released_from(before.subrange(0, i as int), *resource, robot),
            decreases self.reservations@.len() - i,
        {
            let ghost prefix = before.subrange(0, i + 1);
            assert(prefix.drop_last() =~= before.subrange(0, i as int));
            assert(prefix.last() == before[i as int]);
            proof {
                reveal(Seq::filter);
            }
            let x = self.reservations[i];
            if !(x.resource == *resource && x.robot_id == robot) {
                out.push(x);
            }
            assert(out@ =~= released_from(prefix, *resource, robot));
            i = i + 1;
        }
        assert(before.subrange(0, before.len() as int) =~= before);
        self.reservations = out;
        proof {
            if exclusive(before) {
                lemma_filter_keeps_exclusive(
                    before,
                    |r: Reservation| !(r.resource == *resource && r.robot_id == robot),
                );
            }
        }
    }

    /// Drops the reservations that end at or before `current_time`.
    pub fn cleanup_expired(&mut self, current_time: TimePoint)
        ensures
            final(self).held() == unexpired(old(self).held(), current_time),
            final(self).is_enabled() == old(self).is_enabled(),
            exclusive(old(self).held()) ==> exclusive(final(self).held()),
    {
        let ghost before = self.reservations@;
        let mut out: Vec<Reservation> = Vec::new();
        let mut i: usize = 0;
        while i < self.reservations.len()
            invariant
                i <= self.reservations@.len(),
                self.reservations@ == before,
                out@ == unexpired(before.subrange(0, i as int), current_time),
            decreases self.reservations@.len() - i,
        {
            let ghost prefix = before.subrange(0, i + 1);
            assert(prefix.drop_last() =~= before.subrange(0, i as int));
            assert(prefix.last() == before[i as int]);
            proof {
                reveal(Seq::filter);
            }
            let x = self.reservations[i];
            if x.end_time.0 > current_time.0 {
                out.push(x);
            }
            assert(out@ =~= unexpired(prefix, current_time));
            i = i + 1;
        }
        assert(before.subrange(0, before.len() as int) =~= before);
        self.reservations = out;
        proof {
            if exclusive(before) {
                lemma_filter_keeps_exclusive(before, |r: Reservation| r.end_time.0 > current_time.0);
            }
        }
    }

    /// The reservations by which other robots hold `resource` in windows
    /// overlapping the one from `start` to `end`, in the order made.
    pub fn get_conflicts(
        &self,
        resource: &ReservableResource,
        robot: RobotId,
        start: TimePoint,
        end: TimePoint,
    ) -> (r: Vec<Reservation>)
        ensures
            r@ == blocking(self.held(), *resource, robot, start, end),
    {
        let mut out: Vec<Reservation> = Vec::new();
        let mut i: usize = 0;
        while i < self.reservations.len()
            invariant
                i <= self.reservations@.len(),
                out@ == blocking(self.reservations@.subrange(0, i as int), *resource, robot, start, end),
            decreases self.reservations@.len() - i,
        {
            let ghost prefix = self.reservations@.subrange(0, i + 1);
            assert(prefix.drop_last() =~= self.reservations@.subrange(0, i as int));
            assert(prefix.last() == self.reservations@[i as int]);
            proof {
                reveal(Seq::filter);
            }
            let x = self.reservations[i];
            if x.resource == *resource && x.robot_id != robot && x.overlaps(start, end) {
                out.push(x);
            }
            assert(out@ =~= blocking(prefix, *resource, robot, start, end));
            i = i + 1;
        }
        assert(self.reservations@.subrange(0, self.reservations@.len() as int)
            =~= self.reservations@);
        out
    }

    /// The reservations `robot` holds, in the order made.
    pub fn get_robot_reservations(&self, robot: RobotId) -> (r: Vec<Reservation>)
        ensures
            r@ == of_robot(self.held(), robot),
    {
        filter_reservations_by_robot(&self.reservations, robot, true)
    }

    /// The number of reservations held.
    pub fn reservation_count(&self) -> (r: usize)
        ensures
            r == self.held().len(),
    {
        self.reservations.len()
    }

    /// Whether any robot holds `resource` in a window overlapping the one
    /// from `start` to `end`.
    pub fn has_reservations(
        &self,
        resource: &ReservableResource,
        start: TimePoint,
        end: TimePoint,
    ) -> (r: bool)
        ensures
            r == exists|i: int|
                0 <= i < self.held().len() && (#[trigger] self.held()[i]).resource == *resource
                    && overlaps_window(self.held()[i], start, end),
    {
        let mut i: usize = 0;
        while i < self.reservations.len()
            invariant
                i <= self.reservations@.len(),
                forall|j: int|
                    0 <= j < i ==> !((#[trigger] self.reservations@[j]).resource == *resource
                        && overlaps_window(self.reservations@[j], start, end)),
            decreases self.reservations@.len() - i,
        {
            let x = &self.reservations[i];
            if x.resource == *resource && x.overlaps(start, end) {
                assert(self.reservations@[i as int].resource == *resource);
                return true;
            }
            i = i + 1;
        }
        false
    }
}

impl Default for ReservationManager {
    fn default() -> (r: Self)
        ensures
            !r.is_enabled(),
            r.held().len() == 0,
    {
        ReservationManager::new()
    }
}

/// A window `robot` has reserved on `resource` is refused to any other
/// robot for any overlapping window, as long as it is held.
pub proof fn law_reservation_excludes_others(
    held: Seq<Reservation>,
    i: int,
    other: RobotId,
    start: TimePoint,
    end: TimePoint,
)
    requires
        0 <= i < held.len(),
        held[i].robot_id != other,
        overlaps_window(held[i], start, end),
    ensures
        any_blocks(held, held[i].resource, other, start, end),
{
    assert(blocks(held[i], held[i].resource, other, start, end));
}

/// A robot never stands in its own way: its own reservations never block
/// its requests.
pub proof fn law_own_reservations_never_block(
    held: Seq<Reservation>,
    resource: ReservableResource,
    robot: RobotId,
    start: TimePoint,
    end: TimePoint,
)
    requires
        forall|i: int| 0 <= i < held.len() ==> (#[trigger] held[i]).robot_id == robot,
    ensures
        !any_blocks(held, resource, robot, start, end),
{
}

/// After a robot releases everything, none of its reservations remain.
pub proof fn law_release_all_leaves_none(held: Seq<Reservation>, robot: RobotId)
    ensures
        of_robot(not_of_robot(held, robot), robot).len() == 0,
{
    let rest = not_of_robot(held, robot);
    lemma_filter_subset(held, |r: Reservation| r.robot_id != robot);
    lemma_filter_subset(rest, |r: Reservation| r.robot_id == robot);
    if of_robot(rest, robot).len() > 0 {
        let x = of_robot(rest, robot)[0];
        let k = choose|k: int| 0 <= k < rest.len() && rest[k] == x;
        assert(rest[k].robot_id != robot);
    }
}

} // verus!
