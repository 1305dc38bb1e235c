//! Reddit users and what can be learned from their history.
//!
//! Fetching a user's data from the Reddit API happens outside this library;
//! a [`Redditor`] is made from the parsed data.

use crate::clock::{hour_of, weekday_of, HasAge, SECONDS_PER_DAY};
use crate::thing::{Comment, Submission, User};
use vstd::prelude::*;

verus! {

/// Days in a week.
pub const DAYS_PER_WEEK: usize = 7;

/// Hours in a day.
pub const HOURS_PER_DAY: usize = 24;

/// Represents a Reddit user.
pub struct Redditor {
    username: String,
    user: User,
}

impl Redditor {
    /// The Redditor's username.
    pub closed spec fn username_view(&self) -> Seq<char> {
        self.username@
    }

    /// The Redditor's account data, comments and posts.
    pub closed spec fn user_view(&self) -> User {
        self.user
    }

    /// True if every time in the Redditor's data can be shown in local time.
    pub open spec fn wf(&self) -> bool {
        self.user_view().wf()
    }

    /// A Redditor with the given `username` and the `user` data that the
    /// Reddit API returned for that username.
    pub fn new(username: String, user: User) -> (r: Self)
        ensures
            r.username_view() == username@,
            r.user_view() == user,
    {
        Redditor { username, user }
    }

    /// The Redditor's username.
    pub fn username(&self) -> (s: String)
        ensures
            s@ == self.username_view(),
    {
        self.username.clone()
    }

    /// The instant the account was created, as a Unix timestamp.
    pub fn created_at(&self) -> (t: i64)
        ensures
            t == self.user_view().about_view().created_utc,
    {
        self.user.about().created_at()
    }

    /// Redditor's link karma.
    pub fn link_karma(&self) -> (k: i64)
        ensures
            k == self.user_view().about_view().link_karma,
    {
        self.user.about().link_karma()
    }

    /// Redditor's comment karma.
    pub fn comment_karma(&self) -> (k: i64)
        ensures
            k == self.user_view().about_view().comment_karma,
    {
        self.user.about().comment_karma()
    }

    /// Redditor's comments.
    pub fn comments(&self) -> (c: Vec<Comment>)
        ensures
            c@ == self.user_view().comments_view(),
    {
        self.user.comments()
    }

    /// Redditor's posts (articles and self posts).
    pub fn submissions(&self) -> (s: Vec<Submission>)
        ensures
            s@ == self.user_view().submissions_view(),
    {
        self.user.submissions()
    }

    /// True if the user has posted at least one comment.
    pub fn has_comments(&self) -> (b: bool)
        ensures
            b == (self.user_view().comments_view().len() > 0),
    {
        self.comments().len() > 0
    }

    /// True if the user has posted at least one article or self post.
    pub fn has_submissions(&self) -> (b: bool)
        ensures
            b == (self.user_view().submissions_view().len() > 0),
    {
        self.submissions().len() > 0
    }

    /// A timeline of the user's comments, grouped by days of the week and
    /// hours of the day in local time.
    pub fn timeline(&self) -> (t: Timeline)
        requires
            self.wf(),
            self.user_view().comments_view().len() <= u32::MAX,
        ensures
            t.wf(),
            exists|slots: Seq<(u32, u32)>|
                local_slots(self.user_view().comments_view(), slots) && #[trigger] t.counts()
                    == tallied(slots),
    {
        Timeline::for_user(self)
    }
}

impl HasAge for Redditor {
    open spec fn created_view(&self) -> i64 {
        self.user_view().about_view().created_utc
    }

    /// The instant the account was created, as a Unix timestamp.
    fn created_utc(&self) -> (t: i64) {
        self.created_at()
    }
}

/// The index of the cell for `day` (Monday is 0) and `hour` in a timeline's
/// counts.
pub open spec fn cell(day: int, hour: int) -> int {
    day * (HOURS_PER_DAY as int) + hour
}

/// True if `slot` is a day of the week and an hour of the day.
pub open spec fn valid_slot(slot: (u32, u32)) -> bool {
    slot.0 < DAYS_PER_WEEK && slot.1 < HOURS_PER_DAY
}

/// The number of entries of `slots` that fall into cell `k`.
pub open spec fn tally_of(slots: Seq<(u32, u32)>, k: int) -> nat
    decreases slots.len(),
{
    if slots.len() == 0 {
        0
    } else {
        tally_of(slots.drop_last(), k) + if cell(slots.last().0 as int, slots.last().1 as int)
            == k {
            1nat
        } else {
            0nat
        }
    }
}

/// The counts of `slots` per cell, one for each of the seven times
/// twenty-four cells.
pub open spec fn tallied(slots: Seq<(u32, u32)>) -> Seq<nat> {
    Seq::new((DAYS_PER_WEEK * HOURS_PER_DAY) as nat, |k: int| tally_of(slots, k))
}

/// The sum of `counts`.
pub open spec fn total(counts: Seq<nat>) -> nat
    decreases counts.len(),
{
    if counts.len() == 0 {
        0
    } else {
        total(counts.drop_last()) + counts.last()
    }
}

/// True if `slot` is the day of the week and hour of the day at which the
/// instant `t` falls in some time zone whose offset is less than a day.
pub open spec fn local_slot(t: i64, slot: (u32, u32)) -> bool {
    exists|offset: int|
        -SECONDS_PER_DAY < offset < SECONDS_PER_DAY && slot.0 == weekday_of(t + offset)
            && #[trigger] hour_of(t + offset) == slot.1
}

/// True if `slots` holds, for each comment in turn, the day of the week and
/// hour of the day at which it was posted, in local time.
pub open spec fn local_slots(comments: Seq<Comment>, slots: Seq<(u32, u32)>) -> bool {
    &&& slots.len() == comments.len()
    &&& forall|i: int| 0 <= i < slots.len() ==> local_slot(comments[i].created_utc, #[trigger] slots[i])
}

/// A user's comments grouped by the day of the week and the hour of the day
/// they were posted at.
pub struct Timeline {
    buckets: Vec<u32>,
}

impl Timeline {
    /// The number of comments per cell; cell [`cell(day, hour)`](cell)
    /// holds those of day `day` (Monday is 0) and hour `hour`.
    pub closed spec fn counts(&self) -> Seq<nat> {
        self.buckets@.map_values(|n: u32| n as nat)
    }

    /// True if the timeline has a count for every cell.
    pub closed spec fn wf(&self) -> bool {
        self.buckets@.len() == DAYS_PER_WEEK * HOURS_PER_DAY
    }

    /// Calculates a new timeline for the given Redditor's comments.
    pub fn for_user(user: &Redditor) -> (t: Timeline)
        requires
            user.wf(),
            user.user_view().comments_view().len() <= u32::MAX,
        ensures
            t.wf(),
            exists|slots: Seq<(u32, u32)>|
                local_slots(user.user_view().comments_view(), slots) && #[trigger] t.counts()
                    == tallied(slots),
    {
        let comments = user.comments();
        let slots = Timeline::grouped_by_weekdays_and_hours(&comments);
        let t = Timeline::group_to_matrix(&slots);
        assert(local_slots(user.user_view().comments_view(), slots@));
        t
    }

    /// The day of the week and the hour of the day, in local time, at which
    /// each of `comments` was posted.
    fn grouped_by_weekdays_and_hours(comments: &Vec<Comment>) -> (slots: Vec<(u32, u32)>)
        requires
            forall|i: int| 0 <= i < comments@.len() ==> #[trigger] comments@[i].wf(),
        ensures
            local_slots(comments@, slots@),
            forall|i: int| 0 <= i < slots@.len() ==> valid_slot(#[trigger] slots@[i]),
    {
        let mut slots: Vec<(u32, u32)> = Vec::new();
        for i in 0..comments.len()
            invariant
                forall|j: int| 0 <= j < comments@.len() ==> #[trigger] comments@[j].wf(),
                slots@.len() == i,
                forall|j: int| 0 <= j < i ==> local_slot(comments@[j].created_utc, #[trigger] slots@[j]),
                forall|j: int| 0 <= j < i ==> valid_slot(#[trigger] slots@[j]),
        {
            assert(comments@[i as int].wf());
            let local = comments[i].created_local();
            let slot = (local.weekday(), local.hour());
            proof {
                let offset = local.offset as int;
                assert(hour_of(comments@[i as int].created_utc + offset) == slot.1);
                assert(local_slot(comments@[i as int].created_utc, slot));
                assert(weekday_of(local.wall_clock()) < 7);
            }
            slots.push(slot);
        }
        slots
    }

    /// Counts `slots` per day of the week and hour of the day.
    fn group_to_matrix(slots: &Vec<(u32, u32)>) -> (t: Timeline)
        requires
            slots@.len() <= u32::MAX,
            forall|i: int| 0 <= i < slots@.len() ==> valid_slot(#[trigger] slots@[i]),
        ensures
            t.wf(),
            t.counts() == tallied(slots@),
    {
        let mut buckets: Vec<u32> = Vec::new();
        for k in 0..DAYS_PER_WEEK * HOURS_PER_DAY
            invariant
                buckets@.len() == k,
                forall|j: int| 0 <= j < k ==> buckets@[j] == 0,
        {
            buckets.push(0);
        }
        for i in 0..slots.len()
            invariant
                slots@.len() <= u32::MAX,
                forall|j: int| 0 <= j < slots@.len() ==> valid_slot(#[trigger] slots@[j]),
                buckets@.len() == DAYS_PER_WEEK * HOURS_PER_DAY,
                forall|k: int|
                    0 <= k < buckets@.len() ==> #[trigger] buckets@[k] == tally_of(slots@.take(i as int), k),
        {
            let (day, hour) = slots[i];
            assert(valid_slot(slots@[i as int]));
            let k: usize = day as usize * HOURS_PER_DAY + hour as usize;
            proof {
                let s = slots@.take(i as int + 1);
                assert(s.drop_last() =~= slots@.take(i as int));
                assert(s.last() == slots@[i as int]);
                assert forall|m: int| 0 <= m < buckets@.len() implies tally_of(s, m) == tally_of(
                    slots@.take(i as int),
                    m,
                ) + if m == k { 1nat } else { 0nat } by {}
            }
            let n = buckets[k];
            proof {
                lemma_tally_bounded(slots@.take(i as int), k as int);
            }
            buckets.set(k, n + 1);
        }
        assert(slots@.take(slots@.len() as int) =~= slots@);
        let t = Timeline { buckets };
        assert(t.counts() =~= tallied(slots@));
        t
    }

    /// The counts of one day, for each hour from 0 to 23.
    pub fn day(&self, day: usize) -> (counts: Vec<u32>)
        requires
            self.wf(),
            day < DAYS_PER_WEEK,
        ensures
            counts@.len() == HOURS_PER_DAY,
            forall|h: int|
                0 <= h < HOURS_PER_DAY ==> #[trigger] counts@[h] as nat == self.counts()[cell(
                    day as int,
                    h,
                )],
    {
        let mut counts: Vec<u32> = Vec::new();
        for h in 0..HOURS_PER_DAY
            invariant
                self.wf(),
                day < DAYS_PER_WEEK,
                counts@.len() == h,
                forall|j: int|
                    0 <= j < h ==> #[trigger] counts@[j] as nat == self.counts()[cell(day as int, j)],
        {
            counts.push(self.buckets[day * HOURS_PER_DAY + h]);
        }
        counts
    }

    /// The counts of each day of the week, paired with the day (Monday is
    /// 0), from Monday to Sunday.
    pub fn days(&self) -> (days: Vec<(u32, Vec<u32>)>)
        requires
            self.wf(),
        ensures
            days@.len() == DAYS_PER_WEEK,
            forall|d: int|
                0 <= d < DAYS_PER_WEEK ==> {
                    &&& (#[trigger] days@[d]).0 == d
                    &&& days@[d].1@.len() == HOURS_PER_DAY
                    &&& forall|h: int|
                        0 <= h < HOURS_PER_DAY ==> #[trigger] days@[d].1@[h] as nat
                            == self.counts()[cell(d, h)]
                },
    {
        let mut iter = TimelineIterator::new(self);
        let mut days: Vec<(u32, Vec<u32>)> = Vec::new();
        for d in 0..DAYS_PER_WEEK
            invariant
                self.wf(),
                iter.wf(),
                iter.timeline_counts() == self.counts(),
                iter.row() == d,
                days@.len() == d,
                forall|e: int|
                    0 <= e < days@.len() ==> {
                        &&& (#[trigger] days@[e]).0 == e
                        &&& days@[e].1@.len() == HOURS_PER_DAY
                        &&& forall|h: int|
                            0 <= h < HOURS_PER_DAY ==> #[trigger] days@[e].1@[h] as nat
                                == self.counts()[cell(e, h)]
                    },
        {
            if let Some(day) = iter.next() {
                days.push(day);
            }
        }
        days
    }
}

/// Walks a timeline day by day, from Monday to Sunday.
pub struct TimelineIterator<'a> {
    timeline: &'a Timeline,
    row: usize,
}

impl<'a> TimelineIterator<'a> {
    /// The counts of the timeline being walked.
    pub closed spec fn timeline_counts(&self) -> Seq<nat> {
        self.timeline.counts()
    }

    /// The number of days walked so far.
    pub closed spec fn row(&self) -> nat {
        self.row as nat
    }

    /// True if the walked timeline has a count for every cell.
    pub closed spec fn wf(&self) -> bool {
        self.timeline.wf() && self.row <= DAYS_PER_WEEK
    }

    /// Starts walking `timeline` at Monday.
    pub fn new(timeline: &'a Timeline) -> (it: Self)
        requires
            timeline.wf(),
        ensures
            it.wf(),
            it.timeline_counts() == timeline.counts(),
            it.row() == 0,
    {
        TimelineIterator { timeline, row: 0 }
    }

    /// The next day and its counts per hour, or `None` after Sunday.
    pub fn next(&mut self) -> (day: Option<(u32, Vec<u32>)>)
        requires
            old(self).wf(),
        ensures
            final(self).wf(),
            final(self).timeline_counts() == old(self).timeline_counts(),
            old(self).row() < DAYS_PER_WEEK ==> final(self).row() == old(self).row() + 1,
            old(self).row() >= DAYS_PER_WEEK ==> final(self).row() == old(self).row(),
            day is Some <==> old(self).row() < DAYS_PER_WEEK,
            day matches Some(d) ==> {
                &&& d.0 == old(self).row()
                &&& d.1@.len() == HOURS_PER_DAY
                &&& forall|h: int|
                    0 <= h < HOURS_PER_DAY ==> #[trigger] d.1@[h] as nat
                        == old(self).timeline_counts()[cell(old(self).row() as int, h)]
            },
    {
        if self.row < DAYS_PER_WEEK {
            let counts = self.timeline.day(self.row);
            let wday = self.row as u32;
            self.row = self.row + 1;
            Some((wday, counts))
        } else {
            None
        }
    }
}

/// The number of comments a timeline holds is the number of comments it
/// was made from: every slot falls into exactly one cell.
pub proof fn lemma_timeline_total(slots: Seq<(u32, u32)>)
    requires
        forall|i: int| 0 <= i < slots.len() ==> valid_slot(#[trigger] slots[i]),
    ensures
        total(tallied(slots)) == slots.len(),
    decreases slots.len(),
{
    if slots.len() == 0 {
        lemma_total_zero((DAYS_PER_WEEK * HOURS_PER_DAY) as nat);
        assert(tallied(slots) =~= Seq::new((DAYS_PER_WEEK * HOURS_PER_DAY) as nat, |k: int| 0nat));
    } else {
        let rest = slots.drop_last();
        assert forall|i: int| 0 <= i < rest.len() implies valid_slot(#[trigger] rest[i]) by {
            assert(rest[i] == slots[i]);
        }
        lemma_timeline_total(rest);
        let last = slots.last();
        assert(valid_slot(slots[slots.len() - 1]));
        let k = cell(last.0 as int, last.1 as int);
        assert(0 <= k < DAYS_PER_WEEK * HOURS_PER_DAY);
        assert(tallied(slots) =~= tallied(rest).update(k, tallied(rest)[k] + 1));
        lemma_total_bump(tallied(rest), k);
    }
}

/// No cell holds more entries than there are.
proof fn lemma_tally_bounded(slots: Seq<(u32, u32)>, k: int)
    ensures
        tally_of(slots, k) <= slots.len(),
    decreases slots.len(),
{
    if slots.len() > 0 {
        lemma_tally_bounded(slots.drop_last(), k);
    }
}

/// A user's timeline holds every comment once: whatever the local time
/// zone, the counts of the cells add up to the number of comments.
pub proof fn lemma_timeline_counts_every_comment(comments: Seq<Comment>, slots: Seq<(u32, u32)>)
    requires
        local_slots(comments, slots),
    ensures
        total(tallied(slots)) == comments.len(),
{
    assert forall|i: int| 0 <= i < slots.len() implies valid_slot(#[trigger] slots[i]) by {
        assert(local_slot(comments[i].created_utc, slots[i]));
        let offset = choose|offset: int|
            -SECONDS_PER_DAY < offset < SECONDS_PER_DAY && slots[i].0 == weekday_of(
                comments[i].created_utc + offset,
            ) && #[trigger] hour_of(comments[i].created_utc + offset) == slots[i].1;
        let t = comments[i].created_utc + offset;
        assert(0 <= t % 86_400 < 86_400);
        assert((t % 86_400) / 3600 < 24);
    }
    lemma_timeline_total(slots);
}

/// A sequence of `n` zeros sums to zero.
proof fn lemma_total_zero(n: nat)
    ensures
        total(Seq::new(n, |k: int| 0nat)) == 0,
    decreases n,
{
    if n > 0 {
        assert(Seq::new(n, |k: int| 0nat).drop_last() =~= Seq::new((n - 1) as nat, |k: int| 0nat));
        lemma_total_zero((n - 1) as nat);
    }
}

/// Adding one to an entry adds one to the sum.
proof fn lemma_total_bump(counts: Seq<nat>, k: int)
    requires
        0 <= k < counts.len(),
    ensures
        total(counts.update(k, counts[k] + 1)) == total(counts) + 1,
    decreases counts.len(),
{
    let bumped = counts.update(k, counts[k] + 1);
    if k == counts.len() - 1 {
        assert(bumped.drop_last() =~= counts.drop_last());
    } else {
        assert(bumped.drop_last() =~= counts.drop_last().update(k, counts[k] + 1));
        lemma_total_bump(counts.drop_last(), k);
    }
}

} // verus!
