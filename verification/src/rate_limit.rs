//! How often something may be done within a time.
use crate::text::concat;
use crate::text_map::{lemma_mapping, mapping, TextMap};
use vstd::prelude::*;

verus! {

/// A span of time that has started, and how often something was done in it. Times are counted in
/// nanoseconds.
#[derive(Clone, Copy, Debug)]
pub struct Window {
    pub started: u64,
    pub count: u32,
    pub interval: u64,
}

impl Window {
    /// The time since the start; none, where the start lies ahead.
    pub open spec fn age(self, now: u64) -> int {
        if now >= self.started {
            now - self.started
        } else {
            0
        }
    }

    pub open spec fn live(self, now: u64) -> bool {
        self.age(now) < self.interval
    }

    fn is_live(&self, now: u64) -> (result: bool)
        ensures
            result == self.live(now),
    {
        let age: u64 = if now >= self.started {
            now - self.started
        } else {
            0
        };
        age < self.interval
    }
}

/// The windows by operation and subject.
pub struct RateLimiter {
    windows: TextMap<Window>,
}

/// The windows that have not run out.
pub open spec fn live_windows(windows: Map<Seq<char>, Window>, now: u64) -> Map<
    Seq<char>,
    Window,
> {
    windows.restrict(
        Set::new(|key: Seq<char>| windows.contains_key(key) && windows[key].live(now)),
    )
}

/// The name of a window.
pub open spec fn window_key(operation: Seq<char>, subject: Seq<char>) -> Seq<char> {
    operation + ":"@ + subject
}

/// The window that counts: the one that runs for the same interval, or a new one.
pub open spec fn current_window(
    windows: Map<Seq<char>, Window>,
    key: Seq<char>,
    interval: u64,
    now: u64,
) -> Window {
    let live = live_windows(windows, now);
    if live.contains_key(key) && live[key].interval == interval {
        live[key]
    } else {
        Window { started: now, count: 0, interval }
    }
}

/// Whether a request is allowed, and the windows after it.
pub open spec fn after_request(
    windows: Map<Seq<char>, Window>,
    key: Seq<char>,
    limit: u32,
    interval: u64,
    now: u64,
) -> (bool, Map<Seq<char>, Window>) {
    let window = current_window(windows, key, interval, now);
    let allowed = window.count < limit;
    let counted = if allowed {
        Window { count: (window.count + 1) as u32, ..window }
    } else {
        window
    };
    (allowed, live_windows(windows, now).insert(key, counted))
}

impl View for RateLimiter {
    type V = Map<Seq<char>, Window>;

    closed spec fn view(&self) -> Map<Seq<char>, Window> {
        self.windows@
    }
}

/// The windows among the first `n` that have not run out.
spec fn kept(pairs: Seq<(Seq<char>, Window)>, now: u64, n: int) -> Map<Seq<char>, Window>
    decreases n,
{
    if n <= 0 {
        Map::empty()
    } else {
        let before = kept(pairs, now, n - 1);
        let (key, window) = pairs[n - 1];
        if window.live(now) {
            before.insert(key, window)
        } else {
            before
        }
    }
}

proof fn lemma_kept(pairs: Seq<(Seq<char>, Window)>, now: u64, n: int)
    requires
        crate::text_map::ascending(pairs),
        0 <= n <= pairs.len(),
    ensures
        kept(pairs, now, n) == live_windows(mapping(pairs.take(n)), now),
    decreases n,
{
    let some = pairs.take(n);
    if n > 0 {
        lemma_kept(pairs, now, n - 1);
        let rest = pairs.take(n - 1);
        assert(some.drop_last() =~= rest);
        assert(crate::text_map::ascending(rest));
        lemma_mapping(rest);
        let (key, window) = pairs[n - 1];
        assert(!mapping(rest).contains_key(key)) by {
            if mapping(rest).contains_key(key) {
                let i = choose|i: int| 0 <= i < rest.len() && (#[trigger] rest[i]).0 == key;
                assert(crate::text_map::before(pairs[i].0, pairs[n - 1].0));
                crate::text_map::lemma_before_irreflexive(key);
            }
        }
        assert(kept(pairs, now, n) =~= live_windows(mapping(some), now));
    } else {
        assert(kept(pairs, now, n) =~= live_windows(mapping(some), now));
    }
}

impl RateLimiter {
    pub closed spec fn ok(self) -> bool {
        self.windows.ok()
    }

    pub fn new() -> (result: RateLimiter)
        ensures
            result.ok(),
            result@ == Map::<Seq<char>, Window>::empty(),
    {
        RateLimiter { windows: TextMap::new() }
    }

    /// Drops the windows that have run out.
    fn retain_live(&mut self, now: u64)
        requires
            old(self).ok(),
        ensures
            final(self).ok(),
            final(self)@ == live_windows(old(self)@, now),
    {
        let mut live: TextMap<Window> = TextMap::new();
        let mut i: usize = 0;
        let ghost pairs = self.windows.pairs();
        while i < self.windows.len()
            invariant
                i <= pairs.len(),
                pairs == self.windows.pairs(),
                live.ok(),
                live@ == kept(pairs, now, i as int),
            decreases pairs.len() - i,
        {
            let window = *self.windows.value_at(i);
            if window.is_live(now) {
                live.insert(self.windows.key_at(i).to_owned(), window);
            }
            i += 1;
        }
        proof {
            lemma_kept(pairs, now, pairs.len() as int);
            assert(pairs.take(pairs.len() as int) =~= pairs);
        }
        self.windows = live;
    }

    /// Counts one more, unless there have been `limit` within the interval.
    pub fn allow(
        &mut self,
        operation: &str,
        subject: &str,
        limit: u32,
        interval: u64,
        now: u64,
    ) -> (result: bool)
        requires
            old(self).ok(),
        ensures
            final(self).ok(),
            ({
                let key = window_key(operation@, subject@);
                let window = current_window(old(self)@, key, interval, now);
                &&& result == (window.count < limit)
                &&& final(self)@ == live_windows(old(self)@, now).insert(
                    key,
                    Window {
                        count: if result {
                            (window.count + 1) as u32
                        } else {
                            window.count
                        },
                        ..window
                    },
                )
            }),
            (result, final(self)@) == after_request(
                old(self)@,
                window_key(operation@, subject@),
                limit,
                interval,
                now,
            ),
    {
        self.retain_live(now);
        let start = concat(operation, ":");
        let key = concat(start.as_str(), subject);
        let mut window = match self.windows.get(key.as_str()) {
            Some(found) => if found.interval == interval {
                *found
            } else {
                Window { started: now, count: 0, interval }
            },
            None => Window { started: now, count: 0, interval },
        };
        let allowed = window.count < limit;
        if allowed {
            window.count = window.count + 1;
        }
        self.windows.insert(key, window);
        allowed
    }
}

// ---------------------------------------------------------------------------
// Laws
// ---------------------------------------------------------------------------

/// Different operations, and different subjects, have windows of their own, where the name of an
/// operation holds no colon.
pub proof fn law_operations_and_subjects_are_apart(
    operation: Seq<char>,
    subject: Seq<char>,
    other: Seq<char>,
    second: Seq<char>,
)
    requires
        !operation.contains(':'),
        !other.contains(':'),
        window_key(operation, subject) == window_key(other, second),
    ensures
        operation == other,
        subject == second,
{
    reveal_strlit(":");
    let key = window_key(operation, subject);
    let same = window_key(other, second);
    assert(key[operation.len() as int] == ':');
    assert(same[other.len() as int] == ':');
    if operation.len() < other.len() {
        assert(other[operation.len() as int] == same[operation.len() as int]);
        assert(other.contains(':'));
    }
    if other.len() < operation.len() {
        assert(operation[other.len() as int] == key[other.len() as int]);
        assert(operation.contains(':'));
    }
    let n = operation.len() as int;
    assert(key.take(n) =~= operation);
    assert(same.take(n) =~= other);
    assert(key.skip(n + 1) =~= subject);
    assert(same.skip(n + 1) =~= second);
}

/// A request leaves every other window as it is, however short its own interval: a window that
/// has not run out is still there, and counts the same.
pub proof fn law_other_windows_stay(
    windows: Map<Seq<char>, Window>,
    key: Seq<char>,
    window: Window,
    other: Seq<char>,
    now: u64,
)
    requires
        other != key,
        windows.contains_key(other),
        windows[other].live(now),
    ensures
        live_windows(windows, now).insert(key, window).contains_key(other),
        live_windows(windows, now).insert(key, window)[other] == windows[other],
{
}

/// Once the limit is reached, every further request is refused until the window has run out.
pub proof fn law_the_limit_holds(
    windows: Map<Seq<char>, Window>,
    key: Seq<char>,
    limit: u32,
    interval: u64,
    now: u64,
)
    requires
        windows.contains_key(key),
        windows[key].interval == interval,
        windows[key].count >= limit,
        windows[key].live(now),
    ensures
        current_window(windows, key, interval, now).count >= limit,
{
}

/// The first request starts a window, and while it runs every further one counts in it.
pub proof fn law_running_windows_count_on(
    windows: Map<Seq<char>, Window>,
    key: Seq<char>,
    interval: u64,
    start: u64,
    now: u64,
)
    requires
        interval > 0,
        start <= now < start + interval,
    ensures
        !windows.contains_key(key) ==> current_window(windows, key, interval, now) == (Window {
            started: now,
            count: 0,
            interval,
        }),
        windows.contains_key(key) && windows[key].started == start && windows[key].interval
            == interval ==> current_window(windows, key, interval, now) == windows[key],
{
}

/// A window that has run out counts no more, and neither does one of another length: the next
/// request starts a new one.
pub proof fn law_windows_start_again(
    windows: Map<Seq<char>, Window>,
    key: Seq<char>,
    interval: u64,
    now: u64,
)
    requires
        windows.contains_key(key),
        now - windows[key].started >= windows[key].interval || windows[key].interval != interval,
    ensures
        current_window(windows, key, interval, now) == (Window {
            started: now,
            count: 0,
            interval,
        }),
        now - windows[key].started >= windows[key].interval ==> !live_windows(
            windows,
            now,
        ).contains_key(key),
{
}

/// The window of an operation for a subject is named by both.
pub proof fn law_windows_are_named(operation: Seq<char>, subject: Seq<char>)
    ensures
        window_key(operation, subject) == operation.push(':') + subject,
{
    reveal_strlit(":");
    assert(window_key(operation, subject) =~= operation.push(':') + subject);
}

/// A request is allowed exactly where fewer than the limit were within the running interval, counts
/// one more where it is, and nothing where it is not; a second request at the same moment finds that
/// count.
pub proof fn law_each_allowed_request_counts(
    windows: Map<Seq<char>, Window>,
    key: Seq<char>,
    limit: u32,
    interval: u64,
    now: u64,
)
    requires
        interval > 0,
    ensures
        ({
            let running = windows.contains_key(key) && windows[key].interval == interval && (now
                < windows[key].started || now - windows[key].started < interval);
            let used = if running {
                windows[key].count as int
            } else {
                0
            };
            let (allowed, after) = after_request(windows, key, limit, interval, now);
            let (again, later) = after_request(after, key, limit, interval, now);
            &&& allowed <==> used < limit
            &&& after.contains_key(key) && after[key].interval == interval
            &&& after[key].count == if allowed {
                used + 1
            } else {
                used
            }
            &&& after[key].started == if running {
                windows[key].started
            } else {
                now
            }
            &&& again <==> allowed && used + 1 < limit
            &&& !allowed ==> later == after
        }),
{
    let (allowed, after) = after_request(windows, key, limit, interval, now);
    let (again, later) = after_request(after, key, limit, interval, now);
    assert(after[key].live(now));
    if !allowed {
        assert(live_windows(after, now) =~= after);
        assert(later =~= after);
    }
}

} // verus!
