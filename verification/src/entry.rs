//! When the menu opens: once the starting page has gone uninterrupted for the
//! entry delay, counted from the first tick that shows it.
use vstd::prelude::*;

use crate::render::keys::StatusKind;
use crate::settings::LiveConf;

verus! {

/// The wait for a host: when the starting page came up, while it is up.
#[derive(Clone, Copy, PartialEq, Eq, Structural, Debug)]
pub struct EntryWait {
    pub since: Option<u64>,
}

/// The wait before any tick.
pub open spec fn no_wait() -> EntryWait {
    EntryWait { since: None }
}

/// The wait after a tick at `now` that saw `kind`: any other page ends it, and
/// the first tick of the starting page begins it.
pub open spec fn waited(w: EntryWait, kind: StatusKind, now: u64) -> EntryWait {
    EntryWait {
        since: if kind != StatusKind::Boot {
            None
        } else if w.since is Some {
            w.since
        } else {
            Some(now)
        },
    }
}

/// Whether a wait has lasted the entry delay at `now`.
pub open spec fn is_due(w: EntryWait, now: u64, live: LiveConf) -> bool {
    w.since matches Some(since) && now - since >= live.entry_ms
}

impl EntryWait {
    /// No starting page was seen yet.
    pub fn new() -> (r: Self)
        ensures
            r == no_wait(),
    {
        EntryWait { since: None }
    }

    /// Take one tick of the status task, at `now_ms`; returns whether the menu
    /// opens.
    pub fn tick(&mut self, kind: StatusKind, now_ms: u64, live: &LiveConf) -> (r: bool)
        requires
            old(self).since matches Some(since) ==> since <= now_ms,
        ensures
            *final(self) == waited(*old(self), kind, now_ms),
            r == is_due(*final(self), now_ms, *live),
    {
        if kind != StatusKind::Boot {
            self.since = None;
            return false;
        }
        match self.since {
            Some(since) => now_ms - since >= live.entry_delay_ms(),
            None => {
                self.since = Some(now_ms);
                live.entry_delay_ms() == 0
            },
        }
    }
}

/// What one tick of the status task saw, and when.
pub struct Seen {
    pub kind: StatusKind,
    pub now_ms: u64,
}

/// The wait after a run of ticks.
pub open spec fn wait_after(run: Seq<Seen>) -> EntryWait
    decreases run.len(),
{
    if run.len() == 0 {
        no_wait()
    } else {
        waited(wait_after(run.drop_last()), run.last().kind, run.last().now_ms)
    }
}

/// The starting page has been up without interruption since tick `f`.
pub open spec fn starting_since(run: Seq<Seen>, f: int) -> bool {
    &&& 0 <= f < run.len()
    &&& forall|k: int| f <= k < run.len() ==> (#[trigger] run[k]).kind == StatusKind::Boot
    &&& f == 0 || run[f - 1].kind != StatusKind::Boot
}

/// A wait counts from the tick the starting page came up at, and there is none
/// exactly while another page is up.
proof fn lemma_wait_after(run: Seq<Seen>)
    requires
        run.len() > 0,
    ensures
        wait_after(run).since is Some <==> run.last().kind == StatusKind::Boot,
        wait_after(run).since matches Some(since) ==> exists|f: int|
            #[trigger] starting_since(run, f) && since == run[f].now_ms,
    decreases run.len(),
{
    let p = run.drop_last();
    let n = p.len() as int;
    if run.last().kind == StatusKind::Boot {
        if n > 0 {
            lemma_wait_after(p);
            assert(p.last() == run[n - 1]);
        }
        if n > 0 && p.last().kind == StatusKind::Boot {
            let f = choose|f: int|
                #[trigger] starting_since(p, f) && wait_after(p).since == Some(p[f].now_ms);
            assert forall|k: int| f <= k < run.len() implies (#[trigger] run[k]).kind
                == StatusKind::Boot by {
                if k < n {
                    assert(p[k] == run[k]);
                }
            }
            assert(p[f] == run[f]);
            assert(f == 0 || p[f - 1] == run[f - 1]);
            assert(starting_since(run, f));
        } else {
            assert(starting_since(run, n));
        }
    }
}

/// The menu opens at a tick exactly when every tick since the starting page came
/// up has shown it and the entry delay has passed since then. A host that
/// configures the device in between starts the count anew.
pub proof fn law_menu_opens_after_the_entry_delay(run: Seq<Seen>, live: LiveConf)
    requires
        run.len() > 0,
    ensures
        is_due(wait_after(run), run.last().now_ms, live) <==> exists|f: int|
            #[trigger] starting_since(run, f) && run.last().now_ms - run[f].now_ms >= live.entry_ms,
{
    lemma_wait_after(run);
    assert forall|f: int, g: int| #[trigger]
        starting_since(run, f) && #[trigger] starting_since(run, g) implies f == g by {
        if f < g {
            assert(run[g - 1].kind == StatusKind::Boot);
        } else if g < f {
            assert(run[f - 1].kind == StatusKind::Boot);
        }
    }
    if exists|f: int| #[trigger] starting_since(run, f) {
        assert(run[run.len() - 1].kind == StatusKind::Boot);
    }
}

} // verus!
