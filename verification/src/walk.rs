//! Traversal with an inherited tag stack.
//!
//! A walker visits filesystem entries in depth-first order and reports, for
//! each, its path, its depth and whether it is a directory; for directories
//! it also reports the directory's sidecar manifest. The traversal state
//! machine assigns document ids, maintains the stack of open directories,
//! and computes the full tag set of every visited entry: the `dirtags` of
//! every stack frame, then the file-scoped tags of the nearest manifest.
//!
//! The machine is specified by a ghost interpreter: `TState::after_step`,
//! `TState::rec_parent` and `TState::rec_tags` say exactly what one step
//! does, and `state_at` folds them over an event list.

use vstd::prelude::*;

use crate::doctags::DocTags;
use crate::doctags::filetags_lookup;
use crate::doctags::push_clone;

verus! {

/// One frame of the traversal stack: the id of an open directory and its
/// manifest.
pub struct DocTagsStackEntry {
    /// id of current directory
    pub id: u64,
    /// doctags of current directory
    pub doctags: DocTags,
}

/// One walker event: a visited entry.
pub struct WalkEvent {
    /// Absolute, canonicalized path of the entry.
    pub path: String,
    /// Depth below the base directory; the base itself has depth 0.
    pub depth: usize,
    /// Whether the entry is a directory.
    pub is_dir: bool,
    /// The directory's manifest; empty for non-directories.
    pub doctags: DocTags,
}

/// One emitted document record.
pub struct Record {
    pub id: u64,
    pub parent_id: u64,
    pub path: String,
    pub tags: Vec<String>,
}

/// The sentinel parent id of a base-directory root.
pub const NO_PARENT: u64 = u64::MAX;

/// The id of the first emitted document; ids 0 and 1 are reserved (1 is the
/// virtual filesystem root).
pub const FIRST_ID: u64 = 2;

/// The concatenation of the directory-scoped tags of every stack frame,
/// outermost first.
pub open spec fn dirtags_concat(stack: Seq<DocTagsStackEntry>) -> Seq<Seq<char>> {
    stack.map_values(|e: DocTagsStackEntry| e.doctags.dirtags_view()).flatten()
}

/// The full tag set of an entry: every inherited dirtag, then the
/// file-scoped tags that the top manifest records for the entry's path.
pub open spec fn all_tags_spec(stack: Seq<DocTagsStackEntry>, path: Seq<char>) -> Seq<Seq<char>>
    recommends
        stack.len() > 0,
{
    dirtags_concat(stack) + filetags_lookup(stack.last().doctags.filetags@, path)
}

proof fn lemma_dirtags_concat_take_step(stack: Seq<DocTagsStackEntry>, i: int)
    requires
        0 <= i < stack.len(),
    ensures
        dirtags_concat(stack.take(i + 1)) == dirtags_concat(stack.take(i))
            + stack[i].doctags.dirtags_view(),
{
    let f = |e: DocTagsStackEntry| e.doctags.dirtags_view();
    assert(stack.take(i + 1).map_values(f) =~= stack.take(i).map_values(f).push(f(stack[i])));
    stack.take(i).map_values(f).lemma_flatten_push(f(stack[i]));
}

/// Collect tags of traversed directories: the dirtags of every frame, then
/// the filetags that the top manifest holds for `path`.
pub fn all_tags(stack: &Vec<DocTagsStackEntry>, path: &str) -> (r: Vec<String>)
    requires
        stack@.len() > 0,
    ensures
        r.deep_view() == all_tags_spec(stack@, path@),
{
    let n = stack.len();
    let mut r: Vec<String> = Vec::new();
    let mut i: usize = 0;
    assert(dirtags_concat(stack@.take(0)) =~= Seq::<Seq<char>>::empty()) by {
        assert(stack@.take(0).map_values(
            |e: DocTagsStackEntry| e.doctags.dirtags_view(),
        ) =~= Seq::<Seq<Seq<char>>>::empty());
    }
    assert(r.deep_view() =~= dirtags_concat(stack@.take(0)));
    while i < n
        invariant
            n == stack@.len(),
            0 <= i <= n,
            r.deep_view() == dirtags_concat(stack@.take(i as int)),
        decreases n - i,
    {
        let dirtags = &stack[i].doctags.dirtags;
        let m = dirtags.len();
        let mut j: usize = 0;
        assert(dirtags.deep_view().take(0) =~= Seq::<Seq<char>>::empty());
        assert(r.deep_view() =~= dirtags_concat(stack@.take(i as int)) + dirtags.deep_view().take(
            0,
        ));
        while j < m
            invariant
                n == stack@.len(),
                0 <= i < n,
                m == dirtags@.len(),
                dirtags == &stack@[i as int].doctags.dirtags,
                0 <= j <= m,
                r.deep_view() == dirtags_concat(stack@.take(i as int))
                    + dirtags.deep_view().take(j as int),
            decreases m - j,
        {
            push_clone(&mut r, &dirtags[j]);
            assert(r.deep_view() =~= dirtags_concat(stack@.take(i as int))
                + dirtags.deep_view().take(j + 1));
            j = j + 1;
        }
        proof {
            assert(dirtags.deep_view().take(m as int) =~= stack@[i as int].doctags.dirtags_view());
            lemma_dirtags_concat_take_step(stack@, i as int);
        }
        i = i + 1;
    }
    assert(stack@.take(n as int) =~= stack@);
    let top = &stack[n - 1];
    match top.doctags.filetags_get(path) {
        Some(filetags) => {
            let m = filetags.len();
            let mut j: usize = 0;
            assert(filetags.deep_view().take(0) =~= Seq::<Seq<char>>::empty());
            assert(r.deep_view() =~= dirtags_concat(stack@) + filetags.deep_view().take(0));
            while j < m
                invariant
                    m == filetags@.len(),
                    stack@.len() > 0,
                    filetags.deep_view() == filetags_lookup(
                        stack@.last().doctags.filetags@,
                        path@,
                    ),
                    0 <= j <= m,
                    r.deep_view() == dirtags_concat(stack@) + filetags.deep_view().take(j as int),
                decreases m - j,
            {
                push_clone(&mut r, &filetags[j]);
                assert(r.deep_view() =~= dirtags_concat(stack@) + filetags.deep_view().take(
                    j + 1,
                ));
                j = j + 1;
            }
            assert(filetags.deep_view().take(m as int) =~= filetags.deep_view());
            assert(r.deep_view() =~= all_tags_spec(stack@, path@));
        },
        None => {
            assert(r.deep_view() =~= all_tags_spec(stack@, path@));
        },
    }
    r
}

/// The ghost image of a traversal state.
pub ghost struct TState {
    pub next_id: int,
    pub depth: nat,
    pub stack: Seq<DocTagsStackEntry>,
}

/// A traversal stack truncated to length `d`, when it is longer.
pub open spec fn strunc(st: Seq<DocTagsStackEntry>, d: nat) -> Seq<DocTagsStackEntry> {
    if d <= st.len() {
        st.take(d as int)
    } else {
        st
    }
}

impl TState {
    /// The stack as one step observes it, after ascending: truncated when
    /// the event lies higher than the entry seen last.
    pub open spec fn entered_stack(self, ev: WalkEvent) -> Seq<DocTagsStackEntry> {
        if (ev.depth as nat) < self.depth {
            strunc(self.stack, ev.depth as nat)
        } else {
            self.stack
        }
    }

    /// Whether one step can run: ids are not exhausted, a parent frame is
    /// at hand where one is needed, and a top manifest exists for the tag
    /// lookup.
    pub open spec fn can_step(self, ev: WalkEvent) -> bool {
        &&& 0 <= self.next_id < u64::MAX
        &&& (ev.depth > 0 ==> self.entered_stack(ev).len() > 0)
        &&& (ev.is_dir || self.entered_stack(ev).len() > 0)
    }

    /// The stack after one step: the entered stack, with the event's
    /// directory frame pushed when the event is a directory.
    pub open spec fn stack_after(self, ev: WalkEvent) -> Seq<DocTagsStackEntry> {
        if ev.is_dir {
            self.entered_stack(ev).push(
                DocTagsStackEntry { id: self.next_id as u64, doctags: ev.doctags },
            )
        } else {
            self.entered_stack(ev)
        }
    }

    /// The traversal state after one step.
    pub open spec fn after_step(self, ev: WalkEvent) -> TState {
        TState { next_id: self.next_id + 1, depth: ev.depth as nat, stack: self.stack_after(ev) }
    }

    /// The parent id that one step records: the id at the top of the
    /// entered stack, or the sentinel for a base-directory root.
    pub open spec fn rec_parent(self, ev: WalkEvent) -> u64 {
        if ev.depth > 0 {
            self.entered_stack(ev).last().id
        } else {
            NO_PARENT
        }
    }

    /// The tags that one step records for the event: the stack is brought
    /// up to date first, so a directory observes its own dirtags.
    pub open spec fn rec_tags(self, ev: WalkEvent) -> Seq<Seq<char>> {
        all_tags_spec(self.stack_after(ev), ev.path@)
    }
}

/// The ghost state that a walk of one base directory starts from.
pub open spec fn base_state(next_id: u64) -> TState {
    TState { next_id: next_id as int, depth: 0, stack: Seq::empty() }
}

/// The ghost state after the first `i` of a base directory's events.
pub open spec fn state_at(s0: TState, events: Seq<WalkEvent>, i: int) -> TState
    decreases i,
{
    if i <= 0 {
        s0
    } else {
        state_at(s0, events, i - 1).after_step(events[i - 1])
    }
}

/// Whether a whole event list can run from a starting state.
pub open spec fn machine_ok(s0: TState, events: Seq<WalkEvent>) -> bool {
    forall|i: int|
        0 <= i < events.len() ==> state_at(s0, events, i).can_step(#[trigger] events[i])
}

/// Ids grow by one per step.
pub proof fn lemma_next_id_at(s0: TState, events: Seq<WalkEvent>, i: int)
    requires
        0 <= i <= events.len(),
    ensures
        state_at(s0, events, i).next_id == s0.next_id + i,
    decreases i,
{
    if i > 0 {
        lemma_next_id_at(s0, events, i - 1);
    }
}

/// The traversal state: the next id to assign, the depth of the entry seen
/// last, and the stack of open directories.
pub struct Traversal {
    pub next_id: u64,
    pub depth: usize,
    pub stack: Vec<DocTagsStackEntry>,
}

impl Traversal {
    /// The ghost image of this state.
    pub open spec fn tstate(self) -> TState {
        TState { next_id: self.next_id as int, depth: self.depth as nat, stack: self.stack@ }
    }

    /// A fresh traversal: ids start at `FIRST_ID`, the stack is empty.
    pub fn new() -> (r: Traversal)
        ensures
            r.tstate() == base_state(FIRST_ID),
            r.next_id == FIRST_ID,
    {
        let r = Traversal { next_id: FIRST_ID, depth: 0, stack: Vec::new() };
        assert(r.tstate() =~= base_state(FIRST_ID));
        r
    }

    /// Starts a new base directory: the stack and depth reset, ids go on.
    pub fn begin_base(&mut self)
        ensures
            final (self).tstate() == base_state(old(self).next_id),
            final (self).next_id == old(self).next_id,
    {
        self.depth = 0;
        self.stack = Vec::new();
        assert(self.tstate() =~= base_state(self.next_id));
    }

    /// Runs one walker event: ascends or descends, assigns the next id,
    /// records the parent from the stack top, opens a visited directory
    /// before its tags are collected, and computes the entry's tags.
    pub fn step(&mut self, ev: WalkEvent) -> (r: Record)
        requires
            old(self).tstate().can_step(ev),
        ensures
            final (self).tstate() == old(self).tstate().after_step(ev),
            r.id == old(self).next_id,
            r.parent_id == old(self).tstate().rec_parent(ev),
            r.path@ == ev.path@,
            r.tags.deep_view() == old(self).tstate().rec_tags(ev),
    {
        let WalkEvent { path, depth, is_dir, doctags } = ev;
        if depth > self.depth {
            self.depth = depth;
        } else if depth < self.depth {
            self.depth = depth;
            self.stack.truncate(depth);
        }
        assert(self.stack@ == old(self).tstate().entered_stack(ev));
        let id = self.next_id;
        self.next_id = self.next_id + 1;
        let parent_id = if depth > 0 {
            self.stack[self.stack.len() - 1].id
        } else {
            NO_PARENT
        };
        if is_dir {
            self.stack.push(DocTagsStackEntry { id, doctags });
        }
        assert(self.stack@ == old(self).tstate().stack_after(ev));
        let tags = all_tags(&self.stack, path.as_str());
        assert(self.tstate() =~= old(self).tstate().after_step(ev));
        Record { id, parent_id, path, tags }
    }

    /// Decides whether a whole event list can run from the current id
    /// counter with a fresh stack: ids do not run out, and a parent frame
    /// and a top manifest are at hand wherever a step needs one. A caller
    /// holding an unchecked event list tests this first and refuses the
    /// walk instead of stopping midway.
    pub fn admissible(&self, events: &Vec<WalkEvent>) -> (b: bool)
        ensures
            b == machine_ok(base_state(self.next_id), events@),
    {
        let ghost s0 = base_state(self.next_id);
        let mut next_id = self.next_id;
        let mut depth: usize = 0;
        let mut stack_len: usize = 0;
        let n = events.len();
        let mut i: usize = 0;
        while i < n
            invariant
                n == events@.len(),
                0 <= i <= n,
                stack_len <= i,
                s0 == base_state(self.next_id),
                forall|j: int|
                    0 <= j < i ==> state_at(s0, events@, j).can_step(#[trigger] events@[j]),
                next_id == state_at(s0, events@, i as int).next_id,
                depth == state_at(s0, events@, i as int).depth,
                stack_len == state_at(s0, events@, i as int).stack.len(),
            decreases n - i,
        {
            let ev = &events[i];
            let entered_len: usize = if ev.depth < depth {
                if ev.depth <= stack_len {
                    ev.depth
                } else {
                    stack_len
                }
            } else {
                stack_len
            };
            proof {
                assert(entered_len == state_at(s0, events@, i as int).entered_stack(
                    events@[i as int],
                ).len());
            }
            if next_id == u64::MAX {
                assert(!state_at(s0, events@, i as int).can_step(events@[i as int]));
                return false;
            }
            if ev.depth > 0 && entered_len == 0 {
                assert(!state_at(s0, events@, i as int).can_step(events@[i as int]));
                return false;
            }
            if !ev.is_dir && entered_len == 0 {
                assert(!state_at(s0, events@, i as int).can_step(events@[i as int]));
                return false;
            }
            assert(state_at(s0, events@, i as int).can_step(events@[i as int]));
            stack_len = entered_len + (if ev.is_dir {
                1
            } else {
                0
            });
            depth = ev.depth;
            next_id = next_id + 1;
            i = i + 1;
        }
        true
    }

    /// Walks one base directory: resets the stack, then runs every event in
    /// order. The records carry consecutive ids from the current counter,
    /// the events' paths, and the parents and tags that the ghost
    /// interpreter assigns.
    pub fn walk_base(&mut self, events: Vec<WalkEvent>) -> (r: Vec<Record>)
        requires
            machine_ok(base_state(old(self).next_id), events@),
        ensures
            r@.len() == events@.len(),
            forall|i: int|
                0 <= i < events@.len() ==> {
                    let s = state_at(base_state(old(self).next_id), events@, i);
                    &&& (#[trigger] r@[i]).id == old(self).next_id + i
                    &&& r@[i].parent_id == s.rec_parent(events@[i])
                    &&& r@[i].path@ == events@[i].path@
                    &&& r@[i].tags.deep_view() == s.rec_tags(events@[i])
                },
            final (self).tstate() == state_at(
                base_state(old(self).next_id),
                events@,
                events@.len() as int,
            ),
    {
        let ghost s0 = base_state(old(self).next_id);
        let ghost evs = events@;
        self.begin_base();
        let mut events = events;
        let mut r: Vec<Record> = Vec::new();
        let n = events.len();
        let mut i: usize = 0;
        while i < n
            invariant
                n == evs.len(),
                0 <= i <= n,
                events@ == evs.skip(i as int),
                machine_ok(s0, evs),
                self.tstate() == state_at(s0, evs, i as int),
                r@.len() == i,
                forall|j: int|
                    0 <= j < i ==> {
                        let s = state_at(s0, evs, j);
                        &&& (#[trigger] r@[j]).id == s0.next_id + j
                        &&& r@[j].parent_id == s.rec_parent(evs[j])
                        &&& r@[j].path@ == evs[j].path@
                        &&& r@[j].tags.deep_view() == s.rec_tags(evs[j])
                    },
            decreases n - i,
        {
            let ev = events.remove(0);
            assert(ev == evs[i as int]);
            proof {
                lemma_next_id_at(s0, evs, i as int);
            }
            let rec = self.step(ev);
            r.push(rec);
            assert(events@ =~= evs.skip(i + 1));
            i = i + 1;
        }
        r
    }
}


/// `p` is a strict prefix of `q`, with a path separator directly after.
pub open spec fn strict_prefix_sep(p: Seq<char>, q: Seq<char>) -> bool {
    &&& p.len() < q.len()
    &&& q.take(p.len() as int) == p
    &&& q[p.len() as int] == '/'
}

/// Event `j` is a directory at depth `l` whose subtree is still open when
/// event `i` arrives: nothing between them ascends to depth `l` or above.
pub open spec fn open_dir_at(events: Seq<WalkEvent>, j: int, i: int, l: int) -> bool {
    &&& 0 <= j < i <= events.len()
    &&& events[j].is_dir
    &&& events[j].depth == l
    &&& forall|k: int| j < k < i ==> (#[trigger] events[k]).depth > l
}

/// Event `j` is the still-open directory one level above event `i`.
pub open spec fn open_ancestor(events: Seq<WalkEvent>, j: int, i: int) -> bool {
    &&& 0 <= j < i < events.len()
    &&& events[i].depth > 0
    &&& open_dir_at(events, j, i, events[i].depth - 1)
}

/// Well-formed walker event lists, as a depth-first walk of real
/// directory trees emits them: depths start at 0 and deepen by one at a
/// time, only into a directory; a directory is never directly followed by
/// a sibling at its own depth (its children come first, or the walk
/// ascends); a still-open ancestor's path is a strict prefix of the
/// descendant's path at a separator; and conversely, a directory whose
/// path is a strict prefix of a later event's path still encloses
/// everything up to that event.
pub open spec fn events_wf(events: Seq<WalkEvent>) -> bool {
    &&& events.len() > 0 ==> events[0].depth == 0
    &&& forall|i: int|
        0 < i < events.len() ==> (#[trigger] events[i]).depth <= events[i - 1].depth + 1
    &&& forall|i: int|
        0 < i < events.len() && (#[trigger] events[i]).depth == events[i - 1].depth + 1
            ==> events[i - 1].is_dir
    &&& forall|i: int|
        0 < i < events.len() && events[i - 1].is_dir ==> (#[trigger] events[i]).depth
            != events[i - 1].depth
    &&& forall|j: int, i: int|
        #[trigger] open_ancestor(events, j, i) ==> strict_prefix_sep(
            events[j].path@,
            events[i].path@,
        )
    &&& forall|j: int, i: int|
        0 <= j < i < events.len() && (#[trigger] events[j]).is_dir && strict_prefix_sep(
            events[j].path@,
            (#[trigger] events[i]).path@,
        ) ==> (forall|k: int| j < k <= i ==> (#[trigger] events[k]).depth > events[j].depth)
}

/// How long the stack is after the first `i` events.
pub open spec fn expected_len(events: Seq<WalkEvent>, i: int) -> int {
    if i <= 0 {
        0
    } else if events[i - 1].is_dir {
        events[i - 1].depth + 1
    } else {
        events[i - 1].depth as int
    }
}

/// A stack frame at level `l` holds the id and manifest of the still-open
/// directory at that depth.
pub open spec fn frame_models(
    s0: TState,
    events: Seq<WalkEvent>,
    i: int,
    l: int,
    e: DocTagsStackEntry,
) -> bool {
    exists|j: int|
        #[trigger] open_dir_at(events, j, i, l) && e.id == s0.next_id + j && e.doctags == events[
            j
        ].doctags
}

/// The whole stack models the chain of still-open directories.
pub open spec fn stack_models(s0: TState, events: Seq<WalkEvent>, i: int) -> bool {
    let s = state_at(s0, events, i);
    &&& s.stack.len() == expected_len(events, i)
    &&& (i == 0 ==> s.depth == 0)
    &&& (i > 0 ==> s.depth == events[i - 1].depth)
    &&& forall|l: int| 0 <= l < s.stack.len() ==> frame_models(s0, events, i, l, #[trigger] s.stack[l])
}

/// The stack a step observes, after ascending, has exactly one frame per
/// ancestor level of the arriving event, each still open.
pub proof fn lemma_entered_models(s0: TState, events: Seq<WalkEvent>, i: int)
    requires
        events_wf(events),
        machine_ok(s0, events),
        s0.stack.len() == 0,
        s0.depth == 0,
        s0.next_id >= 0,
        0 <= i < events.len(),
    ensures
        state_at(s0, events, i).entered_stack(events[i]).len() == events[i].depth,
        forall|l: int|
            0 <= l < events[i].depth ==> frame_models(
                s0,
                events,
                i,
                l,
                #[trigger] state_at(s0, events, i).entered_stack(events[i])[l],
            ),
    decreases i, 1int,
{
    lemma_stack_models(s0, events, i);
    let s = state_at(s0, events, i);
    let ev = events[i];
    let st = s.stack;
    let entered = s.entered_stack(ev);
    let d = ev.depth as int;
    if i == 0 {
        assert(d == 0);
        assert(entered =~= st);
    } else {
        let pd = events[i - 1].depth as int;
        assert(s.depth == pd);
        assert(st.len() == expected_len(events, i));
        if d == pd + 1 {
            assert(events[i - 1].is_dir);
            assert(st.len() == pd + 1);
            assert(entered == st);
        } else if d == pd {
            assert(!events[i - 1].is_dir);
            assert(st.len() == pd);
            assert(entered == st);
        } else {
            assert(d <= pd + 1);
            assert(d < pd);
            assert(st.len() >= d);
            assert(entered == st.take(d));
        }
    }
    assert(entered.len() == d);
    assert forall|l: int| 0 <= l < d implies frame_models(s0, events, i, l, entered[l]) by {
        assert(entered[l] == st[l]);
        assert(frame_models(s0, events, i, l, st[l]));
    }
}

/// A directory still open at event `i-1` stays open at event `i` when
/// that event lies deeper.
proof fn lemma_open_extend(events: Seq<WalkEvent>, j: int, i: int, l: int)
    requires
        open_dir_at(events, j, i - 1, l),
        i <= events.len(),
        events[i - 1].depth > l,
    ensures
        open_dir_at(events, j, i, l),
{
}

/// The traversal stack models the open-directory chain after any number
/// of steps.
#[verifier::rlimit(100)]
#[verifier::spinoff_prover]
pub proof fn lemma_stack_models(s0: TState, events: Seq<WalkEvent>, i: int)
    requires
        events_wf(events),
        machine_ok(s0, events),
        s0.stack.len() == 0,
        s0.depth == 0,
        s0.next_id >= 0,
        0 <= i <= events.len(),
    ensures
        stack_models(s0, events, i),
    decreases i, 0int,
{
    if i == 0 {
        return ;
    }
    lemma_entered_models(s0, events, i - 1);
    lemma_next_id_at(s0, events, i - 1);
    let s = state_at(s0, events, i - 1);
    let ev = events[i - 1];
    let entered = s.entered_stack(ev);
    let d = ev.depth as int;
    let s2 = state_at(s0, events, i);
    assert(s.can_step(ev));
    assert forall|l: int| 0 <= l < d implies frame_models(s0, events, i, l, entered[l]) by {
        assert(frame_models(s0, events, i - 1, l, entered[l]));
        let j = choose|j: int|
            #[trigger] open_dir_at(events, j, i - 1, l) && entered[l].id == s0.next_id + j
                && entered[l].doctags == events[j].doctags;
        lemma_open_extend(events, j, i, l);
        assert(open_dir_at(events, j, i, l) && entered[l].id == s0.next_id + j
            && entered[l].doctags == events[j].doctags);
    }
    if ev.is_dir {
        let pushed = DocTagsStackEntry { id: s.next_id as u64, doctags: ev.doctags };
        assert(s2.stack == entered.push(pushed));
        assert(open_dir_at(events, i - 1, i, d));
        assert(pushed.id == s0.next_id + (i - 1));
        assert(frame_models(s0, events, i, d, pushed));
        assert forall|l: int| 0 <= l < s2.stack.len() implies frame_models(
            s0,
            events,
            i,
            l,
            s2.stack[l],
        ) by {
            if l < d {
                assert(s2.stack[l] == entered[l]);
            } else {
                assert(s2.stack[l] == pushed);
            }
        }
    } else {
        assert(s2.stack == entered);
    }
    assert(s2.stack.len() == expected_len(events, i));
    assert(s2.depth == events[i - 1].depth);
}

/// Tag inclusion: a directory's tags reach every entry below it. For any
/// directory event whose path strictly prefixes a later event's path (or
/// the directory event itself), every dirtag of its manifest stands in
/// the recorded tags of that later event.
pub proof fn lemma_tag_inclusion(
    s0: TState,
    events: Seq<WalkEvent>,
    j: int,
    i: int,
    t: Seq<char>,
)
    requires
        events_wf(events),
        machine_ok(s0, events),
        s0.stack.len() == 0,
        s0.depth == 0,
        s0.next_id >= 0,
        0 <= j <= i < events.len(),
        events[j].is_dir,
        events[j].doctags.dirtags_view().contains(t),
        j == i || strict_prefix_sep(events[j].path@, events[i].path@),
    ensures
        state_at(s0, events, i).rec_tags(events[i]).contains(t),
{
    lemma_entered_models(s0, events, i);
    let s = state_at(s0, events, i);
    let ev = events[i];
    let entered = s.entered_stack(ev);
    let stack2 = s.stack_after(ev);
    let d = ev.depth as int;
    if j == i {
        assert(stack2 == entered.push(
            DocTagsStackEntry { id: s.next_id as u64, doctags: ev.doctags },
        ));
        assert(stack2[d].doctags == events[j].doctags);
        lemma_concat_contains(stack2, d, t);
    } else {
        let l = events[j].depth as int;
        assert(forall|k: int| j < k <= i ==> (#[trigger] events[k]).depth > l);
        assert(events[i].depth > l);
        assert(open_dir_at(events, j, i, l));
        assert(frame_models(s0, events, i, l, entered[l]));
        let j2 = choose|j2: int|
            #[trigger] open_dir_at(events, j2, i, l) && entered[l].id == s0.next_id + j2
                && entered[l].doctags == events[j2].doctags;
        if j2 < j {
            assert(events[j].depth > l);
            assert(false);
        }
        if j < j2 {
            assert(events[j2].depth > l);
            assert(false);
        }
        assert(j2 == j);
        assert(entered[l].doctags == events[j].doctags);
        assert(stack2[l] == entered[l]);
        lemma_concat_contains(stack2, l, t);
    }
    let m = choose|m: int| 0 <= m < dirtags_concat(stack2).len() && dirtags_concat(stack2)[m] == t;
    assert(s.rec_tags(ev)[m] == t);
    assert(s.rec_tags(ev).contains(t));
}

/// A tag held by one frame's manifest stands in the concatenation of the
/// whole stack's dirtags.
proof fn lemma_concat_contains(stack: Seq<DocTagsStackEntry>, l: int, t: Seq<char>)
    requires
        0 <= l < stack.len(),
        stack[l].doctags.dirtags_view().contains(t),
    ensures
        dirtags_concat(stack).contains(t),
        exists|m: int|
            0 <= m < dirtags_concat(stack).len() && dirtags_concat(stack)[m] == t,
    decreases stack.len(),
{
    let f = |e: DocTagsStackEntry| e.doctags.dirtags_view();
    if l == 0 {
        let m = choose|m: int|
            0 <= m < stack[0].doctags.dirtags_view().len() && stack[0].doctags.dirtags_view()[m]
                == t;
        assert(stack.map_values(f).len() > 0);
        assert(stack.map_values(f).first() == f(stack[0]));
        assert(dirtags_concat(stack) == stack.map_values(f).first().add(
            stack.map_values(f).drop_first().flatten(),
        ));
        assert(dirtags_concat(stack)[m] == t);
        assert(dirtags_concat(stack).contains(t));
    } else {
        lemma_concat_contains(stack.drop_first(), l - 1, t);
        assert(stack.drop_first().map_values(f) =~= stack.map_values(f).drop_first());
        let m = choose|m: int|
            0 <= m < dirtags_concat(stack.drop_first()).len() && dirtags_concat(
                stack.drop_first(),
            )[m] == t;
        assert(stack.map_values(f).len() > 0);
        assert(dirtags_concat(stack) == stack.map_values(f).first().add(
            dirtags_concat(stack.drop_first()),
        ));
        let m2 = stack.map_values(f).first().len() + m;
        assert(dirtags_concat(stack)[m2] == t);
        assert(dirtags_concat(stack).contains(t));
    }
}

/// File override additivity: the tags recorded for an entry always begin
/// with the concatenation of every frame's dirtags; the file-scoped tags
/// of the nearest manifest only follow, they never displace an inherited
/// dirtag.
pub proof fn lemma_file_override_additive(s: TState, ev: WalkEvent)
    requires
        s.stack_after(ev).len() > 0,
    ensures
        s.rec_tags(ev).take(dirtags_concat(s.stack_after(ev)).len() as int) == dirtags_concat(
            s.stack_after(ev),
        ),
        s.rec_tags(ev).skip(dirtags_concat(s.stack_after(ev)).len() as int) == filetags_lookup(
            s.stack_after(ev).last().doctags.filetags@,
            ev.path@,
        ),
{
    let c = dirtags_concat(s.stack_after(ev));
    assert(s.rec_tags(ev).take(c.len() as int) =~= c);
    assert(s.rec_tags(ev).skip(c.len() as int) =~= filetags_lookup(
        s.stack_after(ev).last().doctags.filetags@,
        ev.path@,
    ));
}

/// Id uniqueness: records of distinct steps never share an id, since the
/// id grows by one at every step.
pub proof fn lemma_id_uniqueness(s0: TState, events: Seq<WalkEvent>, i1: int, i2: int)
    requires
        0 <= i1 <= events.len(),
        0 <= i2 <= events.len(),
        i1 != i2,
    ensures
        state_at(s0, events, i1).next_id != state_at(s0, events, i2).next_id,
{
    lemma_next_id_at(s0, events, i1);
    lemma_next_id_at(s0, events, i2);
}

/// Parent closure: every record of an event below the base has as its
/// parent the id of a still-open ancestor directory, whose path is a
/// strict prefix of the record's path at a separator.
pub proof fn lemma_parent_closure(s0: TState, events: Seq<WalkEvent>, i: int)
    requires
        events_wf(events),
        machine_ok(s0, events),
        s0.stack.len() == 0,
        s0.depth == 0,
        s0.next_id >= 0,
        0 <= i < events.len(),
        events[i].depth > 0,
    ensures
        exists|j: int|
            #[trigger] open_ancestor(events, j, i) && state_at(s0, events, i).rec_parent(
                events[i],
            ) == s0.next_id + j && strict_prefix_sep(events[j].path@, events[i].path@),
{
    lemma_entered_models(s0, events, i);
    let s = state_at(s0, events, i);
    let ev = events[i];
    let entered = s.entered_stack(ev);
    let d = ev.depth as int;
    assert(entered.len() == d);
    assert(frame_models(s0, events, i, d - 1, entered[d - 1]));
    let j = choose|j: int|
        #[trigger] open_dir_at(events, j, i, d - 1) && entered[d - 1].id == s0.next_id + j
            && entered[d - 1].doctags == events[j].doctags;
    assert(open_ancestor(events, j, i));
    assert(s.rec_parent(ev) == entered.last().id);
    assert(entered.last() == entered[d - 1]);
    assert(strict_prefix_sep(events[j].path@, events[i].path@));
}

} // verus!
