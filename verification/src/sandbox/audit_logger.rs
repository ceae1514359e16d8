//! The audit trail: a record of every shell execution attempt. The latest
//! records are kept in memory; the program appends each one to a file.

use std::collections::VecDeque;
use vstd::prelude::*;
use crate::sandbox::config::SandboxConfig;

verus! {

/// How many records are kept in memory.
pub const MAX_RING: usize = 256;

/// A single record.
#[derive(Clone, Debug)]
pub struct AuditEntry {
    pub timestamp: String,
    pub session_id: String,
    pub tool: String,
    pub command: String,
    pub verdict: String,
    pub outcome: String,
}

/// What a record holds.
pub struct EntryView {
    pub timestamp: Seq<char>,
    pub session_id: Seq<char>,
    pub tool: Seq<char>,
    pub command: Seq<char>,
    pub verdict: Seq<char>,
    pub outcome: Seq<char>,
}

impl View for AuditEntry {
    type V = EntryView;

    open spec fn view(&self) -> EntryView {
        EntryView {
            timestamp: self.timestamp@,
            session_id: self.session_id@,
            tool: self.tool@,
            command: self.command@,
            verdict: self.verdict@,
            outcome: self.outcome@,
        }
    }
}

/// What each record of a list holds.
pub open spec fn entries_view(v: Seq<AuditEntry>) -> Seq<EntryView> {
    v.map_values(|e: AuditEntry| e@)
}

fn copy_entry(e: &AuditEntry) -> (r: AuditEntry)
    ensures
        r@ == e@,
{
    AuditEntry {
        timestamp: e.timestamp.clone(),
        session_id: e.session_id.clone(),
        tool: e.tool.clone(),
        command: e.command.clone(),
        verdict: e.verdict.clone(),
        outcome: e.outcome.clone(),
    }
}

/// The latest records.
pub struct AuditLogger {
    enabled: bool,
    ring: VecDeque<AuditEntry>,
}

impl View for AuditLogger {
    type V = Seq<EntryView>;

    /// The kept records, oldest first.
    closed spec fn view(&self) -> Seq<EntryView> {
        entries_view(self.ring@)
    }
}

/// The kept records once one more came: the oldest leaves where there is no
/// room for it.
pub open spec fn ring_push(ring: Seq<EntryView>, e: EntryView) -> Seq<EntryView> {
    if ring.len() >= MAX_RING {
        ring.skip(1).push(e)
    } else {
        ring.push(e)
    }
}

/// The last `count` of `s`, newest first.
pub open spec fn newest(s: Seq<EntryView>, count: nat) -> Seq<EntryView> {
    let n = if count < s.len() {
        count
    } else {
        s.len()
    };
    Seq::new(n, |i: int| s[s.len() - 1 - i])
}

impl AuditLogger {
    /// Whether records are kept.
    pub closed spec fn is_enabled(&self) -> bool {
        self.enabled
    }

    /// Never more records are kept than there is room for.
    pub closed spec fn wf(&self) -> bool {
        self.ring@.len() <= MAX_RING
    }

    /// The number of kept records has a bound.
    pub proof fn law_ring_is_bounded(&self)
        requires
            self.wf(),
        ensures
            self@.len() <= MAX_RING,
    {
    }

    /// A trail without records.
    pub fn new(config: &SandboxConfig) -> (r: AuditLogger)
        ensures
            r.is_enabled() == config.audit_enabled,
            r@ == Seq::<EntryView>::empty(),
            r.wf(),
    {
        let r = AuditLogger { enabled: config.audit_enabled, ring: VecDeque::new() };
        assert(r@ =~= Seq::<EntryView>::empty());
        r
    }

    /// Keeps a record. Returns it where it is to be appended to the file:
    /// whenever the trail is enabled.
    pub fn log(&mut self, entry: AuditEntry) -> (r: Option<AuditEntry>)
        requires
            old(self).wf(),
        ensures
            final(self).wf(),
            final(self).is_enabled() == old(self).is_enabled(),
            old(self).is_enabled() ==> (r matches Some(e) && e@ == entry@),
            old(self).is_enabled() ==> final(self)@ == ring_push(old(self)@, entry@),
            !old(self).is_enabled() ==> r is None && final(self)@ == old(self)@,
    {
        if !self.enabled {
            return None;
        }
        let ghost before = self@;
        let copy = copy_entry(&entry);
        if self.ring.len() >= MAX_RING {
            let gone = self.ring.pop_front();
        }
        self.ring.push_back(copy);
        assert(self@ =~= ring_push(before, entry@));
        Some(entry)
    }

    /// The latest `count` records, newest first.
    pub fn recent(&self, count: usize) -> (r: Vec<AuditEntry>)
        ensures
            entries_view(r@) == newest(self@, count as nat),
    {
        let mut r: Vec<AuditEntry> = Vec::new();
        let n: usize = self.ring.len();
        let mut i: usize = 0;
        assert(entries_view(r@) =~= newest(self@, 0));
        while i < n && i < count
            invariant
                i <= n,
                i <= count,
                n == self.ring@.len(),
                entries_view(r@) == newest(self@, i as nat),
            decreases n - i,
        {
            let ghost before = entries_view(r@);
            let e = copy_entry(&self.ring[n - 1 - i]);
            assert(e@ == self@[n - 1 - i]);
            r.push(e);
            i = i + 1;
            assert(entries_view(r@) =~= before.push(e@));
            assert(entries_view(r@) =~= newest(self@, i as nat));
        }
        assert(newest(self@, i as nat) =~= newest(self@, count as nat));
        r
    }
}

/// The record that came last is the first of the latest ones.
pub proof fn law_recent_starts_with_the_last(ring: Seq<EntryView>, e: EntryView, count: nat)
    requires
        count > 0,
    ensures
        newest(ring_push(ring, e), count).len() > 0,
        newest(ring_push(ring, e), count)[0] == e,
{
}

} // verus!
