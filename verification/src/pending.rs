//! The table of pending calls: which calls this side has sent and not yet
//! seen answered, so that a response can be matched with its call.

use vstd::prelude::*;
use vstd::string::StringExecFns;
use crate::message::Error;
use crate::scan::same_text;
use crate::taxonomy::OCPPAction;

verus! {

/// The table as a value: the verb of each pending call, by its id.
pub type Table = Map<Seq<char>, OCPPAction>;

/// Recording a call: refused while its id is pending, else the table with
/// the call added.
pub open spec fn recorded(t: Table, id: Seq<char>, action: OCPPAction) -> Result<Table, Error> {
    if t.contains_key(id) {
        Err(Error::DuplicateCallId)
    } else {
        Ok(t.insert(id, action))
    }
}

/// Resolving a response: the verb of the call it answers and the table
/// without that call, or an orphan where no call is pending under the id.
pub open spec fn resolved(t: Table, id: Seq<char>) -> Result<(OCPPAction, Table), Error> {
    if t.contains_key(id) {
        Ok((t[id], t.remove(id)))
    } else {
        Err(Error::OrphanResponse)
    }
}

/// One call that awaits its response.
struct PendingCall {
    id: String,
    action: OCPPAction,
}

/// The pending calls of one session, at most one under each id.
pub struct PendingCalls {
    entries: Vec<PendingCall>,
}

/// No two entries have the same id.
spec fn distinct(entries: Seq<PendingCall>) -> bool {
    forall|i: int, j: int|
        0 <= i < j < entries.len() ==> (#[trigger] entries[i]).id@ != (#[trigger] entries[j]).id@
}

/// Whether entry `i` is the one under `id`.
spec fn holds(entries: Seq<PendingCall>, i: int, id: Seq<char>) -> bool {
    0 <= i < entries.len() && entries[i].id@ == id
}

/// The table that the entries make.
spec fn table(entries: Seq<PendingCall>) -> Table {
    Map::new(
        |id: Seq<char>| exists|i: int| holds(entries, i, id),
        |id: Seq<char>| entries[choose|i: int| holds(entries, i, id)].action,
    )
}

/// An entry is found in the table under its id, with its verb.
proof fn lemma_entry(entries: Seq<PendingCall>, i: int)
    requires
        distinct(entries),
        0 <= i < entries.len(),
    ensures
        table(entries).contains_key(entries[i].id@),
        table(entries)[entries[i].id@] == entries[i].action,
{
    let id = entries[i].id@;
    assert(holds(entries, i, id));
    let j = choose|j: int| holds(entries, j, id);
    assert(j == i);
}

/// Adding an entry under a new id adds it to the table.
proof fn lemma_pushed(entries: Seq<PendingCall>, e: PendingCall)
    requires
        distinct(entries),
        !table(entries).contains_key(e.id@),
    ensures
        distinct(entries.push(e)),
        table(entries.push(e)) == table(entries).insert(e.id@, e.action),
{
    let after = entries.push(e);
    assert forall|i: int, j: int| 0 <= i < j < after.len() implies (#[trigger] after[i]).id@ != (
    #[trigger] after[j]).id@ by {
        if j == entries.len() {
            assert(holds(entries, i, entries[i].id@));
        }
    }
    assert forall|id: Seq<char>| #[trigger]
        table(after).contains_key(id) == table(entries).insert(e.id@, e.action).contains_key(
            id,
        ) by {
        if table(after).contains_key(id) {
            let i = choose|i: int| holds(after, i, id);
            if i < entries.len() {
                assert(holds(entries, i, id));
            }
        }
        if table(entries).contains_key(id) {
            let i = choose|i: int| holds(entries, i, id);
            assert(holds(after, i, id));
        }
        if id == e.id@ {
            assert(holds(after, entries.len() as int, id));
        }
    }
    assert forall|id: Seq<char>| #[trigger] table(after).contains_key(id) implies table(after)[id]
        == table(entries).insert(e.id@, e.action)[id] by {
        let i = choose|i: int| holds(after, i, id);
        lemma_entry(after, i);
        if i < entries.len() {
            lemma_entry(entries, i);
        }
    }
    assert(table(after) =~= table(entries).insert(e.id@, e.action));
}

/// Taking an entry out takes its id out of the table.
proof fn lemma_removed(entries: Seq<PendingCall>, k: int)
    requires
        distinct(entries),
        0 <= k < entries.len(),
    ensures
        distinct(entries.remove(k)),
        table(entries.remove(k)) == table(entries).remove(entries[k].id@),
{
    let after = entries.remove(k);
    let gone = entries[k].id@;
    assert forall|i: int| 0 <= i < after.len() implies #[trigger] after[i] == entries[if i < k {
        i
    } else {
        i + 1
    }] by {}
    assert forall|i: int, j: int| 0 <= i < j < after.len() implies (#[trigger] after[i]).id@ != (
    #[trigger] after[j]).id@ by {
        let i0 = if i < k { i } else { i + 1 };
        let j0 = if j < k { j } else { j + 1 };
        assert(after[i] == entries[i0] && after[j] == entries[j0]);
    }
    assert forall|id: Seq<char>| #[trigger]
        table(after).contains_key(id) == table(entries).remove(gone).contains_key(id) by {
        if table(after).contains_key(id) {
            let i = choose|i: int| holds(after, i, id);
            let i0 = if i < k { i } else { i + 1 };
            assert(after[i] == entries[i0]);
            assert(holds(entries, i0, id));
            if id == gone {
                assert(i0 != k);
                assert(entries[i0].id@ != entries[k].id@);
            }
        }
        if table(entries).contains_key(id) && id != gone {
            let i0 = choose|i: int| holds(entries, i, id);
            let i = if i0 < k { i0 } else { i0 - 1 };
            assert(after[i] == entries[i0]);
            assert(holds(after, i, id));
        }
    }
    assert forall|id: Seq<char>| #[trigger] table(after).contains_key(id) implies table(after)[id]
        == table(entries).remove(gone)[id] by {
        let i = choose|i: int| holds(after, i, id);
        let i0 = if i < k { i } else { i + 1 };
        assert(after[i] == entries[i0]);
        lemma_entry(after, i);
        lemma_entry(entries, i0);
    }
    assert(table(after) =~= table(entries).remove(gone));
}

impl View for PendingCalls {
    type V = Table;

    closed spec fn view(&self) -> Table {
        table(self.entries@)
    }
}

impl PendingCalls {
    /// The invariant of the table: no id stands in it twice.
    pub closed spec fn well_formed(&self) -> bool {
        distinct(self.entries@)
    }

    /// A table without pending calls.
    pub fn new() -> (r: PendingCalls)
        ensures
            r.well_formed(),
            r@ == Table::empty(),
    {
        let r = PendingCalls { entries: Vec::new() };
        assert(r@ =~= Table::empty());
        r
    }

    /// Where the call under `id` stands among the entries.
    fn find(&self, id: &str) -> (r: Option<usize>)
        ensures
            match r {
                Some(k) => holds(self.entries@, k as int, id@),
                None => !self@.contains_key(id@),
            },
    {
        let mut k: usize = 0;
        while k < self.entries.len()
            invariant
                k <= self.entries.len(),
                forall|i: int| 0 <= i < k ==> !holds(self.entries@, i, id@),
            decreases self.entries.len() - k,
        {
            if same_text(self.entries[k].id.as_str(), id) {
                return Some(k);
            }
            k += 1;
        }
        None
    }

    /// Whether a call is pending under `id`.
    pub fn is_pending(&self, id: &str) -> (r: bool)
        ensures
            r == self@.contains_key(id@),
    {
        match self.find(id) {
            Some(_) => true,
            None => false,
        }
    }

    /// Registers a call that was sent. Fails, and changes nothing, while a
    /// call is pending under the same id.
    pub fn record(&mut self, id: &str, action: OCPPAction) -> (r: Result<(), Error>)
        requires
            old(self).well_formed(),
        ensures
            final(self).well_formed(),
            match recorded(old(self)@, id@, action) {
                Ok(t) => r is Ok && final(self)@ == t,
                Err(e) => r == Err::<(), Error>(e) && final(self)@ == old(self)@,
            },
    {
        match self.find(id) {
            Some(_) => Err(Error::DuplicateCallId),
            None => {
                let e = PendingCall { id: String::from_str(id), action };
                proof {
                    lemma_pushed(self.entries@, e);
                }
                self.entries.push(e);
                Ok(())
            },
        }
    }

    /// Matches a response with its call: returns the verb of the call that
    /// is pending under `id` and removes it. Fails, and changes nothing,
    /// where none is pending under that id.
    pub fn resolve(&mut self, id: &str) -> (r: Result<OCPPAction, Error>)
        requires
            old(self).well_formed(),
        ensures
            final(self).well_formed(),
            match resolved(old(self)@, id@) {
                Ok((action, t)) => r == Ok::<OCPPAction, Error>(action) && final(self)@ == t,
                Err(e) => r == Err::<OCPPAction, Error>(e) && final(self)@ == old(self)@,
            },
    {
        match self.find(id) {
            Some(k) => {
                proof {
                    lemma_entry(self.entries@, k as int);
                    lemma_removed(self.entries@, k as int);
                }
                let e = self.entries.remove(k);
                Ok(e.action)
            },
            None => Err(Error::OrphanResponse),
        }
    }

    /// Gives a call up without a response: removes what is pending under
    /// `id` and says whether anything was.
    pub fn abandon(&mut self, id: &str) -> (r: bool)
        requires
            old(self).well_formed(),
        ensures
            final(self).well_formed(),
            r == old(self)@.contains_key(id@),
            final(self)@ == old(self)@.remove(id@),
    {
        match self.find(id) {
            Some(k) => {
                proof {
                    lemma_entry(self.entries@, k as int);
                    lemma_removed(self.entries@, k as int);
                }
                let _ = self.entries.remove(k);
                true
            },
            None => {
                assert(self@.remove(id@) =~= self@);
                false
            },
        }
    }

    /// Gives every pending call up.
    pub fn clear(&mut self)
        ensures
            final(self).well_formed(),
            final(self)@ == Table::empty(),
    {
        self.entries.clear();
        assert(self@ =~= Table::empty());
    }

    /// How many calls are pending.
    pub fn len(&self) -> (r: usize)
        requires
            self.well_formed(),
        ensures
            r == self@.len(),
            self@.dom().finite(),
    {
        proof {
            lemma_count(self.entries@);
        }
        self.entries.len()
    }
}

/// The table has as many ids as there are entries.
proof fn lemma_count(entries: Seq<PendingCall>)
    requires
        distinct(entries),
    ensures
        table(entries).dom().finite(),
        table(entries).len() == entries.len(),
    decreases entries.len(),
{
    if entries.len() == 0 {
        assert(table(entries) =~= Table::empty());
    } else {
        let k = entries.len() - 1;
        let rest = entries.remove(k);
        lemma_entry(entries, k);
        lemma_removed(entries, k);
        lemma_count(rest);
        assert(table(entries) =~= table(rest).insert(entries[k].id@, entries[k].action));
    }
}

/// A call that was recorded is resolved once: the first response under its
/// id finds its verb and leaves the table as it was before the call, and a
/// second response under that id is an orphan.
pub proof fn lemma_record_then_resolve(t: Table, id: Seq<char>, action: OCPPAction)
    requires
        !t.contains_key(id),
    ensures
        recorded(t, id, action) == Ok::<Table, Error>(t.insert(id, action)),
        resolved(t.insert(id, action), id) == Ok::<(OCPPAction, Table), Error>((action, t)),
        resolved(t, id) == Err::<(OCPPAction, Table), Error>(Error::OrphanResponse),
{
    assert(t.insert(id, action).remove(id) =~= t);
}

/// While a call is pending under an id, no second call is recorded under it.
pub proof fn lemma_pending_id_is_refused(t: Table, id: Seq<char>, a: OCPPAction, b: OCPPAction)
    ensures
        recorded(t, id, a) matches Ok(t1) ==> recorded(t1, id, b) == Err::<Table, Error>(
            Error::DuplicateCallId,
        ),
{
}

/// A call that was given up is no longer pending: a late response under its
/// id is an orphan.
pub proof fn lemma_abandoned_is_orphan(t: Table, id: Seq<char>)
    ensures
        resolved(t.remove(id), id) == Err::<(OCPPAction, Table), Error>(Error::OrphanResponse),
{
}

} // verus!
