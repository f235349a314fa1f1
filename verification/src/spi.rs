//! SPI (SSI) bus infrastructure.
//!
//! An [`SpiBus`] connects a controller to peripherals implementing
//! [`SpiSlave`]; each peripheral occupies one chip-select index.
use vstd::prelude::*;

verus! {

/// Chip-select polarity.
#[derive(Debug, Clone, Copy, PartialEq, Eq, Structural)]
pub enum SpiCsPolarity {
    /// CS is active-high.
    High,
    /// CS is active-low.
    Low,
    /// CS polarity is irrelevant (always active).
    Any,
}

/// The state of an SPI device as the bus sees it: what it answers to a
/// transferred word, the state it moves to, and its chip-select line.
pub trait SpiDevState: Sized {
    /// The word the device answers when `val` is shifted in.
    spec fn reply(&self, val: u32) -> u32;

    /// The device state after `val` is shifted in.
    spec fn after_transfer(&self, val: u32) -> Self;

    /// The device state after its chip-select line changes to `cs`.
    spec fn after_cs(&self, cs: bool) -> Self;

    /// The chip-select polarity the device expects.
    spec fn polarity(&self) -> SpiCsPolarity;

    /// The chip-select index the device occupies.
    spec fn index(&self) -> u8;
}

/// A device attached to an SPI bus; its behaviour is that of its state
/// (see [`SpiDevState`]).
pub trait SpiSlave: Sized {
    /// The device's state.
    type State: SpiDevState;

    /// The device's current state.
    spec fn state(&self) -> Self::State;

    /// Transfer a word to the peripheral and return the response.
    fn transfer(&mut self, val: u32) -> (r: u32)
        ensures
            r == old(self).state().reply(val),
            final(self).state() == old(self).state().after_transfer(val),
            final(self).state().index() == old(self).state().index(),
            final(self).state().polarity() == old(self).state().polarity(),
    ;

    /// Called when the chip-select line changes.
    fn set_cs(&mut self, cs: bool)
        ensures
            final(self).state() == old(self).state().after_cs(cs),
            final(self).state().index() == old(self).state().index(),
            final(self).state().polarity() == old(self).state().polarity(),
    ;

    /// Return the CS polarity this slave expects.
    fn cs_polarity(&self) -> (r: SpiCsPolarity)
        ensures
            r == self.state().polarity(),
    ;

    /// Return the chip-select index this slave occupies.
    fn cs_index(&self) -> (r: u8)
        ensures
            r == self.state().index(),
    ;
}

/// A slave on the bus together with the last level driven on its CS
/// line (`None`: never driven, treated as deselected).
pub struct SpiSlaveEntry<S: SpiSlave> {
    pub slave: S,
    pub cs_state: Option<bool>,
}

/// What the bus knows of one attached slave: its state and the last
/// level driven on its CS line.
pub struct SlaveState<T> {
    pub slave: T,
    pub cs_state: Option<bool>,
}

/// The bus's view of an entry.
pub open spec fn entry_state<S: SpiSlave>(e: SpiSlaveEntry<S>) -> SlaveState<S::State> {
    SlaveState { slave: e.slave.state(), cs_state: e.cs_state }
}

/// Whether the entry takes part in a transfer.
pub open spec fn entry_selected<T: SpiDevState>(e: SlaveState<T>) -> bool {
    match e.slave.polarity() {
        SpiCsPolarity::High => e.cs_state == Some(true),
        SpiCsPolarity::Low => e.cs_state == Some(false),
        SpiCsPolarity::Any => true,
    }
}

/// Whether some entry takes part in a transfer.
pub open spec fn any_selected<T: SpiDevState>(entries: Seq<SlaveState<T>>) -> bool {
    exists|i: int| 0 <= i < entries.len() && entry_selected(#[trigger] entries[i])
}

/// Bitwise OR of the replies of the selected entries.
pub open spec fn selected_reply<T: SpiDevState>(entries: Seq<SlaveState<T>>, val: u32) -> u32
    decreases entries.len(),
{
    if entries.len() == 0 {
        0
    } else {
        let rest = selected_reply(entries.drop_last(), val);
        let e = entries.last();
        if entry_selected(e) {
            rest | e.slave.reply(val)
        } else {
            rest
        }
    }
}

/// The entries after a transfer: selected slaves advance, others stay.
pub open spec fn entries_after_transfer<T: SpiDevState>(
    entries: Seq<SlaveState<T>>,
    val: u32,
) -> Seq<SlaveState<T>> {
    Seq::new(
        entries.len(),
        |i: int|
            if entry_selected(entries[i]) {
                SlaveState { slave: entries[i].slave.after_transfer(val), cs_state: entries[i].cs_state }
            } else {
                entries[i]
            },
    )
}

/// The entries after driving `level` on chip-select `cs_index`.
pub open spec fn entries_after_cs<T: SpiDevState>(
    entries: Seq<SlaveState<T>>,
    cs_index: u8,
    level: bool,
) -> Seq<SlaveState<T>> {
    Seq::new(
        entries.len(),
        |i: int|
            if entries[i].slave.index() == cs_index {
                SlaveState {
                    slave: if entries[i].cs_state != Some(level) {
                        entries[i].slave.after_cs(level)
                    } else {
                        entries[i].slave
                    },
                    cs_state: Some(level),
                }
            } else {
                entries[i]
            },
    )
}

/// Index of the first entry occupying `cs_index`, if any.
pub open spec fn find_index<T: SpiDevState>(entries: Seq<SlaveState<T>>, cs_index: u8) -> Option<int> {
    if exists|i: int| 0 <= i < entries.len() && (#[trigger] entries[i]).slave.index() == cs_index {
        Some(choose|i: int| 0 <= i < entries.len() && (#[trigger] entries[i]).slave.index() == cs_index)
    } else {
        None
    }
}

/// Errors that can occur during SPI bus operations.
#[derive(Debug, PartialEq, Eq, Structural)]
pub enum SpiBusError {
    /// The requested CS index is already occupied.
    CsIndexConflict(u8),
}

/// An SPI bus with attached peripheral devices.
///
/// When no slave is selected, `transfer` returns 0xFF (bus pull-up).
pub struct SpiBus<S: SpiSlave> {
    slaves: Vec<SpiSlaveEntry<S>>,
    last_result: u32,
}

impl<S: SpiSlave> SpiBus<S> {
    /// The attached slaves' states, in attach order.
    pub closed spec fn entries(&self) -> Seq<SlaveState<S::State>> {
        Seq::new(self.slaves@.len(), |i: int| entry_state(self.slaves@[i]))
    }

    /// The result of the last transfer.
    pub closed spec fn last(&self) -> u32 {
        self.last_result
    }

    /// Well-formed: no two slaves share a chip-select index.
    pub open spec fn wf(&self) -> bool {
        forall|i: int, j: int|
            0 <= i < j < self.entries().len() ==> (#[trigger] self.entries()[i]).slave.index()
                != (#[trigger] self.entries()[j]).slave.index()
    }

    /// An empty bus.
    pub fn new() -> (r: Self)
        ensures
            r.wf(),
            r.entries().len() == 0,
            r.last() == 0,
    {
        SpiBus { slaves: Vec::new(), last_result: 0 }
    }

    fn position(&self, cs_index: u8) -> (r: Option<usize>)
        requires
            self.wf(),
        ensures
            match r {
                Some(p) => p < self.entries().len() && self.entries()[p as int].slave.index() == cs_index,
                None => forall|i: int|
                    0 <= i < self.entries().len() ==> (#[trigger] self.entries()[i]).slave.index() != cs_index,
            },
            r matches Some(p) ==> find_index(self.entries(), cs_index) == Some(p as int),
            r is None ==> find_index(self.entries(), cs_index) is None,
    {
        let mut i: usize = 0;
        while i < self.slaves.len()
            invariant
                self.wf(),
                i <= self.slaves@.len(),
                forall|j: int| 0 <= j < i ==> (#[trigger] self.entries()[j]).slave.index() != cs_index,
            decreases self.slaves.len() - i,
        {
            if self.slaves[i].slave.cs_index() == cs_index {
                proof {
                    assert(self.entries()[i as int].slave.index() == cs_index);
                    let w = choose|k: int|
                        0 <= k < self.entries().len() && (#[trigger] self.entries()[k]).slave.index() == cs_index;
                    if w != i as int {
                        if w < i as int {
                        } else {
                            assert(self.entries()[i as int].slave.index() != self.entries()[w].slave.index());
                        }
                    }
                }
                return Some(i);
            }
            i = i + 1;
        }
        None
    }

    /// Attach a slave to the bus at its declared CS index.
    ///
    /// Returns an error if the CS index is already occupied. Newly
    /// attached slaves start deselected.
    pub fn attach(&mut self, slave: S) -> (r: Result<(), SpiBusError>)
        requires
            old(self).wf(),
        ensures
            final(self).wf(),
            final(self).last() == old(self).last(),
            find_index(old(self).entries(), slave.state().index()) is Some ==> r == Err::<(), SpiBusError>(
                SpiBusError::CsIndexConflict(slave.state().index()),
            ) && final(self).entries() == old(self).entries(),
            find_index(old(self).entries(), slave.state().index()) is None ==> r == Ok::<(), SpiBusError>(())
                && final(self).entries() == old(self).entries().push(
                SlaveState { slave: slave.state(), cs_state: None },
            ),
    {
        let idx = slave.cs_index();
        if self.position(idx).is_some() {
            return Err(SpiBusError::CsIndexConflict(idx));
        }
        let ghost st = slave.state();
        self.slaves.push(SpiSlaveEntry { slave, cs_state: None });
        proof {
            assert(self.entries() =~= old(self).entries().push(SlaveState { slave: st, cs_state: None }));
        }
        Ok(())
    }

    /// Detach a slave from the bus by its CS index.
    pub fn detach(&mut self, cs_index: u8) -> (r: Option<S>)
        requires
            old(self).wf(),
        ensures
            final(self).wf(),
            final(self).last() == old(self).last(),
            match find_index(old(self).entries(), cs_index) {
                Some(p) => (r matches Some(s) && s.state() == old(self).entries()[p].slave) && final(self).entries()
                    == old(self).entries().remove(p),
                None => r is None && final(self).entries() == old(self).entries(),
            },
    {
        match self.position(cs_index) {
            Some(pos) => {
                let e = self.slaves.remove(pos);
                proof {
                    assert(self.entries() =~= old(self).entries().remove(pos as int));
                    assert forall|i: int, j: int|
                        0 <= i < j < self.entries().len() implies (#[trigger] self.entries()[i]).slave.index()
                        != (#[trigger] self.entries()[j]).slave.index() by {
                        let oi = if i < pos { i } else { i + 1 };
                        let oj = if j < pos { j } else { j + 1 };
                        assert(self.entries()[i] == old(self).entries()[oi]);
                        assert(self.entries()[j] == old(self).entries()[oj]);
                    }
                }
                Some(e.slave)
            },
            None => None,
        }
    }

    /// Find a slave by CS index.
    pub fn get_cs(&self, cs_index: u8) -> (r: Option<&S>)
        requires
            self.wf(),
        ensures
            match find_index(self.entries(), cs_index) {
                Some(p) => r matches Some(s) && s.state() == self.entries()[p].slave,
                None => r is None,
            },
    {
        match self.position(cs_index) {
            Some(pos) => Some(&self.slaves[pos].slave),
            None => None,
        }
    }

    /// Drive the chip-select line of the slave at `cs_index` to `level`;
    /// the slave is notified when the level changes.
    pub fn set_cs(&mut self, cs_index: u8, level: bool)
        requires
            old(self).wf(),
        ensures
            final(self).wf(),
            final(self).last() == old(self).last(),
            final(self).entries() == entries_after_cs(old(self).entries(), cs_index, level),
    {
        let ghost start = self.entries();
        let mut i: usize = 0;
        while i < self.slaves.len()
            invariant
                i <= self.slaves@.len(),
                self.slaves@.len() == start.len(),
                self.last_result == old(self).last_result,
                start == old(self).entries(),
                forall|j: int|
                    0 <= j < i ==> #[trigger] self.entries()[j] == entries_after_cs(start, cs_index, level)[j],
                forall|j: int| 0 <= j < i ==> (#[trigger] self.entries()[j]).slave.index() == start[j].slave.index(),
                forall|j: int| i <= j < self.slaves@.len() ==> #[trigger] self.entries()[j] == start[j],
            decreases self.slaves.len() - i,
        {
            let ghost pre_slaves = self.slaves@;
            let ghost pre_entries = self.entries();
            assert(self.entries()[i as int] == start[i as int]);
            assert(entry_state(pre_slaves[i as int]) == start[i as int]);
            let mut e = self.slaves.remove(i);
            assert(entry_state(e) == start[i as int]);
            if e.slave.cs_index() == cs_index {
                let changed = match e.cs_state {
                    Some(s) => s != level,
                    None => true,
                };
                if changed {
                    e.slave.set_cs(level);
                }
                e.cs_state = Some(level);
            }
            let ghost new_e = e;
            self.slaves.insert(i, e);
            proof {
                assert(self.slaves@ =~= pre_slaves.update(i as int, new_e));
                assert forall|j: int| 0 <= j < self.slaves@.len() && j != i implies #[trigger] self.entries()[j]
                    == pre_entries[j] by {
                    assert(self.slaves@[j] == pre_slaves[j]);
                }
                assert(self.entries()[i as int] == entry_state(new_e));
                assert(self.entries()[i as int] == entries_after_cs(start, cs_index, level)[i as int]);
            }
            i = i + 1;
        }
        proof {
            assert(self.entries() =~= entries_after_cs(start, cs_index, level));
            assert forall|a: int, b: int|
                0 <= a < b < self.entries().len() implies (#[trigger] self.entries()[a]).slave.index()
                != (#[trigger] self.entries()[b]).slave.index() by {
                assert(old(self).entries()[a] == start[a]);
                assert(old(self).entries()[b] == start[b]);
                assert(start[a].slave.index() != start[b].slave.index());
            }
        }
    }

    /// Transfer a word on the bus.
    ///
    /// Each selected slave contributes to the result via bitwise OR;
    /// when no slave is selected the result is 0xFF (bus pull-up).
    pub fn transfer(&mut self, val: u32) -> (r: u32)
        requires
            old(self).wf(),
        ensures
            final(self).wf(),
            r == (if any_selected(old(self).entries()) {
                selected_reply(old(self).entries(), val)
            } else {
                0xFFu32
            }),
            final(self).last() == r,
            final(self).entries() == entries_after_transfer(old(self).entries(), val),
    {
        let ghost start = self.entries();
        let mut result: u32 = 0;
        let mut any: bool = false;
        let mut i: usize = 0;
        while i < self.slaves.len()
            invariant
                i <= self.slaves@.len(),
                self.slaves@.len() == start.len(),
                start == old(self).entries(),
                result == selected_reply(start.take(i as int), val),
                any == any_selected(start.take(i as int)),
                forall|j: int| 0 <= j < i ==> #[trigger] self.entries()[j] == entries_after_transfer(start, val)[j],
                forall|j: int| 0 <= j < i ==> (#[trigger] self.entries()[j]).slave.index() == start[j].slave.index(),
                forall|j: int| i <= j < self.slaves@.len() ==> #[trigger] self.entries()[j] == start[j],
            decreases self.slaves.len() - i,
        {
            let ghost pre_slaves = self.slaves@;
            let ghost pre_entries = self.entries();
            assert(self.entries()[i as int] == start[i as int]);
            assert(entry_state(pre_slaves[i as int]) == start[i as int]);
            let mut e = self.slaves.remove(i);
            assert(entry_state(e) == start[i as int]);
            let selected = match e.slave.cs_polarity() {
                SpiCsPolarity::High => match e.cs_state {
                    Some(s) => s,
                    None => false,
                },
                SpiCsPolarity::Low => match e.cs_state {
                    Some(s) => !s,
                    None => false,
                },
                SpiCsPolarity::Any => true,
            };
            proof {
                assert(selected == entry_selected(start[i as int]));
                assert(start.take(i as int + 1).drop_last() =~= start.take(i as int));
                assert(start.take(i as int + 1).last() == start[i as int]);
            }
            if selected {
                let reply = e.slave.transfer(val);
                result = result | reply;
                any = true;
            }
            let ghost new_e = e;
            self.slaves.insert(i, e);
            proof {
                assert(self.slaves@ =~= pre_slaves.update(i as int, new_e));
                assert forall|j: int| 0 <= j < self.slaves@.len() && j != i implies #[trigger] self.entries()[j]
                    == pre_entries[j] by {
                    assert(self.slaves@[j] == pre_slaves[j]);
                }
                assert(self.entries()[i as int] == entry_state(new_e));
                assert(self.entries()[i as int] == entries_after_transfer(start, val)[i as int]);
                if selected {
                    assert(entry_selected(start.take(i as int + 1)[i as int]));
                } else {
                    if any_selected(start.take(i as int + 1)) {
                        let w = choose|k: int|
                            0 <= k < start.take(i as int + 1).len() && entry_selected(
                                #[trigger] start.take(i as int + 1)[k],
                            );
                        assert(start.take(i as int)[w] == start.take(i as int + 1)[w]);
                    }
                }
                if any_selected(start.take(i as int)) {
                    let w = choose|k: int|
                        0 <= k < start.take(i as int).len() && entry_selected(#[trigger] start.take(i as int)[k]);
                    assert(start.take(i as int + 1)[w] == start.take(i as int)[w]);
                }
            }
            i = i + 1;
        }
        proof {
            assert(start.take(i as int) =~= start);
            assert(self.entries() =~= entries_after_transfer(start, val));
            assert forall|a: int, b: int|
                0 <= a < b < self.entries().len() implies (#[trigger] self.entries()[a]).slave.index()
                != (#[trigger] self.entries()[b]).slave.index() by {
                assert(old(self).entries()[a] == start[a]);
                assert(old(self).entries()[b] == start[b]);
                assert(start[a].slave.index() != start[b].slave.index());
            }
        }
        if any {
            self.last_result = result;
            result
        } else {
            self.last_result = 0xFF;
            0xFF
        }
    }

    /// Return the raw result of the last `transfer`.
    pub fn last_result(&self) -> (r: u32)
        ensures
            r == self.last(),
    {
        self.last_result
    }
}

/// Detaching the chip select of a slave that was just attached hands
/// that slave back and leaves the bus's slaves as they were before the
/// attach.
pub proof fn lemma_attach_then_detach<T: SpiDevState>(before: Seq<SlaveState<T>>, slave: T)
    requires
        find_index(before, slave.index()) is None,
    ensures
        ({
            let after = before.push(SlaveState { slave, cs_state: None });
            &&& find_index(after, slave.index()) == Some(before.len() as int)
            &&& after[before.len() as int].slave == slave
            &&& after.remove(before.len() as int) == before
        }),
{
    let after = before.push(SlaveState { slave, cs_state: None });
    let n = before.len() as int;
    assert(after[n].slave.index() == slave.index());
    let k = choose|i: int| 0 <= i < after.len() && (#[trigger] after[i]).slave.index() == slave.index();
    if k < n {
        assert(before[k] == after[k]);
        assert(before[k].slave.index() == slave.index());
    }
    assert(after.remove(n) =~= before);
}

} // verus!
