use crate::kitties::Module;
use crate::state::State;
use crate::types::{Balance, Config, Event, KittyIndex, Trait};
use vstd::prelude::*;

verus! {

/// A runtime for trying the engine out: the count moves by 1 up to the
/// largest identifier, and the existential deposit is 10.
#[derive(Clone, Copy, PartialEq, Eq, Debug)]
pub struct Test;

impl Trait for Test {
    open spec fn spec_kitty_index_unit() -> KittyIndex {
        1
    }

    open spec fn spec_kitty_index_max_value() -> KittyIndex {
        KittyIndex::MAX
    }

    open spec fn spec_existential_deposit() -> Balance {
        10
    }

    fn kitty_index_unit() -> (unit: KittyIndex) {
        1
    }

    fn kitty_index_max_value() -> (max: KittyIndex) {
        KittyIndex::MAX
    }

    fn existential_deposit() -> (deposit: Balance) {
        10
    }
}

/// A new engine for the runtime `Test`.
pub fn new_test_ext() -> (ext: Module)
    ensures
        ext.wf(),
        ext@ == State::genesis(Config::spec_of::<Test>()),
{
    Module::new(Config::of::<Test>())
}

/// Moves `ext` forward block by block until it stands at block `n`; an
/// engine that stands there or further is left alone.
pub fn run_to_block(ext: &mut Module, n: u64)
    ensures
        final(ext)@ == (State {
            block_number: if old(ext)@.block_number < n {
                n
            } else {
                old(ext)@.block_number
            },
            ..old(ext)@
        }),
        old(ext).wf() ==> final(ext).wf(),
{
    while ext.block_number() < n
        invariant
            ext@ == (State { block_number: ext@.block_number, ..old(ext)@ }),
            old(ext)@.block_number <= ext@.block_number,
            ext@.block_number <= n || ext@.block_number == old(ext)@.block_number,
            old(ext).wf() ==> ext.wf(),
        decreases n - ext@.block_number,
    {
        let next = ext.block_number() + 1;
        ext.set_block_number(next);
    }
}

/// Takes the events that `ext` has reported, oldest first, and leaves it
/// with none.
pub fn events(ext: &mut Module) -> (taken: Vec<Event>)
    ensures
        taken@ == old(ext)@.events,
        final(ext)@ == (State { events: Seq::empty(), ..old(ext)@ }),
        old(ext).wf() ==> final(ext).wf(),
{
    let taken = ext.events();
    ext.reset_events();
    taken
}

/// The event that `ext` reported last.
pub fn last_event(ext: &Module) -> (event: Event)
    requires
        ext@.events.len() > 0,
    ensures
        event == ext@.events.last(),
{
    let all = ext.events();
    all[all.len() - 1]
}

} // verus!
