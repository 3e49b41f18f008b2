use crate::ledger::reserved_of;
use crate::state::{replayable, replayed, storable, Op, State};
use crate::types::{AccountData, AccountId, Balance, Config, Kitty, KittyIndex};
use vstd::prelude::*;

verus! {

/// Between two multiples of a step lies at least one step.
pub proof fn lemma_multiples_apart(a: int, b: int, step: int)
    requires
        step >= 1,
        0 <= a < b,
        a % step == 0,
        b % step == 0,
    ensures
        a + step <= b,
        (a + step) % step == 0,
{
    vstd::arithmetic::div_mod::lemma_fundamental_div_mod(a, step);
    vstd::arithmetic::div_mod::lemma_fundamental_div_mod(b, step);
    let qa = a / step;
    let qb = b / step;
    assert(qa < qb) by (nonlinear_arith)
        requires
            step >= 1,
            a < b,
            a == step * qa,
            b == step * qb,
    ;
    assert(step * (qa + 1) <= step * qb) by (nonlinear_arith)
        requires
            step >= 1,
            qa + 1 <= qb,
    ;
    assert(step * (qa + 1) == a + step) by (nonlinear_arith)
        requires
            a == step * qa,
    ;
    vstd::arithmetic::div_mod::lemma_mod_multiples_basic(qa + 1, step);
    assert((qa + 1) * step == step * (qa + 1)) by (nonlinear_arith);
}

/// While the count has not reached its maximum, one step more fits.
pub proof fn lemma_next_fits(s: State)
    requires
        s.wf(),
        s.next_kitty_id() is Ok,
    ensures
        s.next_kitty_id() == Ok::<KittyIndex, crate::types::Error>(s.count),
        s.count + s.config.kitty_index_unit <= s.config.kitty_index_max_value,
        !s.kitties.contains_key(s.count),
        !s.owners.contains_key(s.count),
        forall|id: KittyIndex| #[trigger] s.kitties.contains_key(id) ==> id < s.count,
        forall|id: KittyIndex|
            #![trigger s.kitties.contains_key(id)]
            s.kitties.contains_key(id) ==> s.kitties[id].generation < s.count,
{
    lemma_multiples_apart(
        s.count as int,
        s.config.kitty_index_max_value as int,
        s.config.kitty_index_unit as int,
    );
    assert forall|id: KittyIndex| #[trigger] s.kitties.contains_key(id) implies s.kitties[id].generation
        < s.count by {
        assert(s.kitty_wf(id));
    }
}

/// Storing the next kitty keeps the invariant.
pub proof fn lemma_inserted_wf(s: State, owner: AccountId, kitty: Kitty)
    requires
        s.wf(),
        s.next_kitty_id() is Ok,
        storable(s, kitty),
    ensures
        s.inserted(owner, s.count, kitty).wf(),
{
    lemma_next_fits(s);
    let unit = s.config.kitty_index_unit;
    let id = s.count;
    let t = s.inserted(owner, id, kitty);
    assert(t.count == id + unit);
    assert(t.count % unit == 0) by {
        lemma_multiples_apart(id as int, s.config.kitty_index_max_value as int, unit as int);
    }
    assert forall|other: KittyIndex| #[trigger]
        t.kitties.contains_key(other) <==> (other < t.count && other % unit == 0) by {
        if id < other && other < t.count && other % unit == 0 {
            lemma_multiples_apart(id as int, other as int, unit as int);
        }
    }
    assert forall|other: KittyIndex| #[trigger] t.kitties.contains_key(other) implies t.kitty_wf(
        other,
    ) by {
        if other == id {
            if kitty.generation > 0 {
                let sire = kitty.sire_id->0;
                assert(s.kitty_wf(sire));
            }
        } else {
            assert(s.kitty_wf(other));
        }
    }
    assert forall|parent: KittyIndex, child: KittyIndex| #[trigger]
        t.children.contains((parent, child)) <==> t.is_parent_of(parent, child) by {
        if child != id {
            assert(s.children.contains((parent, child)) <==> s.is_parent_of(parent, child));
            assert(t.is_parent_of(parent, child) <==> s.is_parent_of(parent, child));
        } else {
            assert(!s.is_parent_of(parent, child));
            assert(!s.children.contains((parent, child)));
        }
    }
}

/// Every operation keeps the invariant.
pub proof fn lemma_after_wf(s: State, op: Op)
    requires
        s.wf(),
    ensures
        s.after(op).wf(),
{
    if s.outcome(op) is Ok {
        match op {
            Op::Create { sender, new_free, new_reserved, dna } => {
                lemma_inserted_wf(s, sender, crate::state::founder(dna));
            },
            Op::Breed { sender, matron, sire, new_free, new_reserved, selector } => {
                lemma_next_fits(s);
                lemma_inserted_wf(s, sender, s.child(matron, sire, selector));
            },
            Op::Transfer { sender, to, kitty_id, value } => {
                let t = s.transferred(sender, to, kitty_id, value);
                assert forall|id: KittyIndex| #[trigger] t.kitties.contains_key(id) implies t.kitty_wf(
                    id,
                ) by {
                    assert(s.kitty_wf(id));
                }
                assert forall|parent: KittyIndex, child: KittyIndex| #[trigger]
                    t.children.contains((parent, child)) <==> t.is_parent_of(parent, child) by {
                    assert(s.children.contains((parent, child)) <==> s.is_parent_of(parent, child));
                }
            },
        }
    }
}

/// Nothing can be replayed under a configuration that is not usable.
pub proof fn lemma_replayable_config(config: Config, records: Seq<(Kitty, AccountId)>)
    requires
        replayable(config, records),
    ensures
        config.wf(),
    decreases records.len(),
{
    if records.len() > 0 {
        lemma_replayable_config(config, records.drop_last());
    }
}

/// What can be replayed can be replayed up to any point.
pub proof fn lemma_replayable_prefix(config: Config, records: Seq<(Kitty, AccountId)>, n: int)
    requires
        replayable(config, records),
        0 <= n <= records.len(),
    ensures
        replayable(config, records.take(n)),
    decreases records.len(),
{
    if n == records.len() {
        assert(records.take(n) =~= records);
    } else {
        assert(records.take(n) =~= records.drop_last().take(n));
        lemma_replayable_prefix(config, records.drop_last(), n);
    }
}

/// A replay ends in a state that keeps the invariant, with one kitty for
/// each record.
pub proof fn lemma_replayed_wf(config: Config, records: Seq<(Kitty, AccountId)>)
    requires
        replayable(config, records),
    ensures
        replayed(config, records).wf(),
        replayed(config, records).config == config,
        replayed(config, records).count == records.len() * config.kitty_index_unit,
    decreases records.len(),
{
    if records.len() > 0 {
        let before = replayed(config, records.drop_last());
        lemma_replayed_wf(config, records.drop_last());
        lemma_next_fits(before);
        lemma_inserted_wf(before, records.last().1, records.last().0);
        let n = records.len() as int;
        let unit = config.kitty_index_unit as int;
        assert((n - 1) * unit + unit == n * unit) by (nonlinear_arith);
    } else {
        assert(0 * config.kitty_index_unit == 0) by (nonlinear_arith);
    }
}

/// Whether `records` holds what is saved of the kitties of `s`: the record
/// and the owner of each, in the order of the identifiers.
pub open spec fn saved_as(s: State, records: Seq<(Kitty, AccountId)>) -> bool {
    &&& records.len() * s.config.kitty_index_unit == s.count
    &&& forall|i: int| 0 <= i < records.len() ==> #[trigger] records[i] == s.saved_record(i)
}

/// Whether `t` holds of kitties, owners, owned sets and children sets what
/// `s` holds of the kitties below `bound`, and nothing else.
pub open spec fn agrees_below(t: State, s: State, bound: int) -> bool {
    &&& t.config == s.config
    &&& t.count == bound
    &&& forall|id: KittyIndex| #[trigger]
        t.kitties.contains_key(id) <==> (s.kitties.contains_key(id) && id < bound)
    &&& forall|id: KittyIndex| #[trigger]
        t.kitties.contains_key(id) ==> t.kitties[id] == s.kitties[id]
    &&& forall|id: KittyIndex| #[trigger]
        t.owners.contains_key(id) <==> (s.owners.contains_key(id) && id < bound)
    &&& forall|id: KittyIndex| #[trigger]
        t.owners.contains_key(id) ==> t.owners[id] == s.owners[id]
    &&& forall|account: AccountId, id: KittyIndex| #[trigger]
        t.owned.contains((account, id)) <==> (s.owned.contains((account, id)) && id < bound)
    &&& forall|parent: KittyIndex, child: KittyIndex| #[trigger]
        t.children.contains((parent, child)) <==> (s.children.contains((parent, child)) && child
            < bound)
}

proof fn lemma_saved_replays_prefix(s: State, records: Seq<(Kitty, AccountId)>, k: nat)
    requires
        s.wf(),
        saved_as(s, records),
        k <= records.len(),
    ensures
        replayable(s.config, records.take(k as int)),
        agrees_below(
            replayed(s.config, records.take(k as int)),
            s,
            k * s.config.kitty_index_unit,
        ),
    decreases k,
{
    let unit = s.config.kitty_index_unit as int;
    let config = s.config;
    if k == 0 {
        assert(0 * unit == 0) by (nonlinear_arith);
        assert(records.take(0).len() == 0);
    } else {
        let j = (k - 1) as nat;
        lemma_saved_replays_prefix(s, records, j);
        let front = records.take(j as int);
        let upto = records.take(k as int);
        assert(upto.drop_last() =~= front);
        assert(upto.last() == records[j as int]);
        let t = replayed(config, front);
        lemma_replayed_wf(config, front);
        let id = (j * unit) as KittyIndex;
        let total = records.len() as int;
        assert(j * unit + unit == k * unit) by (nonlinear_arith)
            requires
                k == j + 1,
        ;
        assert(k * unit <= total * unit) by (nonlinear_arith)
            requires
                k <= total,
                unit >= 1,
        ;
        assert(j * unit >= 0) by (nonlinear_arith)
            requires
                j >= 0,
                unit >= 1,
        ;
        assert(t.count == id);
        vstd::arithmetic::div_mod::lemma_mod_multiples_basic(j as int, unit);
        assert(s.kitties.contains_key(id));
        assert(s.owners.contains_key(id));
        assert(s.kitty_wf(id));
        let kitty = s.kitties[id];
        let owner = s.owners[id];
        assert(records[j as int] == s.saved_record(j as int));
        assert(upto.last() == (kitty, owner));
        assert(t.next_kitty_id() is Ok);
        assert(storable(t, kitty)) by {
            if kitty.generation > 0 {
                let matron = kitty.matron_id->0;
                let sire = kitty.sire_id->0;
                assert(t.kitties.contains_key(matron));
                assert(t.kitties.contains_key(sire));
            }
        }
        let u = t.inserted(owner, id, kitty);
        assert(u == replayed(config, upto));
        lemma_next_fits(t);
        assert(!t.owners.contains_key(id));
        assert forall|other: KittyIndex| #[trigger]
            u.kitties.contains_key(other) <==> (s.kitties.contains_key(other) && other < k
                * unit) by {
            if s.kitties.contains_key(other) && id < other && other < k * unit {
                lemma_multiples_apart(id as int, other as int, unit);
            }
        }
        assert forall|other: KittyIndex| #[trigger]
            u.owners.contains_key(other) <==> (s.owners.contains_key(other) && other < k
                * unit) by {
            assert(s.owners.contains_key(other) <==> s.kitties.contains_key(other));
            assert(u.kitties.contains_key(other) <==> (s.kitties.contains_key(other) && other < k
                * unit));
            assert(t.owners.contains_key(other) <==> t.kitties.contains_key(other));
        }
        assert forall|account: AccountId, other: KittyIndex| #[trigger]
            u.owned.contains((account, other)) <==> (s.owned.contains((account, other)) && other
                < k * unit) by {
            assert(s.owned.contains((account, other)) <==> (s.owners.contains_key(other)
                && s.owners[other] == account));
            if other != id {
                assert(u.owned.contains((account, other)) <==> t.owned.contains((account, other)));
                assert(u.owners.contains_key(other) <==> (s.owners.contains_key(other) && other
                    < k * unit));
            }
        }
        assert forall|parent: KittyIndex, child: KittyIndex| #[trigger]
            u.children.contains((parent, child)) <==> (s.children.contains((parent, child))
                && child < k * unit) by {
            assert(s.children.contains((parent, child)) <==> s.is_parent_of(parent, child));
            if child != id {
                assert(u.children.contains((parent, child)) <==> t.children.contains(
                    (parent, child),
                ));
                if s.children.contains((parent, child)) {
                    assert(s.kitties.contains_key(child));
                    assert(u.kitties.contains_key(child) <==> (s.kitties.contains_key(child)
                        && child < k * unit));
                }
            }
        }
    }
}

/// What is saved of a state can be replayed, and the replay brings back its
/// count, its kitties, their owners, the owned sets and the children sets.
pub proof fn lemma_saved_replays(s: State, records: Seq<(Kitty, AccountId)>)
    requires
        s.wf(),
        saved_as(s, records),
    ensures
        replayable(s.config, records),
        replayed(s.config, records).count == s.count,
        replayed(s.config, records).kitties == s.kitties,
        replayed(s.config, records).owners == s.owners,
        replayed(s.config, records).owned == s.owned,
        replayed(s.config, records).children == s.children,
{
    lemma_saved_replays_prefix(s, records, records.len());
    assert(records.take(records.len() as int) =~= records);
    let t = replayed(s.config, records);
    assert forall|id: KittyIndex| #[trigger] s.kitties.contains_key(id) implies id < s.count by {}
    assert(t.kitties =~= s.kitties);
    assert(t.owners =~= s.owners) by {
        assert forall|id: KittyIndex| #[trigger] s.owners.contains_key(id) implies id
            < s.count by {
            assert(s.kitties.contains_key(id));
        }
    }
    assert(t.owned =~= s.owned) by {
        assert forall|p: (AccountId, KittyIndex)| s.owned.contains(p) implies p.1 < s.count by {
            assert(s.owned.contains((p.0, p.1)));
            assert(s.owners.contains_key(p.1));
            assert(s.kitties.contains_key(p.1));
        }
        assert forall|p: (AccountId, KittyIndex)| t.owned.contains(p) <==> s.owned.contains(p) by {
            assert(t.owned.contains((p.0, p.1)) <==> (s.owned.contains((p.0, p.1)) && p.1
                < s.count));
        }
    }
    assert(t.children =~= s.children) by {
        assert forall|p: (KittyIndex, KittyIndex)| s.children.contains(p) implies p.1
            < s.count by {
            assert(s.children.contains((p.0, p.1)));
            assert(s.is_parent_of(p.0, p.1));
            assert(s.kitties.contains_key(p.1));
        }
        assert forall|p: (KittyIndex, KittyIndex)|
            t.children.contains(p) <==> s.children.contains(p) by {
            assert(t.children.contains((p.0, p.1)) <==> (s.children.contains((p.0, p.1)) && p.1
                < s.count));
        }
    }
}

/// Whether `op` makes a kitty in `s`: it is a create or a breed, and it is
/// not refused.
pub open spec fn makes_kitty(s: State, op: Op) -> bool {
    (op is Create || op is Breed) && s.outcome(op) is Ok
}

/// An operation that makes a kitty moves the count up by exactly one step;
/// every other operation, and every refused one, leaves the count alone.
pub proof fn lemma_count_step(s: State, op: Op)
    requires
        s.wf(),
    ensures
        makes_kitty(s, op) ==> s.after(op).count == s.count + s.config.kitty_index_unit,
        makes_kitty(s, op) ==> s.after(op).count > s.count,
        !makes_kitty(s, op) ==> s.after(op).count == s.count,
        s.after(op).config == s.config,
{
    if makes_kitty(s, op) {
        lemma_next_fits(s);
    }
}

/// The state after the operations of `ops`, one after the other.
pub open spec fn run(s: State, ops: Seq<Op>) -> State
    decreases ops.len(),
{
    if ops.len() == 0 {
        s
    } else {
        run(s, ops.drop_last()).after(ops.last())
    }
}

/// How many of the operations of `ops`, run one after the other from `s`,
/// make a kitty.
pub open spec fn kitties_made(s: State, ops: Seq<Op>) -> nat
    decreases ops.len(),
{
    if ops.len() == 0 {
        0
    } else {
        kitties_made(s, ops.drop_last()) + if makes_kitty(run(s, ops.drop_last()), ops.last()) {
            1nat
        } else {
            0nat
        }
    }
}

/// Over any sequence of operations the invariant is kept, the count never
/// goes down, and it goes up by one step for each kitty made.
pub proof fn lemma_count_over_run(s: State, ops: Seq<Op>)
    requires
        s.wf(),
    ensures
        run(s, ops).wf(),
        run(s, ops).config == s.config,
        run(s, ops).count >= s.count,
        run(s, ops).count == s.count + kitties_made(s, ops) * s.config.kitty_index_unit,
    decreases ops.len(),
{
    if ops.len() > 0 {
        let before = run(s, ops.drop_last());
        lemma_count_over_run(s, ops.drop_last());
        lemma_after_wf(before, ops.last());
        lemma_count_step(before, ops.last());
        let made = kitties_made(s, ops.drop_last());
        let unit = s.config.kitty_index_unit as int;
        assert((made + 1) * unit == made * unit + unit) by (nonlinear_arith);
    } else {
        assert(kitties_made(s, ops) * s.config.kitty_index_unit == 0) by (nonlinear_arith)
            requires
                kitties_made(s, ops) == 0,
        ;
    }
}

/// A kitty is recorded under `id` if and only if `id` is below the count
/// and lies on a step; where the step is 1, if and only if it is below the
/// count.
pub proof fn lemma_exists_iff_below_count(s: State, id: KittyIndex)
    requires
        s.wf(),
    ensures
        s.kitties.contains_key(id) <==> (id < s.count && id % s.config.kitty_index_unit == 0),
        s.config.kitty_index_unit == 1 ==> (s.kitties.contains_key(id) <==> id < s.count),
        s.owners.contains_key(id) <==> s.kitties.contains_key(id),
{
    assert(s.kitties.contains_key(id) <==> (id < s.count && id % s.config.kitty_index_unit == 0));
    assert(s.owners.contains_key(id) <==> s.kitties.contains_key(id));
}

/// A recorded kitty has generation 0 if and only if it has no parents; a
/// kitty with a parent has both, and stands one generation after its sire.
pub proof fn lemma_founder_iff_no_parents(s: State, id: KittyIndex)
    requires
        s.wf(),
        s.kitties.contains_key(id),
    ensures
        s.kitties[id].generation == 0 <==> (s.kitties[id].matron_id is None
            && s.kitties[id].sire_id is None),
        s.kitties[id].generation > 0 ==> {
            &&& s.kitties[id].matron_id is Some
            &&& s.kitties[id].sire_id is Some
            &&& s.kitties.contains_key(s.kitties[id].sire_id->0)
            &&& s.kitties[id].generation == s.kitties[s.kitties[id].sire_id->0].generation + 1
        },
{
    assert(s.kitty_wf(id));
}

/// A bred kitty stands in the children set of its matron and in that of
/// its sire, and in no other; a founder stands in none, and no kitty stands
/// in its own.
pub proof fn lemma_children_sets(s: State, child: KittyIndex, parent: KittyIndex)
    requires
        s.wf(),
        s.kitties.contains_key(child),
    ensures
        s.kitties[child].generation > 0 ==> s.children.contains(
            (s.kitties[child].matron_id->0, child),
        ) && s.children.contains((s.kitties[child].sire_id->0, child)),
        s.children.contains((parent, child)) ==> s.kitties[child].generation > 0 && (parent
            == s.kitties[child].matron_id->0 || parent == s.kitties[child].sire_id->0),
        !s.children.contains((child, child)),
{
    assert(s.kitty_wf(child));
    let kitty = s.kitties[child];
    if kitty.generation > 0 {
        assert(s.is_parent_of(kitty.matron_id->0, child));
        assert(s.is_parent_of(kitty.sire_id->0, child));
    }
    assert(s.children.contains((parent, child)) <==> s.is_parent_of(parent, child));
    assert(s.children.contains((child, child)) <==> s.is_parent_of(child, child));
}

/// The owned set of an account holds exactly the kitties whose recorded
/// owner it is; every recorded kitty has an owner, and stands in the owned
/// set of that owner and of no other account.
pub proof fn lemma_owned_matches_owners(s: State, account: AccountId, id: KittyIndex)
    requires
        s.wf(),
    ensures
        s.owned.contains((account, id)) <==> (s.owners.contains_key(id) && s.owners[id]
            == account),
        s.owned_by(account).contains(id) <==> (s.owners.contains_key(id) && s.owners[id]
            == account),
        s.kitties.contains_key(id) ==> s.owners.contains_key(id) && s.owned.contains(
            (s.owners[id], id),
        ),
        s.kitties.contains_key(id) && s.owned.contains((account, id)) ==> account == s.owners[id],
{
    assert(s.owned.contains((account, id)) <==> (s.owners.contains_key(id) && s.owners[id]
        == account));
    if s.kitties.contains_key(id) {
        assert(s.owners.contains_key(id));
        assert(s.owned.contains((s.owners[id], id)) <==> (s.owners.contains_key(id)
            && s.owners[id] == s.owners[id]));
    }
}

/// After a transfer that was not refused the receiver owns the kitty, the
/// reserved deposit of the sender is down by exactly the value and that of
/// the receiver up by exactly the value; the free parts and the deposits of
/// all others are as before.
pub proof fn lemma_transfer_conserves(
    s: State,
    sender: AccountId,
    to: AccountId,
    kitty_id: KittyIndex,
    value: Balance,
)
    requires
        s.wf(),
        s.check_transfer(sender, to, kitty_id, value) is Ok,
        s.can_receive(to, value),
    ensures
        ({
            let t = s.transferred(sender, to, kitty_id, value);
            &&& t.owners[kitty_id] == to
            &&& t.owned.contains((to, kitty_id))
            &&& !t.owned.contains((sender, kitty_id))
            &&& reserved_of(t.accounts, sender) == reserved_of(s.accounts, sender) - value
            &&& reserved_of(t.accounts, to) == reserved_of(s.accounts, to) + value
            &&& reserved_of(t.accounts, sender) + reserved_of(t.accounts, to) == reserved_of(
                s.accounts,
                sender,
            ) + reserved_of(s.accounts, to)
            &&& t.accounts[sender].free == s.accounts[sender].free
            &&& forall|other: AccountId|
                other != sender && other != to ==> (t.accounts.contains_key(other)
                    <==> s.accounts.contains_key(other)) && t.accounts[other] == s.accounts[other]
        }),
{
}

/// No operation changes or removes the record of a kitty, nor the children
/// set in which a recorded kitty stands.
pub proof fn lemma_records_are_kept(s: State, op: Op, id: KittyIndex, parent: KittyIndex)
    requires
        s.wf(),
        s.kitties.contains_key(id),
    ensures
        s.after(op).kitties.contains_key(id),
        s.after(op).kitties[id] == s.kitties[id],
        s.after(op).children.contains((parent, id)) <==> s.children.contains((parent, id)),
{
    if s.outcome(op) is Ok && !(op is Transfer) {
        lemma_next_fits(s);
    }
}

/// An operation that is not refused has met the existential deposit: after
/// a create or a breed the sender's reserved deposit is at least that; a
/// transfer leaves from a reserved deposit of at least that and of at least
/// the value, and brings the receiver's to at least that.
pub proof fn lemma_deposit_floor(s: State, op: Op)
    requires
        s.wf(),
        s.outcome(op) is Ok,
        op matches Op::Transfer { to, value, .. } ==> s.can_receive(to, value),
    ensures
        match op {
            Op::Create { sender, new_free, new_reserved, .. } => s.after(op).accounts[sender]
                == (AccountData { free: new_free, reserved: new_reserved })
                && new_reserved >= s.config.existential_deposit,
            Op::Breed { sender, new_free, new_reserved, .. } => s.after(op).accounts[sender]
                == (AccountData { free: new_free, reserved: new_reserved })
                && new_reserved >= s.config.existential_deposit,
            Op::Transfer { sender, to, value, .. } => {
                &&& s.accounts[sender].reserved >= s.config.existential_deposit
                &&& s.accounts[sender].reserved >= value
                &&& s.after(op).accounts[to].reserved >= s.config.existential_deposit
            },
        },
{
}

/// A refused operation changes nothing.
pub proof fn lemma_refused_changes_nothing(s: State, op: Op)
    requires
        s.outcome(op) is Err,
    ensures
        s.after(op) == s,
{
}

} // verus!
