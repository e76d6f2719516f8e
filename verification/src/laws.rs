//! What holds of every allocation, proved from the definitions of the other
//! modules.

use vstd::prelude::*;
use vstd::seq_lib::seq_to_set_is_finite;
use vstd::set::axiom_set_union_finite;
use vstd::set_lib::lemma_len_subset;
use crate::config::{
    all_numbered, greatest_number, is_greatest_number, number_of, prefixed_names, record_names,
    spec_add_records, spec_enumerate_links_from_files, spec_index, spec_load,
    spec_next_link_name, NamingState,
};
use crate::decimal::{lemma_decimal_round_trip, spec_decimal};
use crate::error::NamingError;
use crate::link::NamingRecord;
use crate::store::{spec_records, spec_yields_record, LinkFileView};
use crate::orchestrator::{
    holds_lock, spec_resolve, spec_step, ActionView, EventView, OutcomeView, ResolutionView,
    StateView,
};

verus! {

/// The record of a resolution.
pub open spec fn record_of(resolution: ResolutionView) -> NamingRecord {
    match resolution {
        ResolutionView::Existing(record) => record,
        ResolutionView::New(record) => record,
    }
}

/// The records of the store after one run for the device with the hardware
/// address `address`: a new record is added at the end, an existing one
/// changes nothing, and so does a failure.
pub open spec fn spec_allocate(
    records: Seq<NamingRecord>,
    live_names: Seq<Seq<char>>,
    prefix: Seq<char>,
    address: Seq<u8>,
) -> Seq<NamingRecord> {
    match spec_resolve(spec_load(records, live_names, prefix), address) {
        Ok(ResolutionView::New(record)) => records.push(record),
        _ => records,
    }
}

/// The records of the store after one run for each of `addresses`, one after
/// the other. The run for `addresses[k]` finds the devices with the names
/// `live_names[k]` present.
pub open spec fn spec_allocate_all(
    records: Seq<NamingRecord>,
    live_names: Seq<Seq<Seq<char>>>,
    prefix: Seq<char>,
    addresses: Seq<Seq<u8>>,
) -> Seq<NamingRecord>
    recommends
        live_names.len() == addresses.len(),
    decreases addresses.len(),
{
    if addresses.len() == 0 {
        records
    } else {
        spec_allocate(
            spec_allocate_all(records, live_names.drop_last(), prefix, addresses.drop_last()),
            live_names.last(),
            prefix,
            addresses.last(),
        )
    }
}

/// The name with the number `k`.
pub open spec fn counted_name(prefix: Seq<char>, k: int) -> Seq<char> {
    prefix + spec_decimal(k as nat)
}

/// Whether each of `names` that begins with the prefix is one of the names
/// with the numbers below `given`.
pub open spec fn only_counted_names(names: Seq<Seq<char>>, prefix: Seq<char>, given: int) -> bool {
    forall|i: int|
        0 <= i < names.len() && prefix.is_prefix_of(#[trigger] names[i]) ==> exists|j: int|
            0 <= j < given && names[i] == #[trigger] counted_name(prefix, j)
}

/// The records that `addresses` get where no name is in use before: the
/// numbers count up from 0 in the order of the addresses.
pub open spec fn counted_records(prefix: Seq<char>, addresses: Seq<Seq<u8>>) -> Seq<NamingRecord> {
    Seq::new(
        addresses.len(),
        |k: int| NamingRecord { hardware_address: addresses[k], name: counted_name(prefix, k) },
    )
}

/// An address is in the index exactly if a record with a name that begins
/// with the prefix holds it, and the index gives such a record back.
pub proof fn lemma_index_holds_prefixed_records(
    records: Seq<NamingRecord>,
    prefix: Seq<char>,
    address: Seq<u8>,
)
    ensures
        spec_index(records, prefix).contains_key(address) <==> exists|i: int|
            0 <= i < records.len() && (#[trigger] records[i]).hardware_address == address
                && prefix.is_prefix_of(records[i].name),
        spec_index(records, prefix).contains_key(address) ==> {
            let record = spec_index(records, prefix)[address];
            &&& records.contains(record)
            &&& record.hardware_address == address
            &&& prefix.is_prefix_of(record.name)
        },
    decreases records.len(),
{
    if records.len() > 0 {
        let earlier = records.drop_last();
        lemma_index_holds_prefixed_records(earlier, prefix, address);
        let last = records.last();
        if spec_index(records, prefix).contains_key(address) {
            if prefix.is_prefix_of(last.name) && last.hardware_address == address {
                assert(records[records.len() - 1] == last);
            } else {
                let i = choose|i: int|
                    0 <= i < earlier.len() && (#[trigger] earlier[i]).hardware_address == address
                        && prefix.is_prefix_of(earlier[i].name);
                assert(records[i] == earlier[i]);
                let record = spec_index(earlier, prefix)[address];
                let j = choose|j: int| 0 <= j < earlier.len() && earlier[j] == record;
                assert(records[j] == record);
            }
        }
        if exists|i: int|
            0 <= i < records.len() && (#[trigger] records[i]).hardware_address == address
                && prefix.is_prefix_of(records[i].name) {
            let i = choose|i: int|
                0 <= i < records.len() && (#[trigger] records[i]).hardware_address == address
                    && prefix.is_prefix_of(records[i].name);
            if i < earlier.len() {
                assert(earlier[i] == records[i]);
            }
        }
    }
}

/// A name is known exactly if it begins with the prefix and a device present
/// or a record bears it.
pub proof fn lemma_known_names(
    records: Seq<NamingRecord>,
    live_names: Seq<Seq<char>>,
    prefix: Seq<char>,
    name: Seq<char>,
)
    ensures
        spec_load(records, live_names, prefix).all_known_names.contains(name) <==> prefix.is_prefix_of(
            name,
        ) && (live_names.contains(name) || exists|i: int|
            0 <= i < records.len() && (#[trigger] records[i]).name == name),
{
    let names = record_names(records);
    if names.contains(name) {
        let i = choose|i: int| 0 <= i < names.len() && names[i] == name;
        assert(records[i].name == name);
    }
    if exists|i: int| 0 <= i < records.len() && (#[trigger] records[i]).name == name {
        let i = choose|i: int| 0 <= i < records.len() && (#[trigger] records[i]).name == name;
        assert(names[i] == name);
    }
}

/// A state that was loaded is consistent: its known names are finitely many
/// and each begins with the prefix; every record of its index stands under its
/// own hardware address, so that no address has two records, and bears a known
/// name.
pub proof fn lemma_loaded_state_is_consistent(
    records: Seq<NamingRecord>,
    live_names: Seq<Seq<char>>,
    prefix: Seq<char>,
)
    ensures
        spec_load(records, live_names, prefix).consistent(),
{
    let state = spec_load(records, live_names, prefix);
    assert forall|address: Seq<u8>| #[trigger]
        state.records_by_address.contains_key(address) implies {
        &&& state.records_by_address[address].hardware_address == address
        &&& state.all_known_names.contains(state.records_by_address[address].name)
    } by {
        lemma_index_holds_prefixed_records(records, prefix, address);
        let record = state.records_by_address[address];
        let i = choose|i: int| 0 <= i < records.len() && records[i] == record;
        lemma_known_names(records, live_names, prefix, record.name);
    }
    assert(state.all_known_names.finite()) by {
        let sources = live_names.to_set().union(record_names(records).to_set());
        seq_to_set_is_finite(live_names);
        seq_to_set_is_finite(record_names(records));
        axiom_set_union_finite(live_names.to_set(), record_names(records).to_set());
        assert(state.all_known_names.subset_of(sources));
        lemma_len_subset(state.all_known_names, sources);
    }
}

/// Records that are added to a consistent state leave it consistent.
pub proof fn lemma_added_records_keep_consistency(state: NamingState, records: Seq<NamingRecord>)
    requires
        state.consistent(),
    ensures
        spec_add_records(state, records).consistent(),
{
    let prefix = state.prefix;
    let after = spec_add_records(state, records);
    let added = spec_load(records, Seq::empty(), prefix);
    lemma_loaded_state_is_consistent(records, Seq::empty(), prefix);
    assert forall|name: Seq<char>| #[trigger]
        added.all_known_names.contains(name) <==> prefixed_names(
            record_names(records),
            prefix,
        ).contains(name) by {
        lemma_known_names(records, Seq::empty(), prefix, name);
        if record_names(records).contains(name) {
            let i = choose|i: int|
                0 <= i < record_names(records).len() && record_names(records)[i] == name;
            assert(records[i].name == name);
        }
        if exists|i: int| 0 <= i < records.len() && (#[trigger] records[i]).name == name {
            let i = choose|i: int| 0 <= i < records.len() && (#[trigger] records[i]).name == name;
            assert(record_names(records)[i] == name);
        }
    }
    assert(added.all_known_names =~= prefixed_names(record_names(records), prefix));
    axiom_set_union_finite(state.all_known_names, added.all_known_names);
    assert forall|name: Seq<char>| #[trigger]
        after.all_known_names.contains(name) implies prefix.is_prefix_of(name) by {
        if !state.all_known_names.contains(name) {
            assert(added.all_known_names.contains(name));
        }
    }
    assert forall|address: Seq<u8>| #[trigger]
        after.records_by_address.contains_key(address) implies {
        &&& after.records_by_address[address].hardware_address == address
        &&& after.all_known_names.contains(after.records_by_address[address].name)
    } by {
        if added.records_by_address.contains_key(address) {
            assert(added.all_known_names.contains(added.records_by_address[address].name));
        } else {
            assert(state.records_by_address.contains_key(address));
        }
    }
}

/// A state may be loaded in one step or in two: the names of the devices
/// first, the records added then.
pub proof fn lemma_load_in_two_steps(
    records: Seq<NamingRecord>,
    live_names: Seq<Seq<char>>,
    prefix: Seq<char>,
)
    ensures
        spec_add_records(spec_load(Seq::empty(), live_names, prefix), records) == spec_load(
            records,
            live_names,
            prefix,
        ),
{
    let first = spec_load(Seq::empty(), live_names, prefix);
    let both = spec_add_records(first, records);
    let at_once = spec_load(records, live_names, prefix);
    assert(record_names(Seq::<NamingRecord>::empty()) =~= Seq::<Seq<char>>::empty());
    assert(both.all_known_names =~= at_once.all_known_names);
    assert(both.records_by_address =~= at_once.records_by_address);
    assert(both =~= at_once);
}

/// The name that stands for `number` carries that number.
pub proof fn lemma_number_of_counted_name(prefix: Seq<char>, number: nat)
    requires
        number <= u64::MAX,
    ensures
        prefix.is_prefix_of(prefix + spec_decimal(number)),
        number_of(prefix + spec_decimal(number), prefix) == Some(number as u64),
{
    let name = prefix + spec_decimal(number);
    lemma_decimal_round_trip(number);
    assert(name.skip(prefix.len() as int) =~= spec_decimal(number));
    assert(name.subrange(0, prefix.len() as int) =~= prefix);
}

/// Whether one of `names` carries the number `m`.
pub open spec fn bears_number(names: Set<Seq<char>>, prefix: Seq<char>, m: u64) -> bool {
    exists|name: Seq<char>| #[trigger] names.contains(name) && number_of(name, prefix) == Some(m)
}

proof fn lemma_greatest_up_to(names: Set<Seq<char>>, prefix: Seq<char>, bound: u64) -> (m: u64)
    requires
        exists|k: u64| k <= bound && #[trigger] bears_number(names, prefix, k),
    ensures
        m <= bound,
        bears_number(names, prefix, m),
        forall|k: u64| k <= bound && #[trigger] bears_number(names, prefix, k) ==> k <= m,
    decreases bound,
{
    if bears_number(names, prefix, bound) {
        bound
    } else {
        let k = choose|k: u64| k <= bound && #[trigger] bears_number(names, prefix, k);
        assert(k < bound);
        lemma_greatest_up_to(names, prefix, (bound - 1) as u64)
    }
}

/// Where names are in use and each carries a number, one of those numbers is
/// the greatest, and `greatest_number` is that one.
pub proof fn lemma_greatest_number_exists(names: Set<Seq<char>>, prefix: Seq<char>)
    requires
        !names.is_empty(),
        all_numbered(names, prefix),
    ensures
        is_greatest_number(names, prefix, greatest_number(names, prefix)),
{
    assert(exists|name: Seq<char>| names.contains(name)) by {
        if forall|name: Seq<char>| !names.contains(name) {
            assert(names =~= Set::empty());
        }
    }
    let some = choose|name: Seq<char>| names.contains(name);
    let k = number_of(some, prefix)->0;
    assert(bears_number(names, prefix, k));
    let m = lemma_greatest_up_to(names, prefix, u64::MAX);
    assert forall|name: Seq<char>| #[trigger]
        names.contains(name) && number_of(name, prefix) is Some implies number_of(name, prefix)->0
        <= m by {
        assert(bears_number(names, prefix, number_of(name, prefix)->0));
    }
    assert(is_greatest_number(names, prefix, m));
}

/// The name for a new device is not in use, and the number it carries is
/// greater than the number of every name in use.
pub proof fn lemma_next_name_exceeds_known(names: Set<Seq<char>>, prefix: Seq<char>)
    requires
        spec_next_link_name(names, prefix) is Ok,
    ensures
        ({
            let next = spec_next_link_name(names, prefix)->Ok_0;
            &&& prefix.is_prefix_of(next)
            &&& number_of(next, prefix) is Some
            &&& !names.contains(next)
            &&& forall|name: Seq<char>| #[trigger]
                names.contains(name) ==> number_of(name, prefix) is Some && number_of(
                    name,
                    prefix,
                )->0 < number_of(next, prefix)->0
        }),
{
    let next = spec_next_link_name(names, prefix)->Ok_0;
    if names.is_empty() {
        assert(seq!['0'] =~= spec_decimal(0));
        lemma_number_of_counted_name(prefix, 0);
    } else {
        lemma_greatest_number_exists(names, prefix);
        let greatest = greatest_number(names, prefix);
        lemma_number_of_counted_name(prefix, (greatest + 1) as nat);
    }
}

/// Idempotence. A run for a hardware address resolves to a record. Where that
/// record is new, it is added to the store. A second run for the same address
/// on the store as the first run left it then finds that very record, whatever
/// devices are present by then, and asks for no write: it goes on to release
/// the lock.
pub proof fn lemma_allocation_is_idempotent(
    records: Seq<NamingRecord>,
    live_names: Seq<Seq<char>>,
    later_live_names: Seq<Seq<char>>,
    prefix: Seq<char>,
    address: Seq<u8>,
)
    requires
        spec_resolve(spec_load(records, live_names, prefix), address) is Ok,
    ensures
        ({
            let first = spec_resolve(spec_load(records, live_names, prefix), address)->Ok_0;
            let stored = spec_allocate(records, live_names, prefix, address);
            let second = spec_resolve(spec_load(stored, later_live_names, prefix), address);
            &&& second == Ok::<ResolutionView, NamingError>(
                ResolutionView::Existing(record_of(first)),
            )
            &&& spec_step(
                StateView::Locked { prefix },
                EventView::Loaded {
                    records: stored,
                    live_names: later_live_names,
                    address: Some(address),
                },
            ) == (
                StateView::Releasing { outcome: OutcomeView::Existing(record_of(first)) },
                ActionView::ReleaseLock,
            )
        }),
{
    let first = spec_resolve(spec_load(records, live_names, prefix), address)->Ok_0;
    match first {
        ResolutionView::Existing(record) => {},
        ResolutionView::New(record) => {
            let known = spec_load(records, live_names, prefix).all_known_names;
            lemma_next_name_exceeds_known(known, prefix);
            let stored = records.push(record);
            assert(stored.drop_last() =~= records);
        },
    }
}

/// Monotonic uniqueness. Where no record bears a name that begins with the
/// prefix, and the devices present at each run bear no such name but those
/// that earlier runs gave, runs for distinct hardware addresses, one after the
/// other, give them the names with the numbers 0, 1, 2 and so on, in the order
/// of the runs. Other names, and the order in which the sources list them,
/// make no difference. There are no more addresses than there are numbers.
pub proof fn lemma_allocations_count_up(
    records: Seq<NamingRecord>,
    live_names: Seq<Seq<Seq<char>>>,
    prefix: Seq<char>,
    addresses: Seq<Seq<u8>>,
)
    requires
        only_counted_names(record_names(records), prefix, 0),
        live_names.len() == addresses.len(),
        forall|k: int|
            0 <= k < live_names.len() ==> only_counted_names(#[trigger] live_names[k], prefix, k),
        addresses.no_duplicates(),
        addresses.len() <= u64::MAX + 1,
    ensures
        spec_allocate_all(records, live_names, prefix, addresses) == records + counted_records(
            prefix,
            addresses,
        ),
    decreases addresses.len(),
{
    let count = addresses.len() as int;
    if count == 0 {
        assert(records + counted_records(prefix, addresses) =~= records);
    } else {
        let earlier = addresses.drop_last();
        let address = addresses.last();
        let present = live_names.last();
        assert forall|k: int| 0 <= k < live_names.drop_last().len() implies only_counted_names(
            #[trigger] live_names.drop_last()[k],
            prefix,
            k,
        ) by {
            assert(live_names.drop_last()[k] == live_names[k]);
        }
        lemma_allocations_count_up(records, live_names.drop_last(), prefix, earlier);
        assert(only_counted_names(present, prefix, count - 1)) by {
            assert(present == live_names[count - 1]);
        }
        let before = records + counted_records(prefix, earlier);
        let state = spec_load(before, present, prefix);
        let names = state.all_known_names;
        // No record of the store at first bears a name with the prefix.
        assert forall|i: int| 0 <= i < records.len() implies !prefix.is_prefix_of(
            (#[trigger] records[i]).name,
        ) by {
            assert(record_names(records)[i] == records[i].name);
        }
        // The names in use are those that the earlier runs gave.
        assert forall|name: Seq<char>| names.contains(name) <==> exists|k: int|
            0 <= k < count - 1 && name == #[trigger] counted_name(prefix, k) by {
            lemma_known_names(before, present, prefix, name);
            if names.contains(name) {
                if present.contains(name) {
                    let i = choose|i: int| 0 <= i < present.len() && present[i] == name;
                    assert(prefix.is_prefix_of(present[i]));
                } else {
                    let i = choose|i: int|
                        0 <= i < before.len() && (#[trigger] before[i]).name == name;
                    if i < records.len() {
                        assert(records[i].name == name);
                    } else {
                        assert(name == counted_name(prefix, i - records.len()));
                    }
                }
            }
            if exists|k: int| 0 <= k < count - 1 && name == #[trigger] counted_name(prefix, k) {
                let k = choose|k: int|
                    0 <= k < count - 1 && name == #[trigger] counted_name(prefix, k);
                lemma_number_of_counted_name(prefix, k as nat);
                assert(before[records.len() + k].name == name);
            }
        }
        // The new address has no record yet.
        assert(!state.records_by_address.contains_key(address)) by {
            lemma_index_holds_prefixed_records(before, prefix, address);
            if state.records_by_address.contains_key(address) {
                let i = choose|i: int|
                    0 <= i < before.len() && (#[trigger] before[i]).hardware_address == address
                        && prefix.is_prefix_of(before[i].name);
                if i < records.len() {
                    assert(before[i] == records[i]);
                } else {
                    assert(earlier[i - records.len()] == addresses[i - records.len()]);
                }
            }
        }
        // So it gets the next number.
        let expected = counted_name(prefix, count - 1);
        assert(spec_next_link_name(names, prefix) == Ok::<Seq<char>, NamingError>(expected)) by {
            if count == 1 {
                assert(names =~= Set::empty());
                assert(seq!['0'] =~= spec_decimal(0));
            } else {
                let top = counted_name(prefix, count - 2);
                assert(names.contains(top));
                assert forall|name: Seq<char>| #[trigger] names.contains(name) implies number_of(
                    name,
                    prefix,
                ) is Some && number_of(name, prefix)->0 <= count - 2 by {
                    let k = choose|k: int|
                        0 <= k < count - 1 && name == #[trigger] counted_name(prefix, k);
                    lemma_number_of_counted_name(prefix, k as nat);
                }
                lemma_number_of_counted_name(prefix, (count - 2) as nat);
                assert(is_greatest_number(names, prefix, (count - 2) as u64));
                lemma_greatest_number_exists(names, prefix);
            }
        }
        let record = NamingRecord { hardware_address: address, name: expected };
        assert(before.push(record) =~= records + counted_records(prefix, addresses));
    }
}

/// Runs that follow one another never give one name twice. Where a run for
/// one device has added a new record to the store and a later run makes a new
/// record for another device, the number of the later name is greater than
/// that of the earlier one, whatever devices are present by then.
pub proof fn lemma_later_name_is_greater(
    records: Seq<NamingRecord>,
    live_names: Seq<Seq<char>>,
    later_live_names: Seq<Seq<char>>,
    prefix: Seq<char>,
    first: Seq<u8>,
    second: Seq<u8>,
)
    requires
        spec_resolve(spec_load(records, live_names, prefix), first) is Ok,
        spec_resolve(spec_load(records, live_names, prefix), first)->Ok_0 is New,
        spec_resolve(
            spec_load(spec_allocate(records, live_names, prefix, first), later_live_names, prefix),
            second,
        ) is Ok,
        spec_resolve(
            spec_load(spec_allocate(records, live_names, prefix, first), later_live_names, prefix),
            second,
        )->Ok_0 is New,
    ensures
        ({
            let earlier = record_of(
                spec_resolve(spec_load(records, live_names, prefix), first)->Ok_0,
            );
            let later = record_of(
                spec_resolve(
                    spec_load(
                        spec_allocate(records, live_names, prefix, first),
                        later_live_names,
                        prefix,
                    ),
                    second,
                )->Ok_0,
            );
            &&& number_of(earlier.name, prefix) is Some
            &&& number_of(later.name, prefix) is Some
            &&& number_of(earlier.name, prefix)->0 < number_of(later.name, prefix)->0
            &&& earlier.name != later.name
        }),
{
    let known = spec_load(records, live_names, prefix).all_known_names;
    lemma_next_name_exceeds_known(known, prefix);
    let earlier = record_of(spec_resolve(spec_load(records, live_names, prefix), first)->Ok_0);
    let stored = records.push(earlier);
    let later_known = spec_load(stored, later_live_names, prefix).all_known_names;
    lemma_next_name_exceeds_known(later_known, prefix);
    lemma_known_names(stored, later_live_names, prefix, earlier.name);
    assert(stored[records.len() as int].name == earlier.name);
}

/// Malformed record isolation. A file that yields no record makes no
/// difference to the records that the other files yield, wherever it stands
/// among them, and so none to the state that the files are read into.
pub proof fn lemma_skipped_file_changes_nothing(files: Seq<LinkFileView>, place: int, file: LinkFileView)
    requires
        0 <= place <= files.len(),
        !spec_yields_record(file),
    ensures
        spec_records(files.insert(place, file)) == spec_records(files),
        forall|state: NamingState| #[trigger]
            spec_enumerate_links_from_files(state, files.insert(place, file))
                == spec_enumerate_links_from_files(state, files),
    decreases files.len(),
{
    let with = files.insert(place, file);
    if place == files.len() {
        assert(with.drop_last() =~= files);
    } else {
        lemma_skipped_file_changes_nothing(files.drop_last(), place, file);
        assert(with.drop_last() =~= files.drop_last().insert(place, file));
        assert(with.last() == files.last());
    }
}

/// Source-union dedup. A name that a record bears adds nothing when a device
/// present bears it too: the state is the same with and without it among the
/// names of the devices, and so is the next name.
pub proof fn lemma_name_in_both_sources_counts_once(
    records: Seq<NamingRecord>,
    live_names: Seq<Seq<char>>,
    prefix: Seq<char>,
    name: Seq<char>,
)
    requires
        record_names(records).contains(name),
    ensures
        spec_load(records, live_names.push(name), prefix) == spec_load(records, live_names, prefix),
        spec_next_link_name(
            spec_load(records, live_names.push(name), prefix).all_known_names,
            prefix,
        ) == spec_next_link_name(spec_load(records, live_names, prefix).all_known_names, prefix),
{
    let with = spec_load(records, live_names.push(name), prefix);
    let without = spec_load(records, live_names, prefix);
    assert forall|n: Seq<char>| with.all_known_names.contains(n) <==> without.all_known_names.contains(
        n,
    ) by {
        lemma_known_names(records, live_names.push(name), prefix, n);
        lemma_known_names(records, live_names, prefix, n);
        lemma_known_names(records, live_names, prefix, name);
        if live_names.push(name).contains(n) {
            let i = choose|i: int| 0 <= i < live_names.push(name).len() && live_names.push(name)[i] == n;
            if i < live_names.len() {
                assert(live_names[i] == n);
            }
        }
        if live_names.contains(n) {
            let i = choose|i: int| 0 <= i < live_names.len() && live_names[i] == n;
            assert(live_names.push(name)[i] == n);
        }
    }
    assert(with.all_known_names =~= without.all_known_names);
    assert(with =~= without);
}

/// The lock discipline of a run. The lock comes to be held only when the
/// caller reports that it was taken, and ceases to be held only when the caller
/// reports that it was released. The process is told to end exactly when the
/// run is over, and the lock is not held then; while the lock is held and a
/// run is to end, the release of the lock is asked for. The system is read and
/// the link file is written only while the lock is held.
pub proof fn lemma_lock_discipline(state: StateView, event: EventView)
    ensures
        ({
            let (next, action) = spec_step(state, event);
            &&& !holds_lock(state) && holds_lock(next) ==> state is Locking && event is LockAcquired
            &&& holds_lock(state) && !holds_lock(next) ==> state is Releasing && event is LockReleased
            &&& action is Exit <==> next is Unlocked
            &&& action is ReleaseLock <==> next is Releasing
            &&& action is AcquireLock <==> next is Locking
            &&& action is LoadState <==> next is Locked
            &&& action is WriteRecord <==> next is Writing
            &&& next is Writing ==> state is Locked
        }),
{
}

} // verus!
