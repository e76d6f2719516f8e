//! The naming state of one run: which names are in use, and which hardware
//! address already has a name.

use std::collections::HashMap;
use vstd::prelude::*;
use vstd::string::*;
use crate::address::{lemma_key_injective, spec_key, HardwareAddress};
use crate::decimal::{decimal_string, parse_u64, spec_decimal, spec_parse_u64};
use crate::error::NamingError;
use crate::laws::{lemma_added_records_keep_consistency, lemma_loaded_state_is_consistent};
use crate::link::{LinkConfig, NamingRecord};
use crate::store::{list_records, spec_records, spec_skipped, LinkFile, LinkFileView};
use crate::text::{chars_of, starts_with};

verus! {

broadcast use vstd::std_specs::hash::group_hash_axioms;

/// The naming state as contracts see it.
#[verifier::ext_equal]
pub struct NamingState {
    /// What every name that this library gives begins with.
    pub prefix: Seq<char>,
    /// The record of each hardware address that has one.
    pub records_by_address: Map<Seq<u8>, NamingRecord>,
    /// Every name that begins with the prefix and is in use.
    pub all_known_names: Set<Seq<char>>,
}

impl NamingState {
    /// What holds of a naming state: the known names are finitely many and
    /// each begins with the prefix; every record of the index stands under its
    /// own hardware address and bears a known name.
    pub open spec fn consistent(self) -> bool {
        &&& self.all_known_names.finite()
        &&& forall|name: Seq<char>| #[trigger]
            self.all_known_names.contains(name) ==> self.prefix.is_prefix_of(name)
        &&& forall|address: Seq<u8>| #[trigger]
            self.records_by_address.contains_key(address) ==> {
                &&& self.records_by_address[address].hardware_address == address
                &&& self.all_known_names.contains(self.records_by_address[address].name)
            }
    }
}

/// The names of the records, in the order of the records.
pub open spec fn record_names(records: Seq<NamingRecord>) -> Seq<Seq<char>> {
    records.map_values(|record: NamingRecord| record.name)
}

/// Those of `names` that begin with `prefix`, each once.
pub open spec fn prefixed_names(names: Seq<Seq<char>>, prefix: Seq<char>) -> Set<Seq<char>> {
    Set::new(|name: Seq<char>| prefix.is_prefix_of(name) && names.contains(name))
}

/// The index of the records whose name begins with `prefix`, by hardware
/// address. Where two records have one address, the later one counts.
pub open spec fn spec_index(records: Seq<NamingRecord>, prefix: Seq<char>) -> Map<Seq<u8>, NamingRecord>
    decreases records.len(),
{
    if records.len() == 0 {
        Map::empty()
    } else {
        let earlier = spec_index(records.drop_last(), prefix);
        let record = records.last();
        if prefix.is_prefix_of(record.name) {
            earlier.insert(record.hardware_address, record)
        } else {
            earlier
        }
    }
}

/// The state that the records of the store and the names of the devices
/// present make: the index is built from the records alone; the known names are
/// those of both sources that begin with the prefix.
pub open spec fn spec_load(
    records: Seq<NamingRecord>,
    live_names: Seq<Seq<char>>,
    prefix: Seq<char>,
) -> NamingState {
    NamingState {
        prefix,
        records_by_address: spec_index(records, prefix),
        all_known_names: prefixed_names(live_names, prefix).union(
            prefixed_names(record_names(records), prefix),
        ),
    }
}

/// The state with `records` added: the index holds their records too, a later
/// record of an address counting before an earlier one, and their names are
/// known too, as far as they begin with the prefix.
pub open spec fn spec_add_records(state: NamingState, records: Seq<NamingRecord>) -> NamingState {
    NamingState {
        prefix: state.prefix,
        records_by_address: state.records_by_address.union_prefer_right(
            spec_index(records, state.prefix),
        ),
        all_known_names: state.all_known_names.union(
            prefixed_names(record_names(records), state.prefix),
        ),
    }
}

/// The state with the records of the link files among `files` added. A file
/// that yields no record adds nothing.
pub open spec fn spec_enumerate_links_from_files(state: NamingState, files: Seq<LinkFileView>) -> NamingState {
    spec_add_records(state, spec_records(files))
}

/// The number that a name carries behind the prefix.
pub open spec fn number_of(name: Seq<char>, prefix: Seq<char>) -> Option<u64> {
    spec_parse_u64(name.skip(prefix.len() as int))
}

/// Whether every one of `names` carries a number behind the prefix.
pub open spec fn all_numbered(names: Set<Seq<char>>, prefix: Seq<char>) -> bool {
    forall|name: Seq<char>| #[trigger]
        names.contains(name) ==> number_of(name, prefix) is Some
}

/// Whether `m` is the number of one of `names` and no name carries a greater
/// one.
pub open spec fn is_greatest_number(names: Set<Seq<char>>, prefix: Seq<char>, m: u64) -> bool {
    &&& exists|name: Seq<char>| #[trigger]
        names.contains(name) && number_of(name, prefix) == Some(m)
    &&& forall|name: Seq<char>| #[trigger]
        names.contains(name) && number_of(name, prefix) is Some ==> number_of(name, prefix)->0
            <= m
}

/// The greatest number that one of `names` carries.
pub open spec fn greatest_number(names: Set<Seq<char>>, prefix: Seq<char>) -> u64 {
    choose|m: u64| is_greatest_number(names, prefix, m)
}

/// The name for a device that has none yet. With no name in use it carries
/// the number 0. Otherwise it carries the successor of the greatest number in
/// use. A name in use that carries no number has no place in that order, and a
/// greatest number without a successor leaves no name to give: both fail.
pub open spec fn spec_next_link_name(names: Set<Seq<char>>, prefix: Seq<char>) -> Result<Seq<char>, NamingError> {
    if names.is_empty() {
        Ok(prefix + seq!['0'])
    } else if !all_numbered(names, prefix) {
        Err(NamingError::MalformedName)
    } else if greatest_number(names, prefix) == u64::MAX {
        Err(NamingError::NamesExhausted)
    } else {
        Ok(prefix + spec_decimal((greatest_number(names, prefix) + 1) as nat))
    }
}

/// What a fallible function that makes a name returns, as contracts see it.
pub open spec fn name_outcome(r: Result<String, NamingError>) -> Result<Seq<char>, NamingError> {
    match r {
        Ok(name) => Ok(name@),
        Err(e) => Err(e),
    }
}

/// The naming state of one run.
pub struct NetSetupLinkConfig {
    config: HashMap<u64, LinkConfig>,
    links: Vec<String>,
    ifname_prefix: String,
}

/// The names that a list of names holds.
spec fn names_view(links: Seq<String>) -> Set<Seq<char>> {
    Set::new(|name: Seq<char>| exists|i: int| 0 <= i < links.len() && (#[trigger] links[i])@ == name)
}

/// The index that a map from keys to records stands for.
spec fn index_view(config: Map<u64, LinkConfig>) -> Map<Seq<u8>, NamingRecord> {
    Map::new(
        |address: Seq<u8>| address.len() == 6 && config.contains_key(spec_key(address) as u64),
        |address: Seq<u8>| config[spec_key(address) as u64]@,
    )
}

/// A list of names in which no name stands twice and every name begins with
/// `prefix`.
spec fn distinct_prefixed(links: Seq<String>, prefix: Seq<char>) -> bool {
    &&& forall|i: int, j: int|
        0 <= i < j < links.len() ==> (#[trigger] links[i])@ != (#[trigger] links[j])@
    &&& forall|i: int| 0 <= i < links.len() ==> prefix.is_prefix_of((#[trigger] links[i])@)
}

proof fn lemma_names_view_push(links: Seq<String>, name: String)
    ensures
        names_view(links.push(name)) == names_view(links).insert(name@),
{
    let longer = links.push(name);
    assert forall|n: Seq<char>| names_view(longer).contains(n) implies names_view(links).insert(
        name@,
    ).contains(n) by {
        let i = choose|i: int| 0 <= i < longer.len() && (#[trigger] longer[i])@ == n;
        if i < links.len() {
            assert(links[i]@ == n);
        }
    }
    assert forall|n: Seq<char>| names_view(links).insert(name@).contains(n) implies names_view(
        longer,
    ).contains(n) by {
        if n == name@ {
            assert(longer[links.len() as int]@ == n);
        } else {
            let i = choose|i: int| 0 <= i < links.len() && (#[trigger] links[i])@ == n;
            assert(longer[i]@ == n);
        }
    }
    assert(names_view(longer) =~= names_view(links).insert(name@));
}

proof fn lemma_prefixed_names_push(names: Seq<Seq<char>>, name: Seq<char>, prefix: Seq<char>)
    ensures
        prefixed_names(names.push(name), prefix) == if prefix.is_prefix_of(name) {
            prefixed_names(names, prefix).insert(name)
        } else {
            prefixed_names(names, prefix)
        },
{
    let longer = names.push(name);
    let expected = if prefix.is_prefix_of(name) {
        prefixed_names(names, prefix).insert(name)
    } else {
        prefixed_names(names, prefix)
    };
    assert forall|n: Seq<char>| prefixed_names(longer, prefix).contains(n) implies expected.contains(
        n,
    ) by {
        let i = choose|i: int| 0 <= i < longer.len() && longer[i] == n;
        if i < names.len() {
            assert(names[i] == n);
        }
    }
    assert forall|n: Seq<char>| expected.contains(n) implies prefixed_names(longer, prefix).contains(
        n,
    ) by {
        if n == name && prefix.is_prefix_of(name) {
            assert(longer[names.len() as int] == n);
        } else {
            let i = choose|i: int| 0 <= i < names.len() && names[i] == n;
            assert(longer[i] == n);
        }
    }
    assert(prefixed_names(longer, prefix) =~= expected);
}

proof fn lemma_index_view_insert(config: Map<u64, LinkConfig>, record: LinkConfig)
    ensures
        index_view(config.insert(spec_key(record.hwaddr@) as u64, record)) == index_view(
            config,
        ).insert(record.hwaddr@, record@),
{
    let key = spec_key(record.hwaddr@) as u64;
    let after = index_view(config.insert(key, record));
    let expected = index_view(config).insert(record.hwaddr@, record@);
    assert forall|address: Seq<u8>| address.len() == 6 && address != record.hwaddr@ implies spec_key(
        address,
    ) as u64 != key by {
        if spec_key(address) == spec_key(record.hwaddr@) {
            lemma_key_injective(address, record.hwaddr@);
        }
    }
    assert(after =~= expected);
}

fn contains_name(names: &Vec<String>, name: &String) -> (r: bool)
    ensures
        r == names_view(names@).contains(name@),
{
    let mut i: usize = 0;
    while i < names.len()
        invariant
            i <= names.len(),
            forall|j: int| 0 <= j < i ==> (#[trigger] names@[j])@ != name@,
        decreases names.len() - i,
    {
        if names[i] == *name {
            return true;
        }
        i += 1;
    }
    false
}

impl View for NetSetupLinkConfig {
    type V = NamingState;

    closed spec fn view(&self) -> NamingState {
        NamingState {
            prefix: self.ifname_prefix@,
            records_by_address: index_view(self.config@),
            all_known_names: names_view(self.links@),
        }
    }
}

impl NetSetupLinkConfig {
    #[verifier::type_invariant]
    spec fn well_formed(&self) -> bool {
        distinct_prefixed(self.links@, self.ifname_prefix@)
    }

    /// A state for `prefix` in which nothing is known yet.
    pub fn new_with_prefix(prefix: &String) -> (r: Self)
        ensures
            r@ == (NamingState {
                prefix: prefix@,
                records_by_address: Map::empty(),
                all_known_names: Set::empty(),
            }),
            r@.consistent(),
    {
        let r = NetSetupLinkConfig {
            config: HashMap::new(),
            links: Vec::new(),
            ifname_prefix: prefix.clone(),
        };
        proof {
            assert(index_view(r.config@) =~= Map::empty());
            assert(names_view(r.links@) =~= Set::empty());
        }
        r
    }

    /// Builds the state anew from the records of the store and the names of
    /// the devices that are present.
    pub fn load(&mut self, records: &Vec<LinkConfig>, live_names: &Vec<String>)
        ensures
            final(self)@ == spec_load(
                records.deep_view(),
                live_names.deep_view(),
                old(self)@.prefix,
            ),
            final(self)@.consistent(),
    {
        let prefix = chars_of(self.ifname_prefix.as_str());
        let mut links = Self::enumerate_links_from_udev(&prefix, live_names);
        let mut config: HashMap<u64, LinkConfig> = HashMap::new();
        proof {
            assert(index_view(config@) =~= Map::empty());
        }
        Self::add_records(&prefix, records, &mut config, &mut links);
        proof {
            use_type_invariant(&*self);
            assert(index_view(config@) =~= spec_index(records.deep_view(), prefix@));
        }
        self.config = config;
        self.links = links;
        proof {
            assert(self@ =~= spec_load(
                records.deep_view(),
                live_names.deep_view(),
                old(self)@.prefix,
            ));
            lemma_loaded_state_is_consistent(
                records.deep_view(),
                live_names.deep_view(),
                old(self)@.prefix,
            );
        }
    }

    /// The names of the devices present that begin with the prefix, each once.
    fn enumerate_links_from_udev(prefix: &Vec<char>, live_names: &Vec<String>) -> (links: Vec<String>)
        ensures
            distinct_prefixed(links@, prefix@),
            names_view(links@) == prefixed_names(live_names.deep_view(), prefix@),
    {
        let mut links: Vec<String> = Vec::new();
        let ghost all = live_names.deep_view();
        proof {
            assert(names_view(links@) =~= prefixed_names(all.take(0), prefix@));
        }
        let mut i: usize = 0;
        while i < live_names.len()
            invariant
                i <= live_names.len(),
                all == live_names.deep_view(),
                distinct_prefixed(links@, prefix@),
                names_view(links@) == prefixed_names(all.take(i as int), prefix@),
            decreases live_names.len() - i,
        {
            let name = &live_names[i];
            let chars = chars_of(name.as_str());
            proof {
                assert(all.take(i + 1) =~= all.take(i as int).push(name@));
                lemma_prefixed_names_push(all.take(i as int), name@, prefix@);
            }
            if starts_with(&chars, prefix) && !contains_name(&links, name) {
                proof {
                    lemma_names_view_push(links@, *name);
                }
                links.push(name.clone());
            }
            i += 1;
        }
        proof {
            assert(all.take(i as int) =~= all);
        }
        links
    }

    /// Adds the records whose name begins with the prefix to `config`, and their
    /// names to `links`.
    fn add_records(
        prefix: &Vec<char>,
        records: &Vec<LinkConfig>,
        config: &mut HashMap<u64, LinkConfig>,
        links: &mut Vec<String>,
    )
        requires
            distinct_prefixed(old(links)@, prefix@),
        ensures
            distinct_prefixed(final(links)@, prefix@),
            names_view(final(links)@) == names_view(old(links)@).union(
                prefixed_names(record_names(records.deep_view()), prefix@),
            ),
            index_view(final(config)@) == index_view(old(config)@).union_prefer_right(
                spec_index(records.deep_view(), prefix@),
            ),
    {
        let ghost all = records.deep_view();
        let ghost names = record_names(all);
        let ghost index = index_view(config@);
        proof {
            assert(index_view(config@) =~= index.union_prefer_right(
                spec_index(all.take(0), prefix@),
            ));
            assert(names_view(links@) =~= names_view(old(links)@).union(
                prefixed_names(names.take(0), prefix@),
            ));
        }
        let mut i: usize = 0;
        while i < records.len()
            invariant
                i <= records.len(),
                all == records.deep_view(),
                names == record_names(all),
                distinct_prefixed(links@, prefix@),
                names_view(links@) == names_view(old(links)@).union(
                    prefixed_names(names.take(i as int), prefix@),
                ),
                index_view(config@) == index.union_prefer_right(
                    spec_index(all.take(i as int), prefix@),
                ),
            decreases records.len() - i,
        {
            let record = &records[i];
            let chars = chars_of(record.name.as_str());
            proof {
                assert(all.take(i + 1).drop_last() =~= all.take(i as int));
                assert(all.take(i + 1).last() == record@);
                assert(names.take(i + 1) =~= names.take(i as int).push(record.name@));
                lemma_prefixed_names_push(names.take(i as int), record.name@, prefix@);
            }
            if starts_with(&chars, prefix) {
                let ghost before = config@;
                let copy = record.clone();
                proof {
                    lemma_index_view_insert(before, copy);
                }
                config.insert(record.hwaddr.key(), copy);
                proof {
                    let earlier = spec_index(all.take(i as int), prefix@);
                    assert(index_view(config@) == index_view(before).insert(
                        record.hwaddr@,
                        record@,
                    ));
                    assert(index.union_prefer_right(earlier).insert(record.hwaddr@, record@)
                        =~= index.union_prefer_right(earlier.insert(record.hwaddr@, record@)));
                }
                if !contains_name(links, &record.name) {
                    proof {
                        lemma_names_view_push(links@, record.name);
                    }
                    links.push(record.name.clone());
                }
            }
            proof {
                assert(names_view(links@) =~= names_view(old(links)@).union(
                    prefixed_names(names.take(i + 1), prefix@),
                ));
                assert(index_view(config@) =~= index.union_prefer_right(
                    spec_index(all.take(i + 1), prefix@),
                ));
            }
            i += 1;
        }
        proof {
            assert(all.take(i as int) =~= all);
            assert(names.take(i as int) =~= names);
        }
    }

    /// Reads the records out of `files` and adds them to the state. A file
    /// that is not named as a link file of this library, or whose text holds no
    /// record, adds nothing and does not stand in the way of the others; the
    /// places of those files in the list are returned.
    pub fn enumerate_links_from_files(&mut self, files: &Vec<LinkFile>) -> (skipped: Vec<usize>)
        ensures
            final(self)@ == spec_enumerate_links_from_files(old(self)@, files.deep_view()),
            skipped@ == spec_skipped(files.deep_view()),
            old(self)@.consistent() ==> final(self)@.consistent(),
    {
        let listing = list_records(files);
        let prefix = chars_of(self.ifname_prefix.as_str());
        proof {
            use_type_invariant(&*self);
        }
        let mut config: HashMap<u64, LinkConfig> = HashMap::new();
        let mut links: Vec<String> = Vec::new();
        std::mem::swap(&mut config, &mut self.config);
        std::mem::swap(&mut links, &mut self.links);
        Self::add_records(&prefix, &listing.records, &mut config, &mut links);
        self.config = config;
        self.links = links;
        proof {
            assert(self@ =~= spec_enumerate_links_from_files(old(self)@, files.deep_view()));
            if old(self)@.consistent() {
                lemma_added_records_keep_consistency(old(self)@, spec_records(files.deep_view()));
            }
        }
        listing.skipped
    }

    /// The prefix of this state.
    pub fn prefix(&self) -> (r: String)
        ensures
            r@ == self@.prefix,
    {
        self.ifname_prefix.clone()
    }

    /// The names in use that begin with the prefix, each once.
    pub fn known_names(&self) -> (r: Vec<String>)
        ensures
            r.deep_view().no_duplicates(),
            r.deep_view().to_set() == self@.all_known_names,
    {
        proof {
            use_type_invariant(self);
        }
        let mut names: Vec<String> = Vec::new();
        let mut i: usize = 0;
        while i < self.links.len()
            invariant
                i <= self.links.len(),
                names.deep_view() == self.links.deep_view().take(i as int),
            decreases self.links.len() - i,
        {
            let ghost before = names.deep_view();
            names.push(self.links[i].clone());
            proof {
                assert(names.deep_view() =~= before.push(self.links@[i as int]@));
                assert(self.links.deep_view().take(i + 1) =~= before.push(self.links@[i as int]@));
            }
            i += 1;
        }
        proof {
            let all = self.links.deep_view();
            assert(all.take(i as int) =~= all);
            assert forall|a: int, b: int| 0 <= a < all.len() && 0 <= b < all.len() && a != b implies all[a] != all[b] by {
                if a < b {
                    assert(self.links@[a]@ != self.links@[b]@);
                } else {
                    assert(self.links@[b]@ != self.links@[a]@);
                }
            }
            assert forall|n: Seq<char>| all.to_set().contains(n) <==> names_view(self.links@).contains(n) by {
                if all.contains(n) {
                    let k = choose|k: int| 0 <= k < all.len() && all[k] == n;
                    assert(self.links@[k]@ == n);
                }
                if names_view(self.links@).contains(n) {
                    let k = choose|k: int| 0 <= k < self.links@.len() && (#[trigger] self.links@[k])@ == n;
                    assert(all[k] == n);
                }
            }
            assert(all.to_set() =~= names_view(self.links@));
        }
        names
    }

    /// The record of `mac`, where the state holds one.
    pub fn for_hwaddr(&self, mac: &HardwareAddress) -> (r: Option<LinkConfig>)
        ensures
            r.deep_view() == if self@.records_by_address.contains_key(mac@) {
                Some(self@.records_by_address[mac@])
            } else {
                None
            },
    {
        let key = mac.key();
        if let Some(c) = self.config.get(&key) {
            return Some(c.clone());
        }
        None
    }

    /// The name for a device that has none yet.
    pub fn next_link_name(&self) -> (r: Result<String, NamingError>)
        ensures
            name_outcome(r) == spec_next_link_name(self@.all_known_names, self@.prefix),
    {
        proof {
            use_type_invariant(self);
        }
        let ghost names = names_view(self.links@);
        if self.links.len() == 0 {
            proof {
                reveal_strlit("0");
                assert("0"@ =~= seq!['0']);
                assert(names =~= Set::empty());
                assert(names.is_empty());
            }
            let mut name = self.ifname_prefix.clone();
            name.append("0");
            return Ok(name);
        }
        assert(names.contains(self.links@[0]@));
        let prefix = chars_of(self.ifname_prefix.as_str());
        let mut greatest: u64 = 0;
        let ghost mut bearer: int = 0;
        let mut i: usize = 0;
        while i < self.links.len()
            invariant
                i <= self.links.len(),
                prefix@ == self.ifname_prefix@,
                names == names_view(self.links@),
                distinct_prefixed(self.links@, self.ifname_prefix@),
                forall|j: int|
                    0 <= j < i ==> {
                        &&& number_of((#[trigger] self.links@[j])@, prefix@) is Some
                        &&& number_of(self.links@[j]@, prefix@)->0 <= greatest
                    },
                i > 0 ==> 0 <= bearer < i && number_of(self.links@[bearer]@, prefix@) == Some(
                    greatest,
                ),
            decreases self.links.len() - i,
        {
            let chars = chars_of(self.links[i].as_str());
            match parse_u64(&chars, prefix.len()) {
                None => {
                    proof {
                        assert(names.contains(self.links@[i as int]@));
                    }
                    return Err(NamingError::MalformedName);
                },
                Some(number) => {
                    if i == 0 || number > greatest {
                        greatest = number;
                        proof {
                            bearer = i as int;
                        }
                    }
                },
            }
            i += 1;
        }
        proof {
            assert(names.contains(self.links@[bearer]@));
            assert forall|name: Seq<char>| #[trigger] names.contains(name) implies number_of(
                name,
                prefix@,
            ) is Some && number_of(name, prefix@)->0 <= greatest by {
                let j = choose|j: int| 0 <= j < self.links@.len() && (#[trigger] self.links@[j])@ == name;
                assert(number_of(self.links@[j]@, prefix@) is Some);
            }
            assert(is_greatest_number(names, prefix@, greatest));
            assert(greatest_number(names, prefix@) == greatest);
        }
        if greatest == u64::MAX {
            return Err(NamingError::NamesExhausted);
        }
        let mut name = self.ifname_prefix.clone();
        let number = decimal_string(greatest + 1);
        name.append(number.as_str());
        Ok(name)
    }
}

} // verus!
