//! Hardware addresses: six octets, written as colon-separated hexadecimal.

use std::cmp::Ordering;
use vstd::prelude::*;
use vstd::string::*;

verus! {

/// The link-layer address of a network device.
#[derive(Clone, Copy, Debug, Eq, Ord, Hash)]
pub struct HardwareAddress {
    pub octets: [u8; 6],
}

/// A text that is no hardware address.
#[derive(Clone, Copy, Debug, PartialEq, Eq, Structural)]
pub struct AddressParseError {}

impl View for HardwareAddress {
    type V = Seq<u8>;

    open spec fn view(&self) -> Seq<u8> {
        self.octets@
    }
}

impl DeepView for HardwareAddress {
    type V = Seq<u8>;

    open spec fn deep_view(&self) -> Seq<u8> {
        self@
    }
}

impl PartialEq for HardwareAddress {
    fn eq(&self, other: &Self) -> (r: bool) {
        self.octets[0] == other.octets[0] && self.octets[1] == other.octets[1]
            && self.octets[2] == other.octets[2] && self.octets[3] == other.octets[3]
            && self.octets[4] == other.octets[4] && self.octets[5] == other.octets[5]
    }
}

impl vstd::std_specs::cmp::PartialEqSpecImpl for HardwareAddress {
    open spec fn obeys_eq_spec() -> bool {
        true
    }

    open spec fn eq_spec(&self, other: &Self) -> bool {
        self.octets[0] == other.octets[0] && self.octets[1] == other.octets[1]
            && self.octets[2] == other.octets[2] && self.octets[3] == other.octets[3]
            && self.octets[4] == other.octets[4] && self.octets[5] == other.octets[5]
    }
}

/// Whether `a` comes before `b` octet by octet: at the first place where they
/// differ, `a` has the smaller octet.
pub open spec fn bytewise_less(a: Seq<u8>, b: Seq<u8>) -> bool {
    exists|i: int|
        0 <= i < a.len() && i < b.len() && #[trigger] a[i] < b[i] && forall|j: int|
            0 <= j < i ==> a[j] == b[j]
}

impl PartialOrd for HardwareAddress {
    fn partial_cmp(&self, other: &Self) -> (r: Option<Ordering>) {
        proof {
            lemma_key_order(self@, other@);
            lemma_key_order(other@, self@);
            if spec_key(self@) == spec_key(other@) {
                lemma_key_injective(self@, other@);
            }
        }
        let mine = self.key();
        let theirs = other.key();
        if mine < theirs {
            Some(Ordering::Less)
        } else if mine == theirs {
            Some(Ordering::Equal)
        } else {
            Some(Ordering::Greater)
        }
    }
}

impl vstd::std_specs::cmp::PartialOrdSpecImpl for HardwareAddress {
    open spec fn obeys_partial_cmp_spec() -> bool {
        true
    }

    open spec fn partial_cmp_spec(&self, other: &Self) -> Option<Ordering> {
        if bytewise_less(self@, other@) {
            Some(Ordering::Less)
        } else if self@ == other@ {
            Some(Ordering::Equal)
        } else {
            Some(Ordering::Greater)
        }
    }
}

/// The octets that `hwaddr::HwAddr::from_str` reads from `text`, or `None`
/// where it fails.
pub uninterp spec fn hwaddr_from_str(text: Seq<char>) -> Option<Seq<u8>>;

/// `std::num::ParseIntError`, the error of `hwaddr::HwAddr::from_str`.
/// Nothing is known of a value of it.
#[verifier::external_type_specification]
#[verifier::external_body]
pub struct ExParseIntError(std::num::ParseIntError);

/// Calls `hwaddr::HwAddr::from_str` and takes the octets of the address it
/// returns. The result is a function of the text alone, named by
/// [`hwaddr_from_str`]; nothing more is claimed of it.
#[verifier::external_body]
fn parse_octets(text: &str) -> (r: Result<[u8; 6], std::num::ParseIntError>)
    ensures
        hwaddr_from_str(text@) == match r {
            Ok(octets) => Some(octets@),
            Err(_) => None,
        },
{
    match text.parse::<hwaddr::HwAddr>() {
        Ok(address) => Ok(address.octets()),
        Err(e) => Err(e),
    }
}

/// The lowercase hexadecimal digit of value `n`.
pub open spec fn hex_digit(n: int) -> char
    recommends
        0 <= n < 16,
{
    seq!['0', '1', '2', '3', '4', '5', '6', '7', '8', '9', 'a', 'b', 'c', 'd', 'e', 'f'][n]
}

/// The two hexadecimal digits of one octet.
pub open spec fn octet_text(octet: u8) -> Seq<char> {
    seq![hex_digit(octet as int / 16), hex_digit(octet as int % 16)]
}

/// The canonical text of a sequence of octets: two lowercase hexadecimal
/// digits for each, with a colon between neighbours.
pub open spec fn spec_format(octets: Seq<u8>) -> Seq<char>
    decreases octets.len(),
{
    if octets.len() == 0 {
        Seq::empty()
    } else if octets.len() == 1 {
        octet_text(octets[0])
    } else {
        spec_format(octets.drop_last()) + seq![':'] + octet_text(octets.last())
    }
}

fn hex_str(n: u8) -> (s: &'static str)
    requires
        n < 16,
    ensures
        s@ == seq![hex_digit(n as int)],
{
    proof {
        reveal_strlit("0");
        reveal_strlit("1");
        reveal_strlit("2");
        reveal_strlit("3");
        reveal_strlit("4");
        reveal_strlit("5");
        reveal_strlit("6");
        reveal_strlit("7");
        reveal_strlit("8");
        reveal_strlit("9");
        reveal_strlit("a");
        reveal_strlit("b");
        reveal_strlit("c");
        reveal_strlit("d");
        reveal_strlit("e");
        reveal_strlit("f");
    }
    let s = match n {
        0 => "0",
        1 => "1",
        2 => "2",
        3 => "3",
        4 => "4",
        5 => "5",
        6 => "6",
        7 => "7",
        8 => "8",
        9 => "9",
        10 => "a",
        11 => "b",
        12 => "c",
        13 => "d",
        14 => "e",
        _ => "f",
    };
    assert(s@ =~= seq![hex_digit(n as int)]);
    s
}

/// Six octets as one number, the first octet in the highest place.
pub open spec fn spec_key(octets: Seq<u8>) -> int
    recommends
        octets.len() == 6,
{
    ((((octets[0] as int * 256 + octets[1] as int) * 256 + octets[2] as int) * 256
        + octets[3] as int) * 256 + octets[4] as int) * 256 + octets[5] as int
}

impl HardwareAddress {
    /// The address made of `octets`, the first octet first.
    pub fn from_octets(octets: [u8; 6]) -> (r: Self)
        ensures
            r.octets == octets,
    {
        HardwareAddress { octets }
    }

    /// The octets of the address, the first octet first.
    pub fn octets(&self) -> (r: [u8; 6])
        ensures
            r == self.octets,
    {
        self.octets
    }

    /// A number that stands for the address in an index: equal numbers mean
    /// equal addresses (see [`lemma_key_injective`]).
    pub fn key(&self) -> (k: u64)
        ensures
            k == spec_key(self@),
    {
        let mut k: u64 = self.octets[0] as u64;
        k = k * 256 + self.octets[1] as u64;
        k = k * 256 + self.octets[2] as u64;
        k = k * 256 + self.octets[3] as u64;
        k = k * 256 + self.octets[4] as u64;
        k = k * 256 + self.octets[5] as u64;
        k
    }

    /// Reads an address from its text, as the `hwaddr` crate reads one.
    pub fn parse(text: &str) -> (r: Result<HardwareAddress, AddressParseError>)
        ensures
            hwaddr_from_str(text@) == match r {
                Ok(address) => Some(address@),
                Err(_) => None,
            },
    {
        match parse_octets(text) {
            Ok(octets) => Ok(HardwareAddress { octets }),
            Err(_) => Err(AddressParseError {}),
        }
    }

    /// Writes the address in its canonical form.
    pub fn format(&self) -> (text: String)
        ensures
            text@ == spec_format(self@),
    {
        let mut text = String::new();
        let mut i: usize = 0;
        while i < 6
            invariant
                i <= 6,
                text@ == spec_format(self.octets@.take(i as int)),
            decreases 6 - i,
        {
            let octet = self.octets[i];
            if i > 0 {
                proof {
                    reveal_strlit(":");
                }
                text.append(":");
            }
            text.append(hex_str(octet / 16));
            text.append(hex_str(octet % 16));
            proof {
                let done = self.octets@.take(i as int + 1);
                assert(done.drop_last() =~= self.octets@.take(i as int));
                assert(done.last() == octet);
                assert(text@ =~= spec_format(done));
            }
            i += 1;
        }
        assert(self.octets@.take(6) =~= self.octets@);
        text
    }
}

/// The keys of two addresses stand as the addresses do octet by octet.
pub proof fn lemma_key_order(a: Seq<u8>, b: Seq<u8>)
    requires
        a.len() == 6,
        b.len() == 6,
    ensures
        spec_key(a) < spec_key(b) <==> bytewise_less(a, b),
{
    if bytewise_less(a, b) {
        let i = choose|i: int|
            0 <= i < a.len() && i < b.len() && #[trigger] a[i] < b[i] && forall|j: int|
                0 <= j < i ==> a[j] == b[j];
        assert(forall|j: int| 0 <= j < i ==> a[j] == b[j]);
        if i > 0 {
            assert(a[0] == b[0]);
        }
        if i > 1 {
            assert(a[1] == b[1]);
        }
        if i > 2 {
            assert(a[2] == b[2]);
        }
        if i > 3 {
            assert(a[3] == b[3]);
        }
        if i > 4 {
            assert(a[4] == b[4]);
        }
    }
    if spec_key(a) < spec_key(b) {
        if a[0] != b[0] {
            assert(a[0] < b[0]);
        } else if a[1] != b[1] {
            assert(a[1] < b[1]);
        } else if a[2] != b[2] {
            assert(a[2] < b[2]);
        } else if a[3] != b[3] {
            assert(a[3] < b[3]);
        } else if a[4] != b[4] {
            assert(a[4] < b[4]);
        } else {
            assert(a[5] < b[5]);
        }
    }
}

/// Two addresses with the same key are the same address.
pub proof fn lemma_key_injective(a: Seq<u8>, b: Seq<u8>)
    requires
        a.len() == 6,
        b.len() == 6,
        spec_key(a) == spec_key(b),
    ensures
        a == b,
{
    assert(a =~= b);
}

} // verus!
