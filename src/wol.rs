//! Devices woken by a broadcast wake packet: six 0xFF bytes, then the
//! hardware address sixteen times.
use crate::device::{Device, DeviceError, Operation};
use crate::ports::chars_of;
use vstd::prelude::*;

verus! {

/// Whether the pattern compiles as a regular expression.
pub uninterp spec fn regex_compiles(pattern: Seq<char>) -> bool;

/// Whether the regular expression `pattern` matches `text`.
pub uninterp spec fn regex_matches(pattern: Seq<char>, text: Seq<char>) -> bool;

/// Relies on regex::Regex::new, which compiles `pattern` or fails, and on
/// regex::Regex::is_match, which tells whether the compiled expression matches
/// somewhere in `text`. Both depend on their arguments alone.
#[verifier::external_body]
fn regex_is_match(pattern: &str, text: &str) -> (r: Option<bool>)
    ensures
        r is Some <==> regex_compiles(pattern@),
        r matches Some(b) ==> b == regex_matches(pattern@, text@),
{
    match regex::Regex::new(pattern) {
        Ok(re) => Some(re.is_match(text)),
        Err(_) => None,
    }
}

/// The pattern of a hardware address: six two-digit hex octets joined by `:`
/// or `-`.
pub open spec fn mac_pattern() -> Seq<char> {
    "^([0-9A-Fa-f]{2}[:-]){5}([0-9A-Fa-f]{2})$"@
}

/// Whether `mac` has the shape of a hardware address, by the regular
/// expression `mac_pattern`.
pub fn is_valid_mac(mac: &str) -> (r: bool)
    ensures
        r == (regex_compiles(mac_pattern()) && regex_matches(mac_pattern(), mac@)),
{
    let pattern = "^([0-9A-Fa-f]{2}[:-]){5}([0-9A-Fa-f]{2})$";
    match regex_is_match(pattern, mac) {
        Some(b) => b,
        None => false,
    }
}

pub open spec fn hex_value(c: char) -> Option<u8> {
    if '0' <= c && c <= '9' {
        Some((c as u32 - '0' as u32) as u8)
    } else if 'a' <= c && c <= 'f' {
        Some((c as u32 - 'a' as u32 + 10) as u8)
    } else if 'A' <= c && c <= 'F' {
        Some((c as u32 - 'A' as u32 + 10) as u8)
    } else {
        None
    }
}

/// Whether `s` is six two-digit hex octets joined by `:` or `-`.
pub open spec fn mac_shape(s: Seq<char>) -> bool {
    &&& s.len() == 17
    &&& forall|i: int|
        0 <= i < 17 ==> if i % 3 == 2 {
            s[i] == ':' || s[i] == '-'
        } else {
            #[trigger] hex_value(s[i]) is Some
        }
}

/// The six octets that a hardware address text writes.
pub open spec fn mac_octets(s: Seq<char>) -> Seq<u8> {
    Seq::new(
        6,
        |k: int| (hex_value(s[3 * k]).unwrap() * 16 + hex_value(s[3 * k + 1]).unwrap()) as u8,
    )
}

/// The wake packet for a hardware address: six 0xFF bytes, then the six
/// octets sixteen times over.
pub open spec fn magic_packet_of(octets: Seq<u8>) -> Seq<u8> {
    Seq::new(102, |i: int| if i < 6 { 0xFFu8 } else { octets[(i - 6) % 6] })
}

fn hex_digit(c: char) -> (r: Option<u8>)
    ensures
        r == hex_value(c),
{
    if '0' <= c && c <= '9' {
        Some((c as u32 - '0' as u32) as u8)
    } else if 'a' <= c && c <= 'f' {
        Some((c as u32 - 'a' as u32 + 10) as u8)
    } else if 'A' <= c && c <= 'F' {
        Some((c as u32 - 'A' as u32 + 10) as u8)
    } else {
        None
    }
}

/// Reads the six octets of a hardware address text; `None` where the text does
/// not have that shape.
pub fn parse_mac(mac: &str) -> (r: Option<Vec<u8>>)
    ensures
        r is Some <==> mac_shape(mac@),
        r matches Some(o) ==> o@ == mac_octets(mac@),
{
    let c = chars_of(mac);
    if c.len() != 17 {
        return None;
    }
    let mut octets: Vec<u8> = Vec::new();
    let mut k: usize = 0;
    while k < 6
        invariant
            c@ == mac@,
            c@.len() == 17,
            k <= 6,
            octets@.len() == k,
            forall|i: int| 0 <= i < 3 * k && i < 17 ==> if i % 3 == 2 {
                c@[i] == ':' || c@[i] == '-'
            } else {
                #[trigger] hex_value(c@[i]) is Some
            },
            forall|j: int| 0 <= j < k ==> #[trigger] octets@[j] == mac_octets(mac@)[j],
        decreases 6 - k,
    {
        let hi = hex_digit(c[3 * k]);
        let lo = hex_digit(c[3 * k + 1]);
        if hi.is_none() {
            assert(!(hex_value(c@[3 * k as int]) is Some));
            assert((3 * k as int) % 3 == 0);
            return None;
        }
        if lo.is_none() {
            assert(!(hex_value(c@[3 * k as int + 1]) is Some));
            assert((3 * k as int + 1) % 3 == 1);
            return None;
        }
        if k < 5 {
            let sep = c[3 * k + 2];
            if sep != ':' && sep != '-' {
                assert((3 * k as int + 2) % 3 == 2);
                return None;
            }
        }
        let h = hi.unwrap();
        let l = lo.unwrap();
        octets.push(h * 16 + l);
        assert forall|i: int| 0 <= i < 3 * (k + 1) && i < 17 implies if i % 3 == 2 {
            c@[i] == ':' || c@[i] == '-'
        } else {
            #[trigger] hex_value(c@[i]) is Some
        } by {
            if i >= 3 * k {
                assert(i == 3 * k || i == 3 * k + 1 || i == 3 * k + 2);
            }
        }
        k = k + 1;
    }
    assert(mac_octets(mac@).len() == 6);
    assert(octets@ =~= mac_octets(mac@));
    Some(octets)
}

/// Builds the wake packet for six octets.
pub fn magic_packet(octets: &Vec<u8>) -> (r: Vec<u8>)
    requires
        octets@.len() == 6,
    ensures
        r@ == magic_packet_of(octets@),
        r@.len() == 102,
{
    let mut packet: Vec<u8> = Vec::new();
    let mut i: usize = 0;
    while i < 102
        invariant
            octets@.len() == 6,
            i <= 102,
            packet@.len() == i,
            forall|j: int| 0 <= j < i ==> #[trigger] packet@[j] == magic_packet_of(octets@)[j],
        decreases 102 - i,
    {
        if i < 6 {
            packet.push(0xFF);
        } else {
            packet.push(octets[(i - 6) % 6]);
        }
        i = i + 1;
    }
    assert(packet@ =~= magic_packet_of(octets@));
    packet
}

/// A hardware address that a wake device may hold: it matches `mac_pattern`,
/// which is what operators are held to, and it is six two-digit hex octets,
/// which is what the wake packet is built from.
pub open spec fn valid_mac(s: Seq<char>) -> bool {
    &&& regex_compiles(mac_pattern())
    &&& regex_matches(mac_pattern(), s)
    &&& mac_shape(s)
}

/// A device woken by a wake packet.
pub struct Wol {
    pub name: String,
    mac: String,
}

impl View for Wol {
    /// The name and the hardware address text.
    type V = (Seq<char>, Seq<char>);

    closed spec fn view(&self) -> (Seq<char>, Seq<char>) {
        (self.name@, self.mac@)
    }
}

impl Wol {
    #[verifier::type_invariant]
    spec fn wf(&self) -> bool {
        valid_mac(self.mac@)
    }

    /// A wake device named `name` with hardware address `mac`; `None` where
    /// `mac` is not a valid address.
    pub fn new(name: String, mac: String) -> (r: Option<Wol>)
        ensures
            r is Some <==> valid_mac(mac@),
            r matches Some(w) ==> w@ == (name@, mac@) && valid_mac(w.mac()),
    {
        if is_valid_mac(mac.as_str()) && parse_mac(mac.as_str()).is_some() {
            Some(Wol { name, mac })
        } else {
            None
        }
    }

    pub open spec fn mac(&self) -> Seq<char> {
        self@.1
    }

    pub fn get_name(&self) -> (r: &str)
        ensures
            r@ == self@.0,
    {
        self.name.as_str()
    }

    /// The stored hardware address text; it is always a valid address.
    pub fn get_mac(&self) -> (r: &str)
        ensures
            r@ == self.mac(),
            valid_mac(r@),
    {
        proof {
            use_type_invariant(self);
        }
        self.mac.as_str()
    }

    /// The six octets of the hardware address.
    pub fn get_octets(&self) -> (r: Vec<u8>)
        ensures
            r@ == mac_octets(self.mac()),
    {
        proof {
            use_type_invariant(self);
        }
        match parse_mac(self.mac.as_str()) {
            Some(o) => o,
            None => Vec::new(),
        }
    }
}

impl Device for Wol {
    open spec fn enable_result(&self, r: Result<Operation, DeviceError>) -> bool {
        r matches Ok(Operation::Wake(p)) && p@ == magic_packet_of(mac_octets(self.mac()))
    }

    open spec fn disable_result(&self, r: Result<Operation, DeviceError>) -> bool {
        r == Err::<Operation, DeviceError>(DeviceError::Unsupported)
    }

    open spec fn status_result(&self, r: Result<Operation, DeviceError>) -> bool {
        r == Err::<Operation, DeviceError>(DeviceError::Unsupported)
    }

    open spec fn updated(&self, attrs: Self, after: Self) -> bool {
        &&& after@ == (self@.0, attrs@.1)
        &&& valid_mac(after.mac())
    }

    /// The wake packet for the stored hardware address.
    fn enable(&self) -> (r: Result<Operation, DeviceError>) {
        let octets = self.get_octets();
        let packet = magic_packet(&octets);
        assert(packet@.len() == 102);
        Ok(Operation::Wake(packet))
    }

    /// A wake device cannot be switched off.
    fn disable(&self) -> (r: Result<Operation, DeviceError>) {
        Err(DeviceError::Unsupported)
    }

    /// A wake device cannot be asked for its state.
    fn status(&self) -> (r: Result<Operation, DeviceError>) {
        Err(DeviceError::Unsupported)
    }

    /// Takes the hardware address of `attrs`; the name stays.
    fn update(&mut self, attrs: Self) {
        proof {
            use_type_invariant(&attrs);
        }
        let name = self.name.clone();
        let Wol { name: _, mac } = attrs;
        *self = Wol { name, mac };
    }
}

} // verus!
