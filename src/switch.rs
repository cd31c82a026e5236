//! Managed switches: their attributes, credentials and the port list that an
//! operator enters.
use crate::ports::{
    chars_of, decimal, decimals, has_char, insert_range, join_with, lemma_join_with,
    lemma_num_decimal, lemma_tokens_set_prefix_none, num, parse_num, parse_token, port_set,
    push_decimal, split, split_chars, strictly_increasing, tokens_set, views,
};
use crate::device::{Device, DeviceError, Operation};
use crate::switch_oid::{vendor_row, vendor_table, SwitchOidBuilder};
use vstd::prelude::*;
use vstd::string::*;

verus! {

/// The management protocol version that a switch speaks.
#[derive(PartialEq, Eq, Structural, Clone, Copy, Debug)]
pub enum SNMPVersion {
    V2,
    V3,
}

/// The authentication protocol of a version-3 switch.
#[derive(PartialEq, Eq, Structural, Clone, Copy, Debug)]
pub enum SNMPAuth {
    NONE,
    MD5,
    SHA,
}

/// The privacy protocol of a version-3 switch.
#[derive(PartialEq, Eq, Structural, Clone, Copy, Debug)]
pub enum SNMPEncryption {
    NONE,
    DES,
    AES,
}

/// The state of one port, as a switch reported it.
#[derive(Clone, Debug)]
pub struct SwitchResult {
    pub port: u32,
    pub status: String,
}

/// What a switch is given to authenticate with: a community string for
/// version 2, or a user with optional authentication and privacy for version 3.
pub enum Credentials {
    V2 { community: String },
    V3 {
        auth: SNMPAuth,
        auth_user: String,
        auth_pass: String,
        encryption: SNMPEncryption,
        encryption_pass: String,
    },
}

/// A switch's attributes, as values.
pub struct SwitchView {
    pub name: Seq<char>,
    pub ip: Seq<char>,
    pub brand: Seq<char>,
    pub version: SNMPVersion,
    pub ports: u32,
    pub community: Seq<char>,
    pub auth: SNMPAuth,
    pub auth_user: Seq<char>,
    pub auth_pass: Seq<char>,
    pub encryption: SNMPEncryption,
    pub encryption_pass: Seq<char>,
}

/// Exactly one credential shape is filled in: a version-2 switch has no user,
/// authentication or privacy settings; a version-3 switch has no community,
/// no user or password without an authentication protocol, and no privacy
/// password without a privacy protocol.
pub open spec fn credentials_consistent(v: SwitchView) -> bool {
    match v.version {
        SNMPVersion::V2 => {
            &&& v.auth == SNMPAuth::NONE
            &&& v.auth_user.len() == 0
            &&& v.auth_pass.len() == 0
            &&& v.encryption == SNMPEncryption::NONE
            &&& v.encryption_pass.len() == 0
        },
        SNMPVersion::V3 => {
            &&& v.community.len() == 0
            &&& v.auth == SNMPAuth::NONE ==> v.auth_user.len() == 0 && v.auth_pass.len() == 0
            &&& v.encryption == SNMPEncryption::NONE ==> v.encryption_pass.len() == 0
        },
    }
}

/// The attributes that a switch built from these credentials has.
pub open spec fn built_from(
    v: SwitchView,
    name: Seq<char>,
    ip: Seq<char>,
    brand: Seq<char>,
    ports: u32,
    credentials: Credentials,
) -> bool {
    &&& v.name == name
    &&& v.ip == ip
    &&& v.brand == brand
    &&& v.ports == ports
    &&& match credentials {
        Credentials::V2 { community } => {
            &&& v.version == SNMPVersion::V2
            &&& v.community == community@
            &&& v.auth == SNMPAuth::NONE
            &&& v.auth_user.len() == 0
            &&& v.auth_pass.len() == 0
            &&& v.encryption == SNMPEncryption::NONE
            &&& v.encryption_pass.len() == 0
        },
        Credentials::V3 { auth, auth_user, auth_pass, encryption, encryption_pass } => {
            &&& v.version == SNMPVersion::V3
            &&& v.community.len() == 0
            &&& v.auth == auth
            &&& v.auth_user == (if auth == SNMPAuth::NONE {
                Seq::<char>::empty()
            } else {
                auth_user@
            })
            &&& v.auth_pass == (if auth == SNMPAuth::NONE {
                Seq::<char>::empty()
            } else {
                auth_pass@
            })
            &&& v.encryption == encryption
            &&& v.encryption_pass == (if encryption == SNMPEncryption::NONE {
                Seq::<char>::empty()
            } else {
                encryption_pass@
            })
        },
    }
}

/// The numbers of a dotted identifier such as `1.3.6`, or `None` where a piece
/// is not a number.
pub open spec fn dotted_parts(pieces: Seq<Seq<char>>) -> Option<Seq<u32>>
    decreases pieces.len(),
{
    if pieces.len() == 0 {
        Some(Seq::empty())
    } else {
        match (dotted_parts(pieces.drop_last()), num(pieces.last())) {
            (Some(v), Some(n)) => Some(v.push(n)),
            _ => None,
        }
    }
}

/// The identifier prefix of vendor `brand`, as numbers.
pub open spec fn base_oid(brand: Seq<char>) -> Option<Seq<u32>> {
    match vendor_row(vendor_table(), brand) {
        Some(row) => dotted_parts(split(row.1, '.')),
        None => None,
    }
}

/// The identifier that addresses `port` of a switch of vendor `brand`: the
/// vendor's prefix with the port number appended.
pub open spec fn target_oid(brand: Seq<char>, port: u32) -> Option<Seq<u32>> {
    match base_oid(brand) {
        Some(b) => Some(b.push(port)),
        None => None,
    }
}

proof fn lemma_dotted_decimals(v: Seq<u32>)
    ensures
        dotted_parts(decimals(v)) == Some(v),
    decreases v.len(),
{
    if v.len() > 0 {
        lemma_dotted_decimals(v.drop_last());
        assert(decimals(v).drop_last() =~= decimals(v.drop_last()));
        lemma_num_decimal(v.last());
        assert(v.drop_last().push(v.last()) == v);
    } else {
        assert(decimals(v) =~= Seq::<Seq<char>>::empty());
        assert(v =~= Seq::<u32>::empty());
    }
}

/// The Netgear identifier prefix, as numbers.
pub open spec fn netgear_base() -> Seq<u32> {
    seq![1u32, 3, 6, 1, 2, 1, 105, 1, 1, 1, 3, 1]
}

/// A Netgear switch addresses port `port` at `1.3.6.1.2.1.105.1.1.1.3.1`
/// followed by the port number.
pub proof fn lemma_netgear_target(port: u32)
    ensures
        base_oid("Netgear"@) == Some(netgear_base()),
        target_oid("Netgear"@, port) == Some(netgear_base().push(port)),
{
    let v = netgear_base();
    reveal_strlit("1.3.6.1.2.1.105.1.1.1.3.1");
    assert(decimal(105) =~= seq!['1', '0', '5']) by {
        assert(decimal(10) =~= seq!['1', '0']);
    }
    assert(join_with(v, '.') =~= "1.3.6.1.2.1.105.1.1.1.3.1"@) by {
        reveal_with_fuel(join_with, 13);
    }
    lemma_join_with(v, '.');
    lemma_dotted_decimals(v);
    assert(vendor_table()[0].0 == "Netgear"@);
}

proof fn lemma_dotted_prefix_none(pieces: Seq<Seq<char>>, k: int)
    requires
        0 <= k <= pieces.len(),
        dotted_parts(pieces.take(k)) is None,
    ensures
        dotted_parts(pieces) is None,
    decreases pieces.len() - k,
{
    if k < pieces.len() {
        assert(pieces.take(k + 1).drop_last() == pieces.take(k));
        lemma_dotted_prefix_none(pieces, k + 1);
    } else {
        assert(pieces.take(k) == pieces);
    }
}

/// Reads a dotted identifier such as `1.3.6` into its numbers.
pub fn parse_dotted(s: &str) -> (r: Option<Vec<u32>>)
    ensures
        r is None <==> dotted_parts(split(s@, '.')) is None,
        r matches Some(v) ==> dotted_parts(split(s@, '.')) == Some(v@),
{
    let chars = chars_of(s);
    let pieces = split_chars(&chars, '.');
    let mut v: Vec<u32> = Vec::new();
    let mut k: usize = 0;
    assert(views(pieces@).take(0) =~= Seq::<Seq<char>>::empty());
    while k < pieces.len()
        invariant
            k <= pieces.len(),
            views(pieces@) == split(s@, '.'),
            dotted_parts(views(pieces@).take(k as int)) == Some(v@),
        decreases pieces.len() - k,
    {
        assert(views(pieces@).take(k as int + 1).drop_last() == views(pieces@).take(k as int));
        assert(views(pieces@).take(k as int + 1).last() == pieces@[k as int]@);
        match parse_num(&pieces[k]) {
            Some(n) => {
                v.push(n);
            },
            None => {
                proof {
                    lemma_dotted_prefix_none(views(pieces@), k as int + 1);
                }
                return None;
            },
        }
        k = k + 1;
    }
    assert(views(pieces@).take(k as int) == views(pieces@));
    Some(v)
}

/// A managed switch.
pub struct Switch {
    pub name: String,
    ip: String,
    brand: String,
    version: SNMPVersion,
    ports: u32,
    community: String,
    auth: SNMPAuth,
    auth_user: String,
    auth_pass: String,
    encryption: SNMPEncryption,
    encryption_pass: String,
}

/// The text of the error that a malformed port list gives.
pub open spec fn port_range_error(input: Seq<char>) -> Seq<char> {
    "Invalid port range: "@ + input
}

impl View for Switch {
    type V = SwitchView;

    closed spec fn view(&self) -> SwitchView {
        SwitchView {
            name: self.name@,
            ip: self.ip@,
            brand: self.brand@,
            version: self.version,
            ports: self.ports,
            community: self.community@,
            auth: self.auth,
            auth_user: self.auth_user@,
            auth_pass: self.auth_pass@,
            encryption: self.encryption,
            encryption_pass: self.encryption_pass@,
        }
    }
}

impl Switch {
    #[verifier::type_invariant]
    spec fn wf(&self) -> bool {
        credentials_consistent(self@)
    }

    /// Builds a switch. Only the credential shape of its version is filled in.
    pub fn new(name: String, ip: String, brand: String, ports: u32, credentials: Credentials) -> (r:
        Switch)
        ensures
            built_from(r@, name@, ip@, brand@, ports, credentials),
            credentials_consistent(r@),
    {
        match credentials {
            Credentials::V2 { community } => Switch {
                name,
                ip,
                brand,
                version: SNMPVersion::V2,
                ports,
                community,
                auth: SNMPAuth::NONE,
                auth_user: String::new(),
                auth_pass: String::new(),
                encryption: SNMPEncryption::NONE,
                encryption_pass: String::new(),
            },
            Credentials::V3 { auth, auth_user, auth_pass, encryption, encryption_pass } => {
                let (auth_user, auth_pass) = if auth == SNMPAuth::NONE {
                    (String::new(), String::new())
                } else {
                    (auth_user, auth_pass)
                };
                let encryption_pass = if encryption == SNMPEncryption::NONE {
                    String::new()
                } else {
                    encryption_pass
                };
                Switch {
                    name,
                    ip,
                    brand,
                    version: SNMPVersion::V3,
                    ports,
                    community: String::new(),
                    auth,
                    auth_user,
                    auth_pass,
                    encryption,
                    encryption_pass,
                }
            },
        }
    }

    pub fn get_name(&self) -> (r: &str)
        ensures
            r@ == self@.name,
    {
        self.name.as_str()
    }

    pub fn get_ip(&self) -> (r: &str)
        ensures
            r@ == self@.ip,
    {
        self.ip.as_str()
    }

    pub fn get_brand(&self) -> (r: &str)
        ensures
            r@ == self@.brand,
    {
        self.brand.as_str()
    }

    /// The number of ports, the default upper end of a port list.
    pub fn port_count(&self) -> (r: u32)
        ensures
            r == self@.ports,
    {
        self.ports
    }

    pub fn get_auth_protocol(&self) -> (r: SNMPAuth)
        ensures
            r == self@.auth,
    {
        self.auth
    }

    pub fn get_auth_password(&self) -> (r: &str)
        ensures
            r@ == self@.auth_pass,
    {
        self.auth_pass.as_str()
    }

    pub fn get_community(&self) -> (r: &str)
        ensures
            r@ == self@.community,
    {
        self.community.as_str()
    }

    pub fn get_privacy_protocol(&self) -> (r: SNMPEncryption)
        ensures
            r == self@.encryption,
    {
        self.encryption
    }

    pub fn get_privacy_password(&self) -> (r: &str)
        ensures
            r@ == self@.encryption_pass,
    {
        self.encryption_pass.as_str()
    }

    pub fn get_username(&self) -> (r: &str)
        ensures
            r@ == self@.auth_user,
    {
        self.auth_user.as_str()
    }

    /// The identifier prefix of this switch's vendor, as numbers; `None` where
    /// the vendor is not in the table.
    pub fn get_oid(&self) -> (r: Option<Vec<u32>>)
        ensures
            r is None <==> base_oid(self@.brand) is None,
            r matches Some(v) ==> base_oid(self@.brand) == Some(v@),
    {
        let sob = SwitchOidBuilder::new();
        match sob.get_switch_oid(self.brand.clone()) {
            Some(oid) => parse_dotted(oid.as_str()),
            None => None,
        }
    }

    /// The identifier that addresses `port` on this switch.
    pub fn get_target_oid(&self, port: u32) -> (r: Option<Vec<u32>>)
        ensures
            r is None <==> target_oid(self@.brand, port) is None,
            r matches Some(v) ==> target_oid(self@.brand, port) == Some(v@),
    {
        match self.get_oid() {
            Some(mut v) => {
                v.push(port);
                Some(v)
            },
            None => None,
        }
    }

    /// The port list that covers every port: `1-` and the port count.
    pub fn default_port_range(&self) -> (r: String)
        ensures
            r@ == "1-"@ + decimal(self@.ports as nat),
    {
        let mut r = "1-".to_owned();
        push_decimal(&mut r, self.ports);
        r
    }

    /// The protocol version; the credential shape always matches it.
    pub fn get_version(&self) -> (r: SNMPVersion)
        ensures
            r == self@.version,
            credentials_consistent(self@),
    {
        proof {
            use_type_invariant(self);
        }
        self.version
    }

    /// Reads a port list such as `1-6,8,10-12` into its ports, ascending and
    /// without repeats. A reversed range such as `5-3` names no port.
    pub fn parse_ports(ports_input: String) -> (r: Result<Vec<u32>, String>)
        ensures
            r is Ok <==> port_set(ports_input@) is Some,
            r matches Ok(v) ==> strictly_increasing(v@) && port_set(ports_input@) == Some(
                v@.to_set(),
            ),
            r matches Err(e) ==> e@ == port_range_error(ports_input@),
    {
        let chars = chars_of(ports_input.as_str());
        if has_char(&chars, ' ') {
            return Err(Self::port_range_error(&ports_input));
        }
        let toks = split_chars(&chars, ',');
        let mut v: Vec<u32> = Vec::new();
        let mut k: usize = 0;
        assert(views(toks@).take(0) =~= Seq::<Seq<char>>::empty());
        assert(v@.to_set() =~= Set::<u32>::empty());
        while k < toks.len()
            invariant
                k <= toks.len(),
                chars@ == ports_input@,
                !chars@.contains(' '),
                views(toks@) == split(chars@, ','),
                strictly_increasing(v@),
                tokens_set(views(toks@).take(k as int)) == Some(v@.to_set()),
            decreases toks.len() - k,
        {
            assert(views(toks@).take(k as int + 1).drop_last() == views(toks@).take(k as int));
            assert(views(toks@).take(k as int + 1).last() == toks@[k as int]@);
            match parse_token(&toks[k]) {
                None => {
                    proof {
                        lemma_tokens_set_prefix_none(views(toks@), k as int + 1);
                    }
                    return Err(Self::port_range_error(&ports_input));
                },
                Some((a, b)) => {
                    insert_range(&mut v, a, b);
                },
            }
            k = k + 1;
        }
        assert(views(toks@).take(k as int) == views(toks@));
        Ok(v)
    }

    /// The value that vendor `brand` uses for "on" or, with `on` false, for "off".
    fn vendor_value(&self, on: bool) -> (r: Result<Operation, DeviceError>)
        ensures
            r == (match vendor_row(vendor_table(), self@.brand) {
                Some(row) => Ok::<Operation, DeviceError>(
                    Operation::SetPorts(if on { row.2 } else { row.3 }),
                ),
                None => Err(DeviceError::UnknownVendor),
            }),
    {
        let sob = SwitchOidBuilder::new();
        let value = if on {
            sob.get_on(self.brand.clone())
        } else {
            sob.get_off(self.brand.clone())
        };
        match value {
            Some(v) => Ok(Operation::SetPorts(v)),
            None => Err(DeviceError::UnknownVendor),
        }
    }

    fn port_range_error(ports_input: &String) -> (e: String)
        ensures
            e@ == port_range_error(ports_input@),
    {
        let mut e = "Invalid port range: ".to_owned();
        e.append(ports_input.as_str());
        e
    }
}

impl Device for Switch {
    open spec fn enable_result(&self, r: Result<Operation, DeviceError>) -> bool {
        r == match vendor_row(vendor_table(), self@.brand) {
            Some(row) => Ok::<Operation, DeviceError>(Operation::SetPorts(row.2)),
            None => Err(DeviceError::UnknownVendor),
        }
    }

    open spec fn disable_result(&self, r: Result<Operation, DeviceError>) -> bool {
        r == match vendor_row(vendor_table(), self@.brand) {
            Some(row) => Ok::<Operation, DeviceError>(Operation::SetPorts(row.3)),
            None => Err(DeviceError::UnknownVendor),
        }
    }

    open spec fn status_result(&self, r: Result<Operation, DeviceError>) -> bool {
        r == match vendor_row(vendor_table(), self@.brand) {
            Some(_) => Ok::<Operation, DeviceError>(Operation::QueryPorts),
            None => Err(DeviceError::UnknownVendor),
        }
    }

    open spec fn updated(&self, attrs: Self, after: Self) -> bool {
        &&& after@ == (SwitchView { name: self@.name, ..attrs@ })
        &&& credentials_consistent(after@)
    }

    /// Writes the vendor's "on" value to the selected ports.
    fn enable(&self) -> (r: Result<Operation, DeviceError>) {
        self.vendor_value(true)
    }

    /// Writes the vendor's "off" value to the selected ports.
    fn disable(&self) -> (r: Result<Operation, DeviceError>) {
        self.vendor_value(false)
    }

    /// Reads the selected ports.
    fn status(&self) -> (r: Result<Operation, DeviceError>) {
        let sob = SwitchOidBuilder::new();
        match sob.get_on(self.brand.clone()) {
            Some(_) => Ok(Operation::QueryPorts),
            None => Err(DeviceError::UnknownVendor),
        }
    }

    /// Takes every attribute of `attrs` but the name.
    fn update(&mut self, attrs: Self) {
        proof {
            use_type_invariant(&attrs);
        }
        let name = self.name.clone();
        let Switch {
            name: _,
            ip,
            brand,
            version,
            ports,
            community,
            auth,
            auth_user,
            auth_pass,
            encryption,
            encryption_pass,
        } = attrs;
        *self = Switch {
            name,
            ip,
            brand,
            version,
            ports,
            community,
            auth,
            auth_user,
            auth_pass,
            encryption,
            encryption_pass,
        };
    }
}

} // verus!
