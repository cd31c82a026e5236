//! The protocol client for switches: one get or set exchange per requested
//! port. This module decides which identifier each exchange addresses and
//! what each reply means; the exchanges themselves run elsewhere, all at once,
//! and a port whose exchange failed is simply left out of the results.
use crate::switch::{base_oid, target_oid, SNMPVersion, Switch, SwitchResult};
use crate::switch_oid::{vendor_row, vendor_table, SwitchOidBuilder};
use csnmp::{ObjectIdentifier, ObjectIdentifierConversionError};
use vstd::prelude::*;

verus! {

#[verifier::external_type_specification]
#[verifier::external_body]
pub struct ExObjectIdentifier(ObjectIdentifier);

#[verifier::external_type_specification]
#[verifier::external_body]
pub struct ExObjectIdentifierConversionError(ObjectIdentifierConversionError);

/// The numbers that an object identifier holds, in order.
pub uninterp spec fn oid_parts(o: ObjectIdentifier) -> Seq<u32>;

/// Relies on csnmp's `TryFrom<&[u32]>` for `ObjectIdentifier`, which copies the
/// numbers, in order, and fails exactly when there are more than 128 of them.
#[verifier::external_body]
fn to_object_identifier(parts: &Vec<u32>) -> (r: Result<
    ObjectIdentifier,
    ObjectIdentifierConversionError,
>)
    ensures
        r is Ok <==> parts@.len() <= 128,
        r matches Ok(o) ==> oid_parts(o) == parts@,
{
    ObjectIdentifier::try_from(parts.as_slice())
}

/// Why the exchanges for a switch cannot be made.
#[derive(PartialEq, Eq, Structural, Clone, Copy, Debug)]
pub enum SnmpError {
    /// Version-3 exchanges are not implemented.
    Unsupported,
    /// The switch's vendor is not in the vendor table.
    UnknownVendor,
    /// The identifier would be longer than the protocol allows.
    IdentifierTooLong,
}

/// Why one port's exchange gave no result.
#[derive(PartialEq, Eq, Structural, Clone, Copy, Debug)]
pub enum PortError {
    /// The session or the exchange failed, or the reply held no integer.
    ExchangeFailed,
    /// The reply was this integer, which is neither the on-value nor the
    /// off-value.
    InvalidValue(i32),
}

/// What one reply means: the label "on" for the vendor's on-value, "off" for
/// its off-value, and an error for a failed exchange or any other value.
pub open spec fn reply_outcome(reply: Option<i32>, on: i32, off: i32) -> Result<
    Seq<char>,
    PortError,
> {
    match reply {
        Some(v) => if v == on {
            Ok("on"@)
        } else if v == off {
            Ok("off"@)
        } else {
            Err(PortError::InvalidValue(v))
        },
        None => Err(PortError::ExchangeFailed),
    }
}

/// One exchange to make: the port, the identifier that addresses it as
/// numbers, and the same identifier as the protocol library takes it.
pub struct PortRequest {
    pub port: u32,
    pub target: Vec<u32>,
    pub oid: ObjectIdentifier,
}

/// The label of one reply, where it has one.
pub open spec fn reply_label(reply: Option<i32>, on: i32, off: i32) -> Option<Seq<char>> {
    match reply_outcome(reply, on, off) {
        Ok(l) => Some(l),
        Err(_) => None,
    }
}

/// The results of a set of exchanges, in request order: one for each port
/// whose reply has a label, none for the others.
pub open spec fn outcomes(ports: Seq<u32>, replies: Seq<Option<i32>>, on: i32, off: i32) -> Seq<
    (u32, Seq<char>),
>
    decreases ports.len(),
{
    if ports.len() == 0 || replies.len() == 0 {
        Seq::empty()
    } else {
        let rest = outcomes(ports.drop_last(), replies.drop_last(), on, off);
        match reply_label(replies.last(), on, off) {
            Some(l) => rest.push((ports.last(), l)),
            None => rest,
        }
    }
}

/// The port and label of each result.
pub open spec fn result_views(v: Seq<SwitchResult>) -> Seq<(u32, Seq<char>)> {
    v.map_values(|o: SwitchResult| (o.port, o.status@))
}

/// A port's result is kept where its exchange succeeded with a labelled value:
/// where exactly one exchange failed, the results hold every other requested
/// port, in order, and not the failed one.
pub proof fn lemma_one_failure(
    ports: Seq<u32>,
    replies: Seq<Option<i32>>,
    on: i32,
    off: i32,
    k: int,
)
    requires
        ports.len() == replies.len(),
        0 <= k < ports.len(),
        reply_label(replies[k], on, off) is None,
        forall|i: int| 0 <= i < ports.len() && i != k ==> #[trigger] reply_label(replies[i], on, off) is Some,
    ensures
        outcomes(ports, replies, on, off).map_values(|o: (u32, Seq<char>)| o.0) == ports.remove(k),
    decreases ports.len(),
{
    let n = ports.len() - 1;
    if k == n {
        lemma_all_kept(ports.drop_last(), replies.drop_last(), on, off);
        assert(ports.remove(k) == ports.drop_last());
    } else {
        assert(reply_label(replies[n], on, off) is Some);
        lemma_one_failure(ports.drop_last(), replies.drop_last(), on, off, k);
        assert(ports.drop_last().remove(k).push(ports.last()) =~= ports.remove(k));
        assert(outcomes(ports, replies, on, off).map_values(|o: (u32, Seq<char>)| o.0)
            =~= outcomes(ports.drop_last(), replies.drop_last(), on, off).map_values(
            |o: (u32, Seq<char>)| o.0,
        ).push(ports.last()));
    }
}

/// Where every exchange succeeded with a labelled value, every requested port
/// has a result, in order.
pub proof fn lemma_all_kept(ports: Seq<u32>, replies: Seq<Option<i32>>, on: i32, off: i32)
    requires
        ports.len() == replies.len(),
        forall|i: int| 0 <= i < ports.len() ==> #[trigger] reply_label(replies[i], on, off) is Some,
    ensures
        outcomes(ports, replies, on, off).map_values(|o: (u32, Seq<char>)| o.0) == ports,
    decreases ports.len(),
{
    if ports.len() > 0 {
        assert(reply_label(replies[ports.len() - 1], on, off) is Some);
        lemma_all_kept(ports.drop_last(), replies.drop_last(), on, off);
        assert(outcomes(ports, replies, on, off).map_values(|o: (u32, Seq<char>)| o.0)
            =~= outcomes(ports.drop_last(), replies.drop_last(), on, off).map_values(
            |o: (u32, Seq<char>)| o.0,
        ).push(ports.last()));
        assert(ports.drop_last().push(ports.last()) == ports);
    } else {
        assert(outcomes(ports, replies, on, off).map_values(|o: (u32, Seq<char>)| o.0) =~= ports);
    }
}

/// The version-2 exchange: what one reply means.
pub struct SnmpV2Client {}

impl SnmpV2Client {
    /// The result for `port` given its reply, or the error that names what
    /// went wrong: a failed exchange, or a value that is neither the on-value
    /// nor the off-value.
    pub fn outcome(port: u32, reply: Option<i32>, on: i32, off: i32) -> (r: Result<
        SwitchResult,
        PortError,
    >)
        ensures
            match reply_outcome(reply, on, off) {
                Ok(l) => r matches Ok(o) && o.port == port && o.status@ == l,
                Err(e) => r matches Err(f) && f == e,
            },
    {
        match reply {
            Some(v) => {
                if v == on {
                    Ok(SwitchResult { port, status: "on".to_owned() })
                } else if v == off {
                    Ok(SwitchResult { port, status: "off".to_owned() })
                } else {
                    Err(PortError::InvalidValue(v))
                }
            },
            None => Err(PortError::ExchangeFailed),
        }
    }
}

/// The protocol client.
pub struct Snmp {}

impl Snmp {
    pub fn new() -> (r: Self) {
        Snmp {  }
    }

    /// The exchanges to make for `ports` of `switch`, one per port, in order.
    pub fn requests(&self, switch: &Switch, ports: &Vec<u32>) -> (r: Result<
        Vec<PortRequest>,
        SnmpError,
    >)
        ensures
            switch@.version == SNMPVersion::V3 ==> r == Err::<Vec<PortRequest>, SnmpError>(
                SnmpError::Unsupported,
            ),
            switch@.version == SNMPVersion::V2 ==> match base_oid(switch@.brand) {
                None => r == Err::<Vec<PortRequest>, SnmpError>(SnmpError::UnknownVendor),
                Some(b) => if b.len() + 1 > 128 {
                    r == Err::<Vec<PortRequest>, SnmpError>(SnmpError::IdentifierTooLong)
                } else {
                    r matches Ok(v) && v@.len() == ports@.len() && forall|i: int|
                        0 <= i < ports@.len() ==> #[trigger] v@[i].port == ports@[i] && Some(
                            v@[i].target@,
                        ) == target_oid(switch@.brand, ports@[i]) && oid_parts(v@[i].oid)
                            == v@[i].target@
                },
            },
    {
        if switch.get_version() == SNMPVersion::V3 {
            return Err(SnmpError::Unsupported);
        }
        let base = match switch.get_oid() {
            Some(b) => b,
            None => {
                return Err(SnmpError::UnknownVendor);
            },
        };
        if base.len() >= 128 {
            return Err(SnmpError::IdentifierTooLong);
        }
        let mut v: Vec<PortRequest> = Vec::new();
        let mut i: usize = 0;
        while i < ports.len()
            invariant
                i <= ports@.len(),
                base_oid(switch@.brand) == Some(base@),
                base@.len() < 128,
                v@.len() == i,
                forall|j: int|
                    0 <= j < i ==> #[trigger] v@[j].port == ports@[j] && Some(v@[j].target@)
                        == target_oid(switch@.brand, ports@[j]) && oid_parts(v@[j].oid)
                        == v@[j].target@,
            decreases ports@.len() - i,
        {
            let port = ports[i];
            let mut target = base.clone();
            target.push(port);
            match to_object_identifier(&target) {
                Ok(oid) => {
                    let ghost before = v@;
                    let ghost parts = target@;
                    assert(parts == base@.push(port));
                    assert(Some(parts) == target_oid(switch@.brand, port));
                    assert(oid_parts(oid) == parts);
                    v.push(PortRequest { port, target, oid });
                    assert forall|j: int| 0 <= j < i + 1 implies #[trigger] v@[j].port
                        == ports@[j] && Some(v@[j].target@) == target_oid(
                        switch@.brand,
                        ports@[j],
                    ) && oid_parts(v@[j].oid) == v@[j].target@ by {
                        if j < i {
                            assert(v@[j] == before[j]);
                        } else {
                            assert(v@[j].port == port);
                            assert(v@[j].target@ == parts);
                            assert(v@[j].oid == oid);
                        }
                    }
                },
                Err(_) => {
                    return Err(SnmpError::IdentifierTooLong);
                },
            }
            i = i + 1;
        }
        Ok(v)
    }

    /// What each exchange for `ports` of `switch` gave, port by port, given the
    /// value that each one returned, or `None` where it failed: a result, or
    /// the error that names why there is none. No port's reply bears on
    /// another's outcome.
    pub fn outcomes(&self, switch: &Switch, ports: &Vec<u32>, replies: &Vec<Option<i32>>) -> (r:
        Result<Vec<Result<SwitchResult, PortError>>, SnmpError>)
        requires
            ports@.len() == replies@.len(),
        ensures
            match vendor_row(vendor_table(), switch@.brand) {
                None => r == Err::<Vec<Result<SwitchResult, PortError>>, SnmpError>(
                    SnmpError::UnknownVendor,
                ),
                Some(row) => r matches Ok(v) && v@.len() == ports@.len() && forall|i: int|
                    0 <= i < ports@.len() ==> match reply_outcome(replies@[i], row.2, row.3) {
                        Ok(l) => #[trigger] v@[i] matches Ok(o) && o.port == ports@[i]
                            && o.status@ == l,
                        Err(e) => v@[i] matches Err(f) && f == e,
                    },
            },
    {
        let sob = SwitchOidBuilder::new();
        let on = match sob.get_on(switch.get_brand().to_owned()) {
            Some(v) => v,
            None => {
                return Err(SnmpError::UnknownVendor);
            },
        };
        let off = match sob.get_off(switch.get_brand().to_owned()) {
            Some(v) => v,
            None => {
                return Err(SnmpError::UnknownVendor);
            },
        };
        let mut out: Vec<Result<SwitchResult, PortError>> = Vec::new();
        let mut i: usize = 0;
        while i < ports.len()
            invariant
                i <= ports@.len(),
                ports@.len() == replies@.len(),
                vendor_row(vendor_table(), switch@.brand) matches Some(row) && row.2 == on
                    && row.3 == off,
                out@.len() == i,
                forall|j: int|
                    0 <= j < i ==> match reply_outcome(replies@[j], on, off) {
                        Ok(l) => #[trigger] out@[j] matches Ok(o) && o.port == ports@[j]
                            && o.status@ == l,
                        Err(e) => out@[j] matches Err(f) && f == e,
                    },
            decreases ports@.len() - i,
        {
            out.push(SnmpV2Client::outcome(ports[i], replies[i], on, off));
            i = i + 1;
        }
        Ok(out)
    }

    /// The results of the exchanges for `ports` of `switch`, given the value
    /// that each one returned, or `None` where it failed. Ports are kept in
    /// request order; a failed or unlabelled one is left out.
    pub fn results(&self, switch: &Switch, ports: &Vec<u32>, replies: &Vec<Option<i32>>) -> (r:
        Result<Vec<SwitchResult>, SnmpError>)
        requires
            ports@.len() == replies@.len(),
        ensures
            match vendor_row(vendor_table(), switch@.brand) {
                None => r == Err::<Vec<SwitchResult>, SnmpError>(SnmpError::UnknownVendor),
                Some(row) => r matches Ok(v) && result_views(v@) == outcomes(
                    ports@,
                    replies@,
                    row.2,
                    row.3,
                ),
            },
    {
        let sob = SwitchOidBuilder::new();
        let on = match sob.get_on(switch.get_brand().to_owned()) {
            Some(v) => v,
            None => {
                return Err(SnmpError::UnknownVendor);
            },
        };
        let off = match sob.get_off(switch.get_brand().to_owned()) {
            Some(v) => v,
            None => {
                return Err(SnmpError::UnknownVendor);
            },
        };
        let mut out: Vec<SwitchResult> = Vec::new();
        let mut i: usize = 0;
        while i < ports.len()
            invariant
                i <= ports@.len(),
                ports@.len() == replies@.len(),
                result_views(out@) == outcomes(
                    ports@.take(i as int),
                    replies@.take(i as int),
                    on,
                    off,
                ),
            decreases ports@.len() - i,
        {
            proof {
                assert(ports@.take(i as int + 1).drop_last() == ports@.take(i as int));
                assert(replies@.take(i as int + 1).drop_last() == replies@.take(i as int));
            }
            let ghost before = out@;
            match SnmpV2Client::outcome(ports[i], replies[i], on, off) {
                Ok(o) => {
                    out.push(o);
                    assert(result_views(out@) =~= result_views(before).push(
                        (ports@[i as int], out@.last().status@),
                    ));
                },
                Err(_) => {},
            }
            i = i + 1;
        }
        assert(ports@.take(i as int) == ports@);
        assert(replies@.take(i as int) == replies@);
        Ok(out)
    }
}

} // verus!
