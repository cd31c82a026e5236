//! The table of switch vendors: for each, the object-identifier prefix of its
//! per-port power setting and the two values that mean "on" and "off".
use vstd::prelude::*;

verus! {

/// One row of the vendor table, as values: name, dotted identifier prefix,
/// the value for "on", the value for "off".
pub type VendorRow = (Seq<char>, Seq<char>, i32, i32);

/// The rows of the vendor table, in the order in which they are listed.
pub open spec fn vendor_table() -> Seq<VendorRow> {
    seq![("Netgear"@, "1.3.6.1.2.1.105.1.1.1.3.1"@, 1i32, 2i32)]
}

/// The row of vendor `name` in `t`: the first one with that name.
pub open spec fn vendor_row(t: Seq<VendorRow>, name: Seq<char>) -> Option<VendorRow>
    decreases t.len(),
{
    if t.len() == 0 {
        None
    } else if t[0].0 == name {
        Some(t[0])
    } else {
        vendor_row(t.drop_first(), name)
    }
}

proof fn lemma_vendor_row_found(t: Seq<VendorRow>, name: Seq<char>, i: int)
    requires
        0 <= i < t.len(),
        t[i].0 == name,
        forall|j: int| 0 <= j < i ==> t[j].0 != name,
    ensures
        vendor_row(t, name) == Some(t[i]),
    decreases i,
{
    if i > 0 {
        assert(t[0].0 != name);
        lemma_vendor_row_found(t.drop_first(), name, i - 1);
    }
}

proof fn lemma_vendor_row_missing(t: Seq<VendorRow>, name: Seq<char>)
    requires
        forall|j: int| 0 <= j < t.len() ==> t[j].0 != name,
    ensures
        vendor_row(t, name) is None,
    decreases t.len(),
{
    if t.len() > 0 {
        assert(t[0].0 != name);
        lemma_vendor_row_missing(t.drop_first(), name);
    }
}

struct SwitchOid {
    name: String,
    poe_oid: String,
    on: i32,
    off: i32,
}

impl SwitchOid {
    spec fn row(&self) -> VendorRow {
        (self.name@, self.poe_oid@, self.on, self.off)
    }

    fn new(name: String, poe_oid: String, on: i32, off: i32) -> (r: SwitchOid)
        ensures
            r.row() == (name@, poe_oid@, on, off),
    {
        SwitchOid { name, poe_oid, on, off }
    }
}

/// The vendor table.
pub struct SwitchOidBuilder {
    switch_oids: Vec<SwitchOid>,
}

impl View for SwitchOidBuilder {
    type V = Seq<VendorRow>;

    closed spec fn view(&self) -> Seq<VendorRow> {
        self.switch_oids@.map_values(|o: SwitchOid| o.row())
    }
}

impl SwitchOidBuilder {
    /// The table with every known vendor.
    pub fn new() -> (r: Self)
        ensures
            r@ == vendor_table(),
    {
        Self { switch_oids: SwitchOidBuilder::build() }
    }

    fn build() -> (r: Vec<SwitchOid>)
        ensures
            r@.map_values(|o: SwitchOid| o.row()) == vendor_table(),
    {
        let mut switch_oids: Vec<SwitchOid> = Vec::new();
        switch_oids.push(
            SwitchOid::new("Netgear".to_owned(), "1.3.6.1.2.1.105.1.1.1.3.1".to_owned(), 1, 2),
        );
        assert(switch_oids@.map_values(|o: SwitchOid| o.row()) =~= vendor_table());
        switch_oids
    }

    /// The vendor names, in table order.
    pub fn get_oid_names(&self) -> (r: Vec<String>)
        ensures
            r@.len() == self@.len(),
            forall|i: int| 0 <= i < r@.len() ==> #[trigger] r@[i]@ == self@[i].0,
    {
        let mut r: Vec<String> = Vec::new();
        let mut i: usize = 0;
        while i < self.switch_oids.len()
            invariant
                i <= self.switch_oids@.len(),
                r@.len() == i,
                forall|k: int| 0 <= k < i ==> #[trigger] r@[k]@ == self@[k].0,
            decreases self.switch_oids@.len() - i,
        {
            r.push(self.switch_oids[i].name.clone());
            i = i + 1;
        }
        r
    }

    /// The name of row `index`.
    pub fn get_oid_name(&self, index: usize) -> (r: String)
        requires
            index < self@.len(),
        ensures
            r@ == self@[index as int].0,
    {
        self.switch_oids[index].name.clone()
    }

    /// The position of the first row named `name`.
    fn find(&self, name: &String) -> (r: Option<usize>)
        ensures
            r matches Some(i) ==> i < self@.len() && vendor_row(self@, name@) == Some(
                self@[i as int],
            ),
            r is None ==> vendor_row(self@, name@) is None,
    {
        let mut i: usize = 0;
        while i < self.switch_oids.len()
            invariant
                i <= self.switch_oids@.len(),
                forall|j: int| 0 <= j < i ==> self@[j].0 != name@,
            decreases self.switch_oids@.len() - i,
        {
            if self.switch_oids[i].name == *name {
                proof {
                    lemma_vendor_row_found(self@, name@, i as int);
                }
                return Some(i);
            }
            i = i + 1;
        }
        proof {
            lemma_vendor_row_missing(self@, name@);
        }
        None
    }

    /// The dotted identifier prefix of vendor `name`, or `None` for an unknown
    /// vendor.
    pub fn get_switch_oid(&self, name: String) -> (r: Option<&String>)
        ensures
            r is None <==> vendor_row(self@, name@) is None,
            r matches Some(s) ==> vendor_row(self@, name@) matches Some(row) && s@ == row.1,
    {
        match self.find(&name) {
            Some(i) => {
                assert(self@[i as int] == self.switch_oids@[i as int].row());
                assert(self@[i as int].1 == self.switch_oids@[i as int].poe_oid@);
                Some(&self.switch_oids[i].poe_oid)
            },
            None => None,
        }
    }

    /// The value that means "on" for vendor `name`, or `None` for an unknown
    /// vendor.
    pub fn get_on(&self, name: String) -> (r: Option<i32>)
        ensures
            r == (match vendor_row(self@, name@) {
                Some(row) => Some(row.2),
                None => None,
            }),
    {
        match self.find(&name) {
            Some(i) => {
                assert(self@[i as int] == self.switch_oids@[i as int].row());
                assert(self@[i as int].2 == self.switch_oids@[i as int].on);
                Some(self.switch_oids[i].on)
            },
            None => None,
        }
    }

    /// The value that means "off" for vendor `name`, or `None` for an unknown
    /// vendor.
    pub fn get_off(&self, name: String) -> (r: Option<i32>)
        ensures
            r == (match vendor_row(self@, name@) {
                Some(row) => Some(row.3),
                None => None,
            }),
    {
        match self.find(&name) {
            Some(i) => {
                assert(self@[i as int] == self.switch_oids@[i as int].row());
                assert(self@[i as int].3 == self.switch_oids@[i as int].off);
                Some(self.switch_oids[i].off)
            },
            None => None,
        }
    }
}

} // verus!
